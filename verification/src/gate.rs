//! The network identity gate: whether this run may touch the zone at all.
//!
//! A gate compares what the configuration expects with what the caller found
//! out about the network the host is on. Where the two differ, or nothing could
//! be found out, the network gate vetoes the run.

use vstd::prelude::*;
use vstd::string::StrSliceExecFns;
use crate::address::Address;
use crate::text::{
    chars_of, find_pair, first_pair, is_first_pair, lemma_first_pair_is, lemma_trim_is, pair_at,
    part, trim_bounds, trimmed,
};

verus! {

/// The name of the wireless network in what the platform's utility printed, where
/// the utility ended well (`success`).
///
/// The name is what stands after the first colon-and-space, up to the next one or
/// the end, without the white space at its two ends.
pub open spec fn spec_ssid(success: bool, output: Seq<char>) -> Option<Seq<char>> {
    if !success {
        None
    } else {
        match first_pair(output, ':', ' ', 0) {
            None => None,
            Some(i) => {
                let end = match first_pair(output, ':', ' ', i + 2) {
                    Some(j) => j,
                    None => output.len() as int,
                };
                Some(trimmed(output.subrange(i + 2, end)))
            },
        }
    }
}

/// The text of an optional string.
pub open spec fn text_view(s: Option<String>) -> Option<Seq<char>> {
    match s {
        Some(s) => Some(s@),
        None => None,
    }
}

/// Reads the name of the wireless network that the host is on from what the
/// platform's utility printed. There is none where the utility failed or printed
/// no name.
pub fn ssid(success: bool, output: &str) -> (r: Option<String>)
    ensures
        text_view(r) == spec_ssid(success, output@),
{
    if !success {
        return None;
    }
    let chars = chars_of(output);
    match find_pair(&chars, ':', ' ', 0) {
        None => None,
        Some(i) => {
            let end: usize = match find_pair(&chars, ':', ' ', i + 2) {
                Some(j) => j,
                None => chars.len(),
            };
            let field = part(&chars, i + 2, end);
            let (a, b) = trim_bounds(&field);
            proof {
                lemma_trim_is(field@, a as int, b as int);
                assert(field@.subrange(a as int, b as int) =~= output@.subrange(
                    i + 2 + a,
                    i + 2 + b,
                ));
            }
            let name = output.substring_char(i + 2 + a, i + 2 + b);
            Some(name.to_owned())
        },
    }
}

/// Why the network gate decided as it did.
#[derive(Clone, Copy, Debug, PartialEq, Eq, Structural)]
pub enum GateReason {
    /// No gate is configured.
    NoGate,
    /// The host is on the expected wireless network.
    SsidMatches,
    /// The host is on another wireless network.
    SsidDiffers,
    /// The wireless network could not be told.
    SsidUndetected,
    /// The host's public address is that of the reference name.
    HomeMatches,
    /// The host's public address is not that of the reference name.
    HomeDiffers,
    /// The reference name or the host's public address could not be found out.
    HomeUnresolved,
}

/// The network gate's decision with its reason.
#[derive(Clone, Copy, Debug, PartialEq, Eq, Structural)]
pub struct GateResult {
    pub pass: bool,
    pub reason: GateReason,
}

/// What the network gate compares against, as the configuration has it.
#[derive(Clone, Debug, PartialEq, Eq)]
pub enum GateStrategy {
    /// No gate: every run passes.
    Open,
    /// The run passes on the wireless network of this name.
    Ssid(String),
    /// The run passes where the host's public address is that of this name.
    Home(String),
}

/// The value of a [`GateStrategy`].
pub enum GateStrategyView {
    Open,
    Ssid(Seq<char>),
    Home(Seq<char>),
}

impl View for GateStrategy {
    type V = GateStrategyView;

    open spec fn view(&self) -> GateStrategyView {
        match *self {
            GateStrategy::Open => GateStrategyView::Open,
            GateStrategy::Ssid(s) => GateStrategyView::Ssid(s@),
            GateStrategy::Home(s) => GateStrategyView::Home(s@),
        }
    }
}

/// What the caller found out for the network gate.
#[derive(Clone, Debug, PartialEq, Eq)]
pub enum Observation {
    /// Nothing was looked for.
    Nothing,
    /// The name of the wireless network, where it could be told.
    Ssid(Option<String>),
    /// The address of the reference name and the host's own public address, each
    /// where it could be found out.
    Home { reference: Option<Address>, public: Option<Address> },
}

/// The value of an [`Observation`].
pub enum ObservationView {
    Nothing,
    Ssid(Option<Seq<char>>),
    Home { reference: Option<Address>, public: Option<Address> },
}

impl View for Observation {
    type V = ObservationView;

    open spec fn view(&self) -> ObservationView {
        match *self {
            Observation::Nothing => ObservationView::Nothing,
            Observation::Ssid(s) => ObservationView::Ssid(text_view(s)),
            Observation::Home { reference, public } => ObservationView::Home { reference, public },
        }
    }
}

/// The decision of the wireless gate: it passes on the expected network only.
pub open spec fn spec_ssid_gate(expected: Seq<char>, detected: Option<Seq<char>>) -> GateResult {
    match detected {
        None => GateResult { pass: false, reason: GateReason::SsidUndetected },
        Some(name) => if name == expected {
            GateResult { pass: true, reason: GateReason::SsidMatches }
        } else {
            GateResult { pass: false, reason: GateReason::SsidDiffers }
        },
    }
}

/// The decision of the home gate: it passes where both addresses are known and
/// are the same.
pub open spec fn spec_home_gate(reference: Option<Address>, public: Option<Address>)
    -> GateResult {
    match (reference, public) {
        (Some(r), Some(p)) => if r == p {
            GateResult { pass: true, reason: GateReason::HomeMatches }
        } else {
            GateResult { pass: false, reason: GateReason::HomeDiffers }
        },
        _ => GateResult { pass: false, reason: GateReason::HomeUnresolved },
    }
}

/// The decision of the configured gate on what was found out. What was found
/// out for another gate than the configured one counts as nothing found.
pub open spec fn spec_evaluate(strategy: GateStrategyView, seen: ObservationView) -> GateResult {
    match strategy {
        GateStrategyView::Open => GateResult { pass: true, reason: GateReason::NoGate },
        GateStrategyView::Ssid(expected) => match seen {
            ObservationView::Ssid(detected) => spec_ssid_gate(expected, detected),
            _ => spec_ssid_gate(expected, None),
        },
        GateStrategyView::Home(_) => match seen {
            ObservationView::Home { reference, public } => spec_home_gate(reference, public),
            _ => spec_home_gate(None, None),
        },
    }
}

/// Decides the wireless gate.
pub fn ssid_gate(expected: &String, detected: &Option<String>) -> (r: GateResult)
    ensures
        r == spec_ssid_gate(expected@, text_view(*detected)),
{
    match detected {
        None => GateResult { pass: false, reason: GateReason::SsidUndetected },
        Some(name) => {
            if *name == *expected {
                GateResult { pass: true, reason: GateReason::SsidMatches }
            } else {
                GateResult { pass: false, reason: GateReason::SsidDiffers }
            }
        },
    }
}

/// Decides the home gate.
pub fn home_gate(reference: Option<Address>, public: Option<Address>) -> (r: GateResult)
    ensures
        r == spec_home_gate(reference, public),
{
    match (reference, public) {
        (Some(r), Some(p)) => {
            if r == p {
                GateResult { pass: true, reason: GateReason::HomeMatches }
            } else {
                GateResult { pass: false, reason: GateReason::HomeDiffers }
            }
        },
        _ => GateResult { pass: false, reason: GateReason::HomeUnresolved },
    }
}

/// Decides the configured gate on what the caller found out.
pub fn evaluate(strategy: &GateStrategy, seen: &Observation) -> (r: GateResult)
    ensures
        r == spec_evaluate(strategy@, seen@),
{
    match strategy {
        GateStrategy::Open => GateResult { pass: true, reason: GateReason::NoGate },
        GateStrategy::Ssid(expected) => match seen {
            Observation::Ssid(detected) => ssid_gate(expected, detected),
            _ => GateResult { pass: false, reason: GateReason::SsidUndetected },
        },
        GateStrategy::Home(_) => match seen {
            Observation::Home { reference, public } => home_gate(*reference, *public),
            _ => GateResult { pass: false, reason: GateReason::HomeUnresolved },
        },
    }
}

/// A gate passes only where what it looks for was found and is what it expects.
pub proof fn law_gate_passes_on_match_only(strategy: GateStrategyView, seen: ObservationView)
    ensures
        spec_evaluate(strategy, seen).pass <==> match strategy {
            GateStrategyView::Open => true,
            GateStrategyView::Ssid(expected) => seen == ObservationView::Ssid(Some(expected)),
            GateStrategyView::Home(_) => seen matches ObservationView::Home { reference, public }
                && reference is Some && reference == public,
        },
{
}

/// Where the utility prints a label, a colon and a space, and then the name, the
/// name is read without the white space around it: if neither the label nor what
/// follows the colon and the space holds a colon before a space, what follows is
/// the name.
pub proof fn law_ssid_follows_the_label(label: Seq<char>, rest: Seq<char>)
    requires
        forall|k: int| !pair_at(label, ':', ' ', k),
        forall|k: int| !pair_at(rest, ':', ' ', k),
    ensures
        spec_ssid(true, label + seq![':', ' '] + rest) == Some(trimmed(rest)),
{
    let output = label + seq![':', ' '] + rest;
    let i = label.len() as int;
    assert(output[i] == ':' && output[i + 1] == ' ');
    assert forall|j: int| 0 <= j < i implies !pair_at(output, ':', ' ', j) by {
        if j + 1 < i {
            assert(output[j] == label[j] && output[j + 1] == label[j + 1]);
            assert(!pair_at(label, ':', ' ', j));
        }
    }
    assert(is_first_pair(output, ':', ' ', 0, i));
    lemma_first_pair_is(output, ':', ' ', 0, i);
    let from = i + 2;
    assert forall|k: int| !is_first_pair(output, ':', ' ', from, k) by {
        if from <= k && k + 1 < output.len() {
            assert(output[k] == rest[k - i - 2] && output[k + 1] == rest[k - i - 1]);
            assert(!pair_at(rest, ':', ' ', k - i - 2));
        }
    }
    assert(output.subrange(i + 2, output.len() as int) =~= rest);
}

/// Without a colon before a space in what the utility printed, or where the
/// utility failed, there is no name.
pub proof fn law_ssid_needs_a_label(success: bool, output: Seq<char>)
    requires
        !success || forall|k: int| !pair_at(output, ':', ' ', k),
    ensures
        spec_ssid(success, output) is None,
{
}

} // verus!
