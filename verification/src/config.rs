//! What the operator configures, and what the engine makes of it before a run.

use vstd::prelude::*;
use crate::address::Ipv6Prefix;
use crate::gate::{text_view, GateStrategy, GateStrategyView};
use crate::literal::{parse_prefix, prefix_of};

verus! {

/// The configuration of the engine, as it is loaded.
#[derive(Clone, Debug, PartialEq, Eq)]
pub struct Config {
    /// The token that authorizes the engine at the provider.
    pub token: String,
    /// The zone whose records the engine manages.
    pub zoneid: String,
    /// The name under which the local and the global IPv6 address are published.
    pub hostname: String,
    /// The name under which the public IPv4 address is published, if it is to be.
    pub public: Option<String>,
    /// The wireless network on which alone the engine runs, if it is bound to one.
    pub ssid: Option<String>,
    /// The name whose address the host's public address must equal for the
    /// engine to run, if it is bound to a home network.
    pub home: Option<String>,
    /// The ranges in which a global IPv6 address of the interface must lie, if
    /// they are restricted.
    pub prefixes: Option<Vec<String>>,
}

/// The texts that a list of strings holds, in the order of the list.
pub open spec fn strings_view(list: Seq<String>) -> Seq<Seq<char>> {
    list.map_values(|s: String| s@)
}

/// The value of a [`Config`].
pub struct ConfigView {
    pub token: Seq<char>,
    pub zoneid: Seq<char>,
    pub hostname: Seq<char>,
    pub public: Option<Seq<char>>,
    pub ssid: Option<Seq<char>>,
    pub home: Option<Seq<char>>,
    pub prefixes: Option<Seq<Seq<char>>>,
}

impl View for Config {
    type V = ConfigView;

    open spec fn view(&self) -> ConfigView {
        ConfigView {
            token: self.token@,
            zoneid: self.zoneid@,
            hostname: self.hostname@,
            public: text_view(self.public),
            ssid: text_view(self.ssid),
            home: text_view(self.home),
            prefixes: match self.prefixes {
                Some(list) => Some(strings_view(list@)),
                None => None,
            },
        }
    }
}

/// What makes a configuration unusable. The engine does not start on one.
#[derive(Clone, Copy, Debug, PartialEq, Eq, Structural)]
pub enum ConfigError {
    /// Both gates are configured; at most one may be.
    ConflictingGates,
    /// The prefix at this place of the list is no range of IPv6 addresses.
    InvalidPrefix(usize),
}

/// What the engine works with once the configuration has been found usable.
#[derive(Clone, Debug, PartialEq, Eq)]
pub struct Settings {
    pub gate: GateStrategy,
    pub allowed: Option<Vec<Ipv6Prefix>>,
}

/// The value of [`Settings`].
pub struct SettingsView {
    pub gate: GateStrategyView,
    pub allowed: Option<Seq<Ipv6Prefix>>,
}

impl View for Settings {
    type V = SettingsView;

    open spec fn view(&self) -> SettingsView {
        SettingsView {
            gate: self.gate@,
            allowed: match self.allowed {
                Some(list) => Some(list@),
                None => None,
            },
        }
    }
}

/// The network gate that a configuration asks for: none, the one of the two that is
/// configured, or an error where both are.
pub open spec fn spec_gate(config: ConfigView) -> Result<GateStrategyView, ConfigError> {
    match (config.ssid, config.home) {
        (None, None) => Ok(GateStrategyView::Open),
        (Some(name), None) => Ok(GateStrategyView::Ssid(name)),
        (None, Some(name)) => Ok(GateStrategyView::Home(name)),
        (Some(_), Some(_)) => Err(ConfigError::ConflictingGates),
    }
}

/// Whether `i` is the first place of the list that holds no prefix.
pub open spec fn is_first_bad_prefix(list: Seq<Seq<char>>, i: int) -> bool {
    &&& 0 <= i < list.len()
    &&& prefix_of(list[i]) is None
    &&& forall|j: int| 0 <= j < i ==> prefix_of(#[trigger] list[j]) is Some
}

/// The prefixes that a list of texts stands for, or the first place that holds none.
pub open spec fn spec_prefixes(list: Seq<Seq<char>>) -> Result<Seq<Ipv6Prefix>, ConfigError> {
    if exists|i: int| is_first_bad_prefix(list, i) {
        Err(ConfigError::InvalidPrefix((choose|i: int| is_first_bad_prefix(list, i)) as usize))
    } else {
        Ok(list.map_values(|s: Seq<char>| prefix_of(s).unwrap()))
    }
}

/// The restriction on global IPv6 addresses that a configuration asks for.
pub open spec fn spec_allowed(config: ConfigView) -> Result<Option<Seq<Ipv6Prefix>>, ConfigError> {
    match config.prefixes {
        None => Ok(None),
        Some(list) => match spec_prefixes(list) {
            Ok(prefixes) => Ok(Some(prefixes)),
            Err(e) => Err(e),
        },
    }
}

/// What a configuration comes to: the network gate's error goes before a prefix's.
pub open spec fn spec_settings(config: ConfigView) -> Result<SettingsView, ConfigError> {
    match spec_gate(config) {
        Err(e) => Err(e),
        Ok(gate) => match spec_allowed(config) {
            Err(e) => Err(e),
            Ok(allowed) => Ok(SettingsView { gate, allowed }),
        },
    }
}

/// The value of settings or the error in their place.
pub open spec fn settings_view(r: Result<Settings, ConfigError>) -> Result<
    SettingsView,
    ConfigError,
> {
    match r {
        Ok(s) => Ok(s@),
        Err(e) => Err(e),
    }
}

/// Reads a list of prefixes.
pub fn parse_prefixes(list: &Vec<String>) -> (r: Result<Vec<Ipv6Prefix>, ConfigError>)
    ensures
        match r {
            Ok(prefixes) => spec_prefixes(strings_view(list@)) == Ok::<
                Seq<Ipv6Prefix>,
                ConfigError,
            >(prefixes@),
            Err(e) => spec_prefixes(strings_view(list@)) == Err::<Seq<Ipv6Prefix>, ConfigError>(e),
        },
        r matches Ok(prefixes) ==> forall|i: int|
            0 <= i < prefixes.len() ==> (#[trigger] prefixes[i]).wf(),
{
    let ghost t = strings_view(list@);
    let mut out: Vec<Ipv6Prefix> = Vec::new();
    let mut i: usize = 0;
    while i < list.len()
        invariant
            i <= list.len(),
            t == strings_view(list@),
            out.len() == i,
            forall|j: int| 0 <= j < i ==> prefix_of(#[trigger] t[j]) == Some(out@[j]),
            forall|j: int| 0 <= j < i ==> (#[trigger] out@[j]).wf(),
        decreases list.len() - i,
    {
        assert(t[i as int] == list@[i as int]@);
        match parse_prefix(list[i].as_str()) {
            None => {
                proof {
                    assert(is_first_bad_prefix(t, i as int));
                    let c = choose|c: int| is_first_bad_prefix(t, c);
                    if c < i {
                        assert(prefix_of(t[c]) is Some);
                    } else if i < c {
                        assert(prefix_of(t[i as int]) is Some);
                    }
                }
                return Err(ConfigError::InvalidPrefix(i));
            },
            Some(p) => {
                out.push(p);
            },
        }
        i += 1;
    }
    proof {
        assert forall|k: int| !is_first_bad_prefix(t, k) by {
            if is_first_bad_prefix(t, k) {
                assert(prefix_of(t[k]) is Some);
            }
        }
        assert(out@ =~= t.map_values(|s: Seq<char>| prefix_of(s).unwrap()));
    }
    Ok(out)
}

impl Config {
    /// The network gate that the configuration asks for.
    pub fn gate(&self) -> (r: Result<GateStrategy, ConfigError>)
        ensures
            match r {
                Ok(g) => spec_gate(self@) == Ok::<GateStrategyView, ConfigError>(g@),
                Err(e) => spec_gate(self@) == Err::<GateStrategyView, ConfigError>(e),
            },
    {
        match (&self.ssid, &self.home) {
            (None, None) => Ok(GateStrategy::Open),
            (Some(name), None) => Ok(GateStrategy::Ssid(name.clone())),
            (None, Some(name)) => Ok(GateStrategy::Home(name.clone())),
            (Some(_), Some(_)) => Err(ConfigError::ConflictingGates),
        }
    }

    /// Finds the configuration usable or not. It is not where both gates are
    /// configured or a prefix cannot be read.
    pub fn settings(&self) -> (r: Result<Settings, ConfigError>)
        ensures
            settings_view(r) == spec_settings(self@),
            r matches Ok(s) ==> (s.allowed matches Some(list) ==> forall|i: int|
                0 <= i < list.len() ==> (#[trigger] list[i]).wf()),
    {
        let gate = match self.gate() {
            Ok(g) => g,
            Err(e) => {
                return Err(e);
            },
        };
        match &self.prefixes {
            None => Ok(Settings { gate, allowed: None }),
            Some(list) => match parse_prefixes(list) {
                Ok(prefixes) => Ok(Settings { gate, allowed: Some(prefixes) }),
                Err(e) => Err(e),
            },
        }
    }
}

} // verus!
