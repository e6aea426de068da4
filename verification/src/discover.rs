//! The discovery orchestrator: which addresses are to be published under which names.
//!
//! There are three ways of finding an address: looking at the default interface,
//! asking an echo service over IPv4 and asking one over IPv6. The caller tries
//! them, each by itself; this module puts together what they found. A way that
//! failed contributes nothing and takes nothing from the others.

use vstd::prelude::*;
use crate::address::{Address, Ipv6Prefix};
use crate::config::{Config, ConfigView};
use crate::inspect::{
    addresses_view, allowed_view, discover_local_addresses, found_view, report_view,
    spec_local_addresses, DiscoveryError, Interface,
};
use crate::resolve::{
    fetch_remote_address, fetched_view, resolved_view, spec_remote_address, ResolveError,
};

verus! {

/// What an address is published as.
#[derive(Clone, Copy, Debug, PartialEq, Eq, Structural)]
pub enum Purpose {
    /// An address of the host in its local network.
    Local,
    /// The address under which the host's network is reached from outside.
    Public,
    /// A globally routable IPv6 address of the host.
    IPv6Global,
}

/// An address that is proposed for publication, with the name to publish it under.
#[derive(Clone, Debug, PartialEq, Eq)]
pub struct Candidate {
    pub purpose: Purpose,
    pub address: Address,
    pub hostname: String,
}

/// The value of a [`Candidate`].
pub struct CandidateView {
    pub purpose: Purpose,
    pub address: Address,
    pub hostname: Seq<char>,
}

impl View for Candidate {
    type V = CandidateView;

    open spec fn view(&self) -> CandidateView {
        CandidateView { purpose: self.purpose, address: self.address, hostname: self.hostname@ }
    }
}

/// The values of a list of candidates, in the order of the list.
pub open spec fn candidates_view(list: Seq<Candidate>) -> Seq<CandidateView> {
    list.map_values(|c: Candidate| c@)
}

/// What the ways of finding addresses brought.
#[derive(Debug, PartialEq, Eq)]
pub struct Findings {
    /// The addresses of the default interface.
    pub local: Result<Vec<Address>, DiscoveryError>,
    /// The answer of the echo service over IPv4, where it was asked.
    pub public: Option<Result<Address, ResolveError>>,
    /// The answer of the echo service over IPv6.
    pub global: Result<Address, ResolveError>,
}

/// The value of [`Findings`]: what each way found, without the reasons for which
/// one found nothing.
pub struct FindingsView {
    pub local: Option<Seq<Address>>,
    pub public: Option<Address>,
    pub global: Option<Address>,
}

impl View for Findings {
    type V = FindingsView;

    open spec fn view(&self) -> FindingsView {
        FindingsView {
            local: match self.local {
                Ok(list) => Some(list@),
                Err(_) => None,
            },
            public: match self.public {
                Some(Ok(a)) => Some(a),
                _ => None,
            },
            global: match self.global {
                Ok(a) => Some(a),
                Err(_) => None,
            },
        }
    }
}

/// Reads what the caller brought back from the three ways of finding addresses.
///
/// `found` is the default interface, where there is one, and `report` what the
/// interface utility printed about it, where it could be run. `public` and
/// `global` are what the attempts to fetch the echo service's page over IPv4 and
/// over IPv6 brought: the body of the answer, or why there is none; `public` is
/// absent where the service was not asked over IPv4. Each way is read by itself.
pub fn gather(
    found: Option<&Interface>,
    report: Option<&str>,
    allowed: &Option<Vec<Ipv6Prefix>>,
    public: Option<Result<String, String>>,
    global: Result<String, String>,
) -> (r: Findings)
    ensures
        addresses_view(r.local) == spec_local_addresses(
            found_view(found),
            report_view(report),
            allowed_view(*allowed),
        ),
        match public {
            Some(fetched) => r.public matches Some(read) && resolved_view(read)
                == spec_remote_address(fetched_view(fetched)),
            None => r.public is None,
        },
        resolved_view(r.global) == spec_remote_address(fetched_view(global)),
{
    let local = discover_local_addresses(found, report, allowed);
    let public = match public {
        Some(fetched) => Some(fetch_remote_address(fetched)),
        None => None,
    };
    let global = fetch_remote_address(global);
    Findings { local, public, global }
}

/// What an address of the interface is published as: an IPv4 address as the
/// local address, an IPv6 address as a global one.
pub open spec fn spec_interface_purpose(address: Address) -> Purpose {
    match address {
        Address::V4(_) => Purpose::Local,
        Address::V6(_) => Purpose::IPv6Global,
    }
}

/// The candidates that the addresses of the interface make, in their order.
pub open spec fn interface_candidates(hostname: Seq<char>, list: Seq<Address>) -> Seq<
    CandidateView,
> {
    list.map_values(
        |a: Address| CandidateView { purpose: spec_interface_purpose(a), address: a, hostname },
    )
}

/// The candidates of the interface's way.
pub open spec fn local_part(config: ConfigView, found: FindingsView) -> Seq<CandidateView> {
    match found.local {
        Some(list) => interface_candidates(config.hostname, list),
        None => Seq::<CandidateView>::empty(),
    }
}

/// The candidate of the echo service over IPv4: there is one where a name for
/// the public address is configured and the service answered.
pub open spec fn public_part(config: ConfigView, found: FindingsView) -> Seq<CandidateView> {
    match (config.public, found.public) {
        (Some(name), Some(a)) => seq![
            CandidateView { purpose: Purpose::Public, address: a, hostname: name },
        ],
        _ => Seq::<CandidateView>::empty(),
    }
}

/// The candidate of the echo service over IPv6.
pub open spec fn global_part(config: ConfigView, found: FindingsView) -> Seq<CandidateView> {
    match found.global {
        Some(a) => seq![
            CandidateView { purpose: Purpose::IPv6Global, address: a, hostname: config.hostname },
        ],
        None => Seq::<CandidateView>::empty(),
    }
}

/// The candidates of a run: those of the interface, then the public one, then
/// the global one.
pub open spec fn spec_discover(config: ConfigView, found: FindingsView) -> Seq<CandidateView> {
    local_part(config, found) + public_part(config, found) + global_part(config, found)
}

/// Whether the echo service over IPv4 is to be asked: only where a name for the
/// public address is configured.
pub fn wants_public(config: &Config) -> (r: bool)
    ensures
        r == config@.public.is_some(),
{
    config.public.is_some()
}

/// Puts the candidates of a run together from what the three ways found.
pub fn discover(config: &Config, found: &Findings) -> (r: Vec<Candidate>)
    ensures
        candidates_view(r@) == spec_discover(config@, found@),
{
    let mut out: Vec<Candidate> = Vec::new();
    match &found.local {
        Ok(list) => {
            let mut i: usize = 0;
            assert(candidates_view(out@) =~= interface_candidates(
                config@.hostname,
                list@.take(0),
            ));
            while i < list.len()
                invariant
                    i <= list.len(),
                    out@.len() == i,
                    candidates_view(out@) == interface_candidates(
                        config@.hostname,
                        list@.take(i as int),
                    ),
                decreases list.len() - i,
            {
                let a = list[i];
                let purpose = match a {
                    Address::V4(_) => Purpose::Local,
                    Address::V6(_) => Purpose::IPv6Global,
                };
                let ghost before = out@;
                let ghost added = CandidateView { purpose, address: a, hostname: config@.hostname };
                out.push(Candidate { purpose, address: a, hostname: config.hostname.clone() });
                assert(candidates_view(out@) =~= candidates_view(before).push(added));
                assert(list@.take(i + 1) =~= list@.take(i as int).push(a));
                assert(interface_candidates(config@.hostname, list@.take(i as int).push(a))
                    =~= interface_candidates(config@.hostname, list@.take(i as int)).push(added));
                i += 1;
            }
            assert(list@.take(i as int) =~= list@);
        },
        Err(_) => {
            assert(candidates_view(out@) =~= Seq::<CandidateView>::empty());
        },
    }
    assert(candidates_view(out@) == local_part(config@, found@));
    match (&config.public, &found.public) {
        (Some(name), Some(Ok(a))) => {
            let ghost before = out@;
            out.push(Candidate { purpose: Purpose::Public, address: *a, hostname: name.clone() });
            assert(candidates_view(out@) =~= candidates_view(before) + public_part(
                config@,
                found@,
            ));
        },
        _ => {
            assert(candidates_view(out@) =~= candidates_view(out@) + public_part(config@, found@));
        },
    }
    assert(candidates_view(out@) == local_part(config@, found@) + public_part(config@, found@));
    match &found.global {
        Ok(a) => {
            let ghost before = out@;
            out.push(
                Candidate {
                    purpose: Purpose::IPv6Global,
                    address: *a,
                    hostname: config.hostname.clone(),
                },
            );
            assert(candidates_view(out@) =~= candidates_view(before) + global_part(
                config@,
                found@,
            ));
        },
        Err(_) => {
            assert(candidates_view(out@) =~= candidates_view(out@) + global_part(config@, found@));
        },
    }
    out
}

/// A way that fails takes nothing from the others: where looking at the interface
/// failed and the echo service over IPv6 answered, the answer is a candidate, and
/// where no name for the public address is configured it is the only one.
pub proof fn law_partial_discovery(config: ConfigView, found: FindingsView, a: Address)
    requires
        found.local is None,
        found.global == Some(a),
    ensures
        spec_discover(config, found) == public_part(config, found) + seq![
            CandidateView { purpose: Purpose::IPv6Global, address: a, hostname: config.hostname },
        ],
        config.public is None ==> spec_discover(config, found) == seq![
            CandidateView { purpose: Purpose::IPv6Global, address: a, hostname: config.hostname },
        ],
{
    assert(spec_discover(config, found) =~= public_part(config, found) + global_part(
        config,
        found,
    ));
    if config.public is None {
        assert(spec_discover(config, found) =~= global_part(config, found));
    }
}

/// What each way finds is a candidate whatever the others do: the candidates are
/// those of the interface, of the echo service over IPv4 and of the echo service
/// over IPv6, one after the other, and each of the three depends on its own way alone.
pub proof fn law_ways_are_independent(config: ConfigView, one: FindingsView, other: FindingsView)
    ensures
        one.local == other.local ==> local_part(config, one) == local_part(config, other),
        one.public == other.public ==> public_part(config, one) == public_part(config, other),
        one.global == other.global ==> global_part(config, one) == global_part(config, other),
{
}

} // verus!
