use zoned::address::{Address, Family, Ipv4, Ipv6, Ipv6Prefix};
use zoned::config::{Config, ConfigError};
use zoned::discover::{discover, gather, wants_public, Candidate, Findings, Purpose};
use zoned::gate::{GateReason, GateStrategy, Observation};
use zoned::inspect::{DiscoveryError, Interface};
use zoned::record::{ListRequest, RecordContent, ZoneRecord};
use zoned::resolve::{ParseFault, ResolveError};
use zoned::run::{ending, task_of, Ending, ExitStatus, Phase, Run, RunAction, RunEvent, SyncResult};
use zoned::sync::{Operation, Outcome, ProviderError, SyncEvent, SyncState, SyncTask};

fn config() -> Config {
    Config {
        token: "token".to_string(),
        zoneid: "zone-1".to_string(),
        hostname: "host.example.org".to_string(),
        public: None,
        ssid: None,
        home: None,
        prefixes: None,
    }
}

fn local() -> Address {
    Address::V4(Ipv4::new(192, 168, 1, 10))
}

fn public() -> Address {
    Address::V4(Ipv4::new(203, 0, 113, 7))
}

fn global() -> Address {
    Address::V6(Ipv6 { bits: (0x2a00_1234 << 96) + 1 })
}

fn candidate(purpose: Purpose, address: Address, hostname: &str) -> Candidate {
    Candidate { purpose, address, hostname: hostname.to_string() }
}

fn listing(name: &str, family: Family) -> RunAction {
    RunAction::List(ListRequest {
        zone_id: "zone-1".to_string(),
        name: name.to_string(),
        record_type: family,
    })
}

fn holds(address: Address) -> Vec<ZoneRecord> {
    vec![ZoneRecord {
        id: "r1".to_string(),
        name: "host.example.org".to_string(),
        content: RecordContent::of(address),
        proxied: false,
        ttl: 1,
    }]
}

fn unreachable_interface() -> Findings {
    Findings {
        local: Err(DiscoveryError::NoDefaultInterface),
        public: None,
        global: Ok(global()),
    }
}

#[test]
fn discover_orders_local_public_global() {
    let mut c = config();
    c.public = Some("public.example.org".to_string());
    let found = Findings { local: Ok(vec![local()]), public: Some(Ok(public())), global: Ok(global()) };
    assert_eq!(
        discover(&c, &found),
        vec![
            candidate(Purpose::Local, local(), "host.example.org"),
            candidate(Purpose::Public, public(), "public.example.org"),
            candidate(Purpose::IPv6Global, global(), "host.example.org"),
        ]
    );
}

#[test]
fn discover_with_a_failed_interface_keeps_the_remote_address() {
    assert_eq!(
        discover(&config(), &unreachable_interface()),
        vec![candidate(Purpose::IPv6Global, global(), "host.example.org")]
    );
}

#[test]
fn discover_without_a_public_name_leaves_the_public_address_out() {
    let found = Findings { local: Ok(vec![local()]), public: Some(Ok(public())), global: Ok(global()) };
    assert_eq!(
        discover(&config(), &found),
        vec![
            candidate(Purpose::Local, local(), "host.example.org"),
            candidate(Purpose::IPv6Global, global(), "host.example.org"),
        ]
    );
}

#[test]
fn discover_passes_over_every_way_that_failed() {
    let mut c = config();
    c.public = Some("public.example.org".to_string());
    let found = Findings {
        local: Ok(vec![]),
        public: Some(Err(ResolveError::Network("down".to_string()))),
        global: Err(ResolveError::Parse(ParseFault::NotJson)),
    };
    assert!(discover(&c, &found).is_empty());
    let found = Findings { local: Ok(vec![local()]), public: None, global: Err(ResolveError::Network("x".to_string())) };
    assert_eq!(discover(&c, &found), vec![candidate(Purpose::Local, local(), "host.example.org")]);
}

#[test]
fn discover_takes_each_address_of_the_interface() {
    let second = Address::V4(Ipv4::new(10, 0, 0, 2));
    let found = Findings {
        local: Ok(vec![local(), global(), second]),
        public: None,
        global: Err(ResolveError::Network("x".to_string())),
    };
    assert_eq!(
        discover(&config(), &found),
        vec![
            candidate(Purpose::Local, local(), "host.example.org"),
            candidate(Purpose::IPv6Global, global(), "host.example.org"),
            candidate(Purpose::Local, second, "host.example.org"),
        ]
    );
}

#[test]
fn wants_public_follows_the_configuration() {
    assert!(!wants_public(&config()));
    let mut c = config();
    c.public = Some("public.example.org".to_string());
    assert!(wants_public(&c));
}

#[test]
fn a_run_without_a_gate_starts_with_the_discovery() {
    let mut c = config();
    c.public = Some("public.example.org".to_string());
    c.prefixes = Some(vec!["2a00:1234::/32".to_string()]);
    let (run, action) = Run::step(&c, Run::new(), RunEvent::Begin);
    assert_eq!(run.phase, Phase::Discovering);
    assert_eq!(
        action,
        RunAction::Discover {
            public: true,
            allowed: Some(vec![Ipv6Prefix { network: Ipv6 { bits: 0x2a00_1234 << 96 }, length: 32 }]),
        }
    );
}

#[test]
fn wrong_ssid_vetoes_the_run_before_any_work() {
    let mut c = config();
    c.ssid = Some("HomeNet".to_string());
    let (run, action) = Run::step(&c, Run::new(), RunEvent::Begin);
    assert_eq!(run.phase, Phase::Gating);
    assert_eq!(action, RunAction::Observe(GateStrategy::Ssid("HomeNet".to_string())));
    let (run, action) =
        Run::step(&c, run, RunEvent::Observed(Observation::Ssid(Some("CoffeeShop".to_string()))));
    assert_eq!(run.phase, Phase::Ended);
    assert_eq!(action, RunAction::Exit(Ending::Vetoed(GateReason::SsidDiffers)));
    assert!(run.candidates.is_empty() && run.results.is_empty());
    match action {
        RunAction::Exit(end) => {
            assert_eq!(end.status(), ExitStatus::Vetoed);
            assert_eq!(end.status().code(), 1);
        }
        _ => unreachable!(),
    }
}

#[test]
fn undetectable_ssid_vetoes_the_run() {
    let mut c = config();
    c.ssid = Some("HomeNet".to_string());
    let (run, _) = Run::step(&c, Run::new(), RunEvent::Begin);
    let (run, action) = Run::step(&c, run, RunEvent::Observed(Observation::Ssid(None)));
    assert_eq!(run.phase, Phase::Ended);
    assert_eq!(action, RunAction::Exit(Ending::Vetoed(GateReason::SsidUndetected)));
}

#[test]
fn a_vetoed_run_asks_for_nothing_afterwards() {
    let mut c = config();
    c.ssid = Some("HomeNet".to_string());
    let (run, _) = Run::step(&c, Run::new(), RunEvent::Begin);
    let (run, _) = Run::step(&c, run, RunEvent::Observed(Observation::Ssid(None)));
    let (run, action) = Run::step(&c, run, RunEvent::Discovered(unreachable_interface()));
    assert_eq!((run.phase, action), (Phase::Ended, RunAction::Exit(Ending::OutOfTurn)));
    let (run, action) = Run::step(&c, run, RunEvent::Provider(SyncEvent::Listed(vec![])));
    assert_eq!((run.phase, action), (Phase::Ended, RunAction::Exit(Ending::OutOfTurn)));
}

#[test]
fn matching_ssid_lets_the_run_discover() {
    let mut c = config();
    c.ssid = Some("HomeNet".to_string());
    let (run, _) = Run::step(&c, Run::new(), RunEvent::Begin);
    let (run, action) =
        Run::step(&c, run, RunEvent::Observed(Observation::Ssid(Some("HomeNet".to_string()))));
    assert_eq!(run.phase, Phase::Discovering);
    assert_eq!(action, RunAction::Discover { public: false, allowed: None });
}

#[test]
fn home_gate_vetoes_away_from_home() {
    let mut c = config();
    c.home = Some("home.example.org".to_string());
    let (run, action) = Run::step(&c, Run::new(), RunEvent::Begin);
    assert_eq!(action, RunAction::Observe(GateStrategy::Home("home.example.org".to_string())));
    let seen = Observation::Home { reference: Some(public()), public: Some(local()) };
    let (run, action) = Run::step(&c, run, RunEvent::Observed(seen));
    assert_eq!(run.phase, Phase::Ended);
    assert_eq!(action, RunAction::Exit(Ending::Vetoed(GateReason::HomeDiffers)));
    let (run, _) = Run::step(&c, Run::new(), RunEvent::Begin);
    let seen = Observation::Home { reference: None, public: Some(public()) };
    let (_, action) = Run::step(&c, run, RunEvent::Observed(seen));
    assert_eq!(action, RunAction::Exit(Ending::Vetoed(GateReason::HomeUnresolved)));
    let (run, _) = Run::step(&c, Run::new(), RunEvent::Begin);
    let seen = Observation::Home { reference: Some(public()), public: Some(public()) };
    let (run, action) = Run::step(&c, run, RunEvent::Observed(seen));
    assert_eq!(run.phase, Phase::Discovering);
    assert_eq!(action, RunAction::Discover { public: false, allowed: None });
}

#[test]
fn partial_discovery_is_reconciled_as_ever() {
    let c = config();
    let (run, _) = Run::step(&c, Run::new(), RunEvent::Begin);
    let (run, action) = Run::step(&c, run, RunEvent::Discovered(unreachable_interface()));
    assert_eq!(run.phase, Phase::Syncing);
    assert_eq!(run.candidates, vec![candidate(Purpose::IPv6Global, global(), "host.example.org")]);
    assert_eq!(action, listing("host.example.org", Family::V6));
    let (run, action) = Run::step(&c, run, RunEvent::Provider(SyncEvent::Listed(vec![])));
    assert_eq!(run.sync, SyncState::Creating);
    assert!(matches!(action, RunAction::Create(_)));
    let (run, action) = Run::step(&c, run, RunEvent::Provider(SyncEvent::Applied));
    assert_eq!(run.phase, Phase::Ended);
    assert_eq!(run.results, vec![SyncResult::Settled(Outcome::Created)]);
    assert_eq!(action, RunAction::Exit(Ending::Completed));
}

#[test]
fn a_run_without_candidates_completes() {
    let c = config();
    let (run, _) = Run::step(&c, Run::new(), RunEvent::Begin);
    let found = Findings {
        local: Err(DiscoveryError::NoDefaultInterface),
        public: None,
        global: Err(ResolveError::Network("down".to_string())),
    };
    let (run, action) = Run::step(&c, run, RunEvent::Discovered(found));
    assert_eq!(run.phase, Phase::Ended);
    assert_eq!(action, RunAction::Exit(Ending::Completed));
    assert_eq!(Ending::Completed.status().code(), 0);
}

#[test]
fn a_failure_does_not_stop_the_later_candidates() {
    let mut c = config();
    c.public = Some("public.example.org".to_string());
    let (run, _) = Run::step(&c, Run::new(), RunEvent::Begin);
    let found = Findings { local: Ok(vec![local()]), public: Some(Ok(public())), global: Ok(global()) };
    let (run, action) = Run::step(&c, run, RunEvent::Discovered(found));
    assert_eq!(action, listing("host.example.org", Family::V4));
    let (run, action) =
        Run::step(&c, run, RunEvent::Provider(SyncEvent::Failed("HTTP 500".to_string())));
    assert_eq!((run.phase, run.position), (Phase::Syncing, 1));
    assert_eq!(action, listing("public.example.org", Family::V4));
    let (run, action) = Run::step(&c, run, RunEvent::Provider(SyncEvent::Listed(holds(public()))));
    assert_eq!((run.phase, run.position), (Phase::Syncing, 2));
    assert_eq!(action, listing("host.example.org", Family::V6));
    let (run, action) =
        Run::step(&c, run, RunEvent::Provider(SyncEvent::Failed("HTTP 502".to_string())));
    let first = ProviderError {
        hostname: "host.example.org".to_string(),
        record_type: Family::V4,
        operation: Operation::List,
        message: "HTTP 500".to_string(),
    };
    assert_eq!(run.phase, Phase::Ended);
    assert_eq!(run.results.len(), 3);
    assert_eq!(run.results[1], SyncResult::Settled(Outcome::Unchanged));
    assert_eq!(action, RunAction::Exit(Ending::Failed(first)));
    match action {
        RunAction::Exit(end) => assert_eq!(end.status().code(), 2),
        _ => unreachable!(),
    }
}

#[test]
fn an_unusable_configuration_ends_the_run_at_once() {
    let mut c = config();
    c.ssid = Some("a".to_string());
    c.home = Some("b".to_string());
    let (run, action) = Run::step(&c, Run::new(), RunEvent::Begin);
    assert_eq!(run.phase, Phase::Ended);
    assert_eq!(action, RunAction::Exit(Ending::Misconfigured(ConfigError::ConflictingGates)));
    assert_eq!(Ending::Misconfigured(ConfigError::ConflictingGates).status(), ExitStatus::Failed);
    let mut c = config();
    c.prefixes = Some(vec!["bad".to_string()]);
    let (_, action) = Run::step(&c, Run::new(), RunEvent::Begin);
    assert_eq!(action, RunAction::Exit(Ending::Misconfigured(ConfigError::InvalidPrefix(0))));
}

#[test]
fn a_report_out_of_turn_ends_the_run() {
    let c = config();
    let (run, action) = Run::step(&c, Run::new(), RunEvent::Observed(Observation::Nothing));
    assert_eq!((run.phase, action), (Phase::Ended, RunAction::Exit(Ending::OutOfTurn)));
    let (run, _) = Run::step(&c, Run::new(), RunEvent::Begin);
    let (run, action) = Run::step(&c, run, RunEvent::Begin);
    assert_eq!((run.phase, action), (Phase::Ended, RunAction::Exit(Ending::OutOfTurn)));
    let stray = Run {
        phase: Phase::Syncing,
        candidates: vec![],
        position: 0,
        sync: SyncState::Listing,
        results: vec![],
    };
    let (run, action) = Run::step(&c, stray, RunEvent::Provider(SyncEvent::Applied));
    assert_eq!((run.phase, action), (Phase::Ended, RunAction::Exit(Ending::OutOfTurn)));
    assert_eq!(Ending::OutOfTurn.status().code(), 2);
}

#[test]
fn exit_codes_tell_the_endings_apart() {
    assert_eq!(ExitStatus::Completed.code(), 0);
    assert_eq!(ExitStatus::Vetoed.code(), 1);
    assert_eq!(ExitStatus::Failed.code(), 2);
}

#[test]
fn ending_reports_the_first_failure() {
    let error = |message: &str| ProviderError {
        hostname: "h".to_string(),
        record_type: Family::V4,
        operation: Operation::Create,
        message: message.to_string(),
    };
    assert_eq!(ending(&vec![]), Ending::Completed);
    assert_eq!(
        ending(&vec![SyncResult::Settled(Outcome::Updated), SyncResult::Settled(Outcome::Unchanged)]),
        Ending::Completed
    );
    assert_eq!(
        ending(&vec![
            SyncResult::Settled(Outcome::Created),
            SyncResult::Failed(error("first")),
            SyncResult::Failed(error("second")),
        ]),
        Ending::Failed(error("first"))
    );
}

#[test]
fn task_of_pairs_the_zone_with_the_candidate() {
    assert_eq!(
        task_of(&config(), &candidate(Purpose::Public, public(), "public.example.org")),
        SyncTask {
            zone_id: "zone-1".to_string(),
            hostname: "public.example.org".to_string(),
            address: public(),
        }
    );
}

#[test]
fn gather_reads_each_way_by_itself() {
    let interface = Interface { name: "en0".to_string(), ipv4: vec![Ipv4::new(192, 168, 1, 10)] };
    let report = "\tinet6 fe80::1%en0 prefixlen 64 secured scopeid 0x6\n\
                  \tinet6 2001:db8::5 prefixlen 64 autoconf secured\n\
                  \tinet6 2a00:1234::1 prefixlen 64 autoconf secured\n";
    let allowed = Some(vec![Ipv6Prefix { network: Ipv6 { bits: 0x2a00_1234 << 96 }, length: 32 }]);
    let found = gather(
        Some(&interface),
        Some(report),
        &allowed,
        Some(Ok("{\"ip\":\"203.0.113.7\"}".to_string())),
        Err("no route to host".to_string()),
    );
    assert_eq!(
        found,
        Findings {
            local: Ok(vec![local(), global()]),
            public: Some(Ok(public())),
            global: Err(ResolveError::Network("no route to host".to_string())),
        }
    );
}

#[test]
fn gather_without_an_interface_still_reads_the_answers() {
    let found = gather(None, None, &None, None, Ok("{\"ip\":\"2a00:1234::1\"}".to_string()));
    assert_eq!(found, unreachable_interface());
    let found = gather(None, None, &None, Some(Ok("{}".to_string())), Ok("?".to_string()));
    assert_eq!(
        found,
        Findings {
            local: Err(DiscoveryError::NoDefaultInterface),
            public: Some(Err(ResolveError::Parse(ParseFault::NoAddressField))),
            global: Err(ResolveError::Parse(ParseFault::NotJson)),
        }
    );
}
