use zoned::address::{Address, Ipv4};
use zoned::config::{parse_prefixes, Config, ConfigError, Settings};
use zoned::address::{Ipv6, Ipv6Prefix};
use zoned::gate::{
    evaluate, home_gate, ssid, ssid_gate, GateReason, GateResult, GateStrategy, Observation,
};

fn bare_config() -> Config {
    Config {
        token: "token".to_string(),
        zoneid: "zone".to_string(),
        hostname: "host.example.org".to_string(),
        public: None,
        ssid: None,
        home: None,
        prefixes: None,
    }
}

fn addr(d: u8) -> Address {
    Address::V4(Ipv4::new(198, 51, 100, d))
}

#[test]
fn ssid_reads_the_name_after_the_colon() {
    assert_eq!(ssid(true, "Current Wi-Fi Network: HomeNet\n"), Some("HomeNet".to_string()));
    assert_eq!(ssid(true, "Current Wi-Fi Network:   My Net  \r\n"), Some("My Net".to_string()));
    assert_eq!(ssid(true, "Current Wi-Fi Network: Café ☕\n"), Some("Café ☕".to_string()));
}

#[test]
fn ssid_stops_at_the_next_colon_and_space() {
    assert_eq!(ssid(true, "a: b: c"), Some("b".to_string()));
    assert_eq!(ssid(true, "a: b:c: d"), Some("b:c".to_string()));
    assert_eq!(ssid(true, ": : x"), Some("".to_string()));
    assert_eq!(ssid(true, "k: v :w"), Some("v :w".to_string()));
}

#[test]
fn ssid_of_an_empty_field_is_empty() {
    assert_eq!(ssid(true, "Current Wi-Fi Network: "), Some("".to_string()));
    assert_eq!(ssid(true, "x: \n"), Some("".to_string()));
}

#[test]
fn ssid_is_absent_without_a_field() {
    assert_eq!(ssid(true, "You are not associated with an AirPort network.\n"), None);
    assert_eq!(ssid(true, ""), None);
    assert_eq!(ssid(true, "name:value"), None);
    assert_eq!(ssid(true, "trailing:"), None);
}

#[test]
fn ssid_is_absent_when_the_utility_failed() {
    assert_eq!(ssid(false, "Current Wi-Fi Network: HomeNet\n"), None);
}

#[test]
fn ssid_gate_passes_on_the_expected_network_only() {
    let expected = "HomeNet".to_string();
    assert_eq!(
        ssid_gate(&expected, &Some("HomeNet".to_string())),
        GateResult { pass: true, reason: GateReason::SsidMatches }
    );
    assert_eq!(
        ssid_gate(&expected, &Some("homenet".to_string())),
        GateResult { pass: false, reason: GateReason::SsidDiffers }
    );
    assert_eq!(
        ssid_gate(&expected, &Some("".to_string())),
        GateResult { pass: false, reason: GateReason::SsidDiffers }
    );
    assert_eq!(
        ssid_gate(&expected, &None),
        GateResult { pass: false, reason: GateReason::SsidUndetected }
    );
}

#[test]
fn home_gate_passes_where_both_addresses_are_the_same() {
    assert_eq!(
        home_gate(Some(addr(1)), Some(addr(1))),
        GateResult { pass: true, reason: GateReason::HomeMatches }
    );
    assert_eq!(
        home_gate(Some(addr(1)), Some(addr(2))),
        GateResult { pass: false, reason: GateReason::HomeDiffers }
    );
}

#[test]
fn home_gate_fails_where_a_side_is_unknown() {
    let unresolved = GateResult { pass: false, reason: GateReason::HomeUnresolved };
    assert_eq!(home_gate(None, Some(addr(1))), unresolved);
    assert_eq!(home_gate(Some(addr(1)), None), unresolved);
    assert_eq!(home_gate(None, None), unresolved);
}

#[test]
fn open_gate_always_passes() {
    let pass = GateResult { pass: true, reason: GateReason::NoGate };
    assert_eq!(evaluate(&GateStrategy::Open, &Observation::Nothing), pass);
    assert_eq!(evaluate(&GateStrategy::Open, &Observation::Ssid(None)), pass);
    assert_eq!(
        evaluate(&GateStrategy::Open, &Observation::Home { reference: None, public: None }),
        pass
    );
}

#[test]
fn evaluate_applies_the_configured_gate() {
    let wifi = GateStrategy::Ssid("HomeNet".to_string());
    assert!(evaluate(&wifi, &Observation::Ssid(Some("HomeNet".to_string()))).pass);
    assert_eq!(
        evaluate(&wifi, &Observation::Ssid(Some("Other".to_string()))).reason,
        GateReason::SsidDiffers
    );
    let home = GateStrategy::Home("home.example.org".to_string());
    assert!(evaluate(&home, &Observation::Home { reference: Some(addr(9)), public: Some(addr(9)) }).pass);
    assert_eq!(
        evaluate(&home, &Observation::Home { reference: Some(addr(9)), public: Some(addr(8)) }),
        GateResult { pass: false, reason: GateReason::HomeDiffers }
    );
}

#[test]
fn evaluate_treats_a_foreign_observation_as_nothing_found() {
    let wifi = GateStrategy::Ssid("HomeNet".to_string());
    assert_eq!(
        evaluate(&wifi, &Observation::Nothing),
        GateResult { pass: false, reason: GateReason::SsidUndetected }
    );
    assert_eq!(
        evaluate(&wifi, &Observation::Home { reference: Some(addr(1)), public: Some(addr(1)) }),
        GateResult { pass: false, reason: GateReason::SsidUndetected }
    );
    let home = GateStrategy::Home("home.example.org".to_string());
    assert_eq!(
        evaluate(&home, &Observation::Ssid(Some("home.example.org".to_string()))),
        GateResult { pass: false, reason: GateReason::HomeUnresolved }
    );
}

#[test]
fn config_without_gates_is_open() {
    assert_eq!(bare_config().gate(), Ok(GateStrategy::Open));
}

#[test]
fn config_with_one_gate_selects_it() {
    let mut c = bare_config();
    c.ssid = Some("HomeNet".to_string());
    assert_eq!(c.gate(), Ok(GateStrategy::Ssid("HomeNet".to_string())));
    let mut c = bare_config();
    c.home = Some("home.example.org".to_string());
    assert_eq!(c.gate(), Ok(GateStrategy::Home("home.example.org".to_string())));
}

#[test]
fn config_with_both_gates_is_refused() {
    let mut c = bare_config();
    c.ssid = Some("HomeNet".to_string());
    c.home = Some("home.example.org".to_string());
    assert_eq!(c.gate(), Err(ConfigError::ConflictingGates));
    assert_eq!(c.settings(), Err(ConfigError::ConflictingGates));
}

#[test]
fn settings_read_the_prefixes() {
    let mut c = bare_config();
    c.prefixes = Some(vec!["2001:db8::/32".to_string(), "2a00::/16".to_string()]);
    assert_eq!(
        c.settings(),
        Ok(Settings {
            gate: GateStrategy::Open,
            allowed: Some(vec![
                Ipv6Prefix { network: Ipv6 { bits: 0x2001_0db8 << 96 }, length: 32 },
                Ipv6Prefix { network: Ipv6 { bits: 0x2a00 << 112 }, length: 16 },
            ]),
        })
    );
    assert_eq!(bare_config().settings(), Ok(Settings { gate: GateStrategy::Open, allowed: None }));
    let mut c = bare_config();
    c.prefixes = Some(vec![]);
    assert_eq!(c.settings(), Ok(Settings { gate: GateStrategy::Open, allowed: Some(vec![]) }));
}

#[test]
fn settings_name_the_first_unreadable_prefix() {
    let mut c = bare_config();
    c.prefixes = Some(vec![
        "2001:db8::/32".to_string(),
        "2001:db8::/200".to_string(),
        "nonsense".to_string(),
    ]);
    assert_eq!(c.settings(), Err(ConfigError::InvalidPrefix(1)));
    assert_eq!(parse_prefixes(&vec!["x".to_string()]), Err(ConfigError::InvalidPrefix(0)));
    assert_eq!(parse_prefixes(&vec![]), Ok(vec![]));
}

#[test]
fn conflicting_gates_go_before_an_unreadable_prefix() {
    let mut c = bare_config();
    c.ssid = Some("a".to_string());
    c.home = Some("b".to_string());
    c.prefixes = Some(vec!["nonsense".to_string()]);
    assert_eq!(c.settings(), Err(ConfigError::ConflictingGates));
}
