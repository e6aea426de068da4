use zoned::address::{Address, Ipv4, Ipv6};
use zoned::resolve::{
    address_from_body, address_from_field, fetch_remote_address, ParseFault, ResolveError,
};

#[test]
fn reads_the_address_out_of_the_answer() {
    let body = "{\n  \"ip\": \"203.0.113.7\",\n  \"city\": \"Somewhere\",\n  \"loc\": \"1.0,2.0\"\n}";
    assert_eq!(address_from_body(body), Ok(Address::V4(Ipv4::new(203, 0, 113, 7))));
    assert_eq!(
        address_from_body("{\"ip\":\"2001:db8::2\"}"),
        Ok(Address::V6(Ipv6 { bits: (0x2001_0db8 << 96) + 2 }))
    );
}

#[test]
fn the_answer_is_not_handed_back_as_it_came() {
    let body = "{\"ip\":\"198.51.100.4\"}";
    assert_eq!(address_from_body(body), Ok(Address::V4(Ipv4 { bits: 0xC633_6404 })));
    assert_eq!(address_from_body("198.51.100.4"), Err(ResolveError::Parse(ParseFault::NotJson)));
}

#[test]
fn reads_escapes_in_the_member() {
    assert_eq!(
        address_from_body("{\"ip\":\"\\u0031.2.3.4\"}"),
        Ok(Address::V4(Ipv4::new(1, 2, 3, 4)))
    );
}

#[test]
fn the_last_of_repeated_members_counts() {
    assert_eq!(
        address_from_body("{\"ip\":\"1.1.1.1\",\"ip\":\"2.2.2.2\"}"),
        Ok(Address::V4(Ipv4::new(2, 2, 2, 2)))
    );
}

#[test]
fn an_answer_that_is_not_json_is_a_parse_error() {
    for body in ["", "<html></html>", "{\"ip\": \"1.2.3.4\"", "{ip: \"1.2.3.4\"}", "{\"ip\":\"1.2.3.4\"} x"] {
        assert_eq!(
            address_from_body(body),
            Err(ResolveError::Parse(ParseFault::NotJson)),
            "{:?}",
            body
        );
    }
}

#[test]
fn an_answer_without_the_member_is_a_parse_error() {
    for body in [
        "{}", "{\"IP\":\"1.2.3.4\"}", "{\"ip\":5}", "{\"ip\":null}", "{\"ip\":[\"1.2.3.4\"]}",
        "[\"ip\",\"1.2.3.4\"]", "\"1.2.3.4\"", "null", "{\"data\":{\"ip\":\"1.2.3.4\"}}",
    ] {
        assert_eq!(
            address_from_body(body),
            Err(ResolveError::Parse(ParseFault::NoAddressField)),
            "{:?}",
            body
        );
    }
}

#[test]
fn a_member_that_is_no_address_is_a_parse_error() {
    for body in ["{\"ip\":\"\"}", "{\"ip\":\"example.org\"}", "{\"ip\":\"1.2.3.4 \"}", "{\"ip\":\"1.2.3\"}"] {
        assert_eq!(
            address_from_body(body),
            Err(ResolveError::Parse(ParseFault::NotAnAddress)),
            "{:?}",
            body
        );
    }
}

#[test]
fn address_from_field_reads_the_text() {
    assert_eq!(address_from_field(Some("10.1.2.3")), Ok(Address::V4(Ipv4::new(10, 1, 2, 3))));
    assert_eq!(address_from_field(Some("::1")), Ok(Address::V6(Ipv6 { bits: 1 })));
    assert_eq!(address_from_field(Some("x")), Err(ResolveError::Parse(ParseFault::NotAnAddress)));
    assert_eq!(address_from_field(None), Err(ResolveError::Parse(ParseFault::NoAddressField)));
}

#[test]
fn a_failed_fetch_is_a_network_error() {
    assert_eq!(
        fetch_remote_address(Err("connection timed out".to_string())),
        Err(ResolveError::Network("connection timed out".to_string()))
    );
}

#[test]
fn a_fetched_body_is_read() {
    assert_eq!(
        fetch_remote_address(Ok("{\"ip\":\"192.0.2.33\"}".to_string())),
        Ok(Address::V4(Ipv4::new(192, 0, 2, 33)))
    );
    assert_eq!(
        fetch_remote_address(Ok("oops".to_string())),
        Err(ResolveError::Parse(ParseFault::NotJson))
    );
}

#[test]
fn each_call_stands_for_itself() {
    let body = "{\"ip\":\"2001:db8::9\"}".to_string();
    let first = fetch_remote_address(Ok(body.clone()));
    let second = fetch_remote_address(Ok(body));
    assert_eq!(first, second);
    assert_eq!(first, Ok(Address::V6(Ipv6 { bits: (0x2001_0db8 << 96) + 9 })));
}
