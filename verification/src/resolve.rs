//! The remote address resolver: the host's public address, as an echo service
//! on the internet sees it.
//!
//! The caller fetches the page; this module reads the answer, a JSON object
//! whose member `ip` holds the address as text.

use vstd::prelude::*;
use crate::address::Address;
use crate::literal::{address_of, parse_address};

verus! {

/// `serde_json::Value`, a JSON value. Nothing of its inside is known here.
#[verifier::external_type_specification]
#[verifier::external_body]
pub struct ExJsonValue(serde_json::Value);

/// `serde_json::Error`, the reason for which a text was not read as JSON.
/// Nothing of its inside is known here.
#[verifier::external_type_specification]
#[verifier::external_body]
pub struct ExJsonError(serde_json::Error);

/// The members of a JSON value that are strings, by their names. A value that is
/// no object has none.
pub uninterp spec fn json_text_members(value: serde_json::Value) -> Map<Seq<char>, Seq<char>>;

/// The string members of the JSON value that a text is read as, or nothing where
/// the text is not read as JSON.
pub uninterp spec fn json_document(body: Seq<char>) -> Option<Map<Seq<char>, Seq<char>>>;

/// Reads a text as JSON with `serde_json::from_str`. The contract names the
/// outcome: it is the same for the same text, and either an error or a value
/// whose string members are those of the document.
#[verifier::external_body]
fn json_parse(body: &str) -> (r: Result<serde_json::Value, serde_json::Error>)
    ensures
        match r {
            Ok(value) => json_document(body@) == Some(json_text_members(value)),
            Err(_) => json_document(body@) is None,
        },
{
    serde_json::from_str::<serde_json::Value>(body)
}

/// Looks a member up with `serde_json::Value::get` and hands out its text where
/// it is a string: there is a result exactly for the names of the string members,
/// and it is that member's text.
#[verifier::external_body]
fn json_text_member(value: &serde_json::Value, name: &str) -> (r: Option<String>)
    ensures
        match r {
            Some(text) => json_text_members(*value).contains_key(name@) && json_text_members(
                *value,
            )[name@] == text@,
            None => !json_text_members(*value).contains_key(name@),
        },
{
    match value.get(name) {
        Some(serde_json::Value::String(text)) => Some(text.clone()),
        _ => None,
    }
}

/// What is wrong with an answer of the echo service.
#[derive(Clone, Copy, Debug, PartialEq, Eq, Structural)]
pub enum ParseFault {
    /// The answer is not JSON.
    NotJson,
    /// The answer has no member `ip` that is a string.
    NoAddressField,
    /// The member `ip` is no IPv4 or IPv6 address.
    NotAnAddress,
}

/// Why the public address could not be had.
#[derive(Clone, Debug, PartialEq, Eq)]
pub enum ResolveError {
    /// The page could not be fetched; the text says why.
    Network(String),
    /// The page was fetched and could not be read.
    Parse(ParseFault),
}

/// The value of a [`ResolveError`].
pub enum ResolveErrorView {
    Network(Seq<char>),
    Parse(ParseFault),
}

impl View for ResolveError {
    type V = ResolveErrorView;

    open spec fn view(&self) -> ResolveErrorView {
        match *self {
            ResolveError::Network(message) => ResolveErrorView::Network(message@),
            ResolveError::Parse(fault) => ResolveErrorView::Parse(fault),
        }
    }
}

/// The value of an address or the error in its place.
pub open spec fn resolved_view(r: Result<Address, ResolveError>) -> Result<
    Address,
    ResolveErrorView,
> {
    match r {
        Ok(a) => Ok(a),
        Err(e) => Err(e@),
    }
}

/// The name of the member that holds the address.
pub open spec fn address_field() -> Seq<char> {
    "ip"@
}

/// The address that the member `ip` gives, where `field` is its text if the
/// answer has such a member.
pub open spec fn spec_address_from_field(field: Option<Seq<char>>) -> Result<
    Address,
    ResolveErrorView,
> {
    match field {
        None => Err(ResolveErrorView::Parse(ParseFault::NoAddressField)),
        Some(text) => match address_of(text) {
            Some(a) => Ok(a),
            None => Err(ResolveErrorView::Parse(ParseFault::NotAnAddress)),
        },
    }
}

/// The address that an answer gives, where `document` holds the string members
/// of the answer read as JSON.
pub open spec fn spec_address_from_document(document: Option<Map<Seq<char>, Seq<char>>>) -> Result<
    Address,
    ResolveErrorView,
> {
    match document {
        None => Err(ResolveErrorView::Parse(ParseFault::NotJson)),
        Some(members) => spec_address_from_field(
            if members.contains_key(address_field()) {
                Some(members[address_field()])
            } else {
                None
            },
        ),
    }
}

/// The address that the caller's attempt to fetch the page gives: `Ok` holds the
/// body of the answer, `Err` says why there is none.
pub open spec fn spec_remote_address(fetched: Result<Seq<char>, Seq<char>>) -> Result<
    Address,
    ResolveErrorView,
> {
    match fetched {
        Err(message) => Err(ResolveErrorView::Network(message)),
        Ok(body) => spec_address_from_document(json_document(body)),
    }
}

/// The text of what was fetched, or of why nothing was.
pub open spec fn fetched_view(fetched: Result<String, String>) -> Result<Seq<char>, Seq<char>> {
    match fetched {
        Ok(body) => Ok(body@),
        Err(message) => Err(message@),
    }
}

/// Reads the address out of the member `ip` of an answer, given the member's
/// text where the answer has one.
pub fn address_from_field(field: Option<&str>) -> (r: Result<Address, ResolveError>)
    ensures
        resolved_view(r) == spec_address_from_field(
            match field {
                Some(text) => Some(text@),
                None => None,
            },
        ),
{
    match field {
        None => Err(ResolveError::Parse(ParseFault::NoAddressField)),
        Some(text) => match parse_address(text) {
            Some(a) => Ok(a),
            None => Err(ResolveError::Parse(ParseFault::NotAnAddress)),
        },
    }
}

/// Reads the address out of the body of an answer.
pub fn address_from_body(body: &str) -> (r: Result<Address, ResolveError>)
    ensures
        resolved_view(r) == spec_address_from_document(json_document(body@)),
{
    match json_parse(body) {
        Err(_) => Err(ResolveError::Parse(ParseFault::NotJson)),
        Ok(value) => match json_text_member(&value, "ip") {
            None => address_from_field(None),
            Some(text) => address_from_field(Some(text.as_str())),
        },
    }
}

/// The host's public address, from what the caller's attempt to fetch the echo
/// service's page brought: the body of the answer, or why there is none.
///
/// A failed fetch is a `Network` error. A body that is not JSON, has no string
/// member `ip`, or whose `ip` is no address, is a `Parse` error.
pub fn fetch_remote_address(fetched: Result<String, String>) -> (r: Result<Address, ResolveError>)
    ensures
        resolved_view(r) == spec_remote_address(fetched_view(fetched)),
{
    match fetched {
        Err(message) => Err(ResolveError::Network(message)),
        Ok(body) => address_from_body(body.as_str()),
    }
}

} // verus!
