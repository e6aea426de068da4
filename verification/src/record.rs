//! The provider's records as the engine sees them, and the requests it makes of the provider.

use vstd::prelude::*;
use crate::address::{Address, Family, Ipv4, Ipv6};

verus! {

/// What a record holds. The engine manages address records only; every other
/// type of record is `Other` to it.
#[derive(Clone, Copy, Debug, PartialEq, Eq, Structural)]
pub enum RecordContent {
    A(Ipv4),
    Aaaa(Ipv6),
    Other,
}

impl RecordContent {
    /// The address that the record publishes, if it is an address record.
    pub open spec fn spec_address(&self) -> Option<Address> {
        match *self {
            RecordContent::A(a) => Some(Address::V4(a)),
            RecordContent::Aaaa(a) => Some(Address::V6(a)),
            RecordContent::Other => None,
        }
    }

    /// The family of the address that the record publishes, if it is an address record.
    pub open spec fn spec_family(&self) -> Option<Family> {
        match *self {
            RecordContent::A(_) => Some(Family::V4),
            RecordContent::Aaaa(_) => Some(Family::V6),
            RecordContent::Other => None,
        }
    }

    /// The address that the record publishes, if it is an address record.
    #[verifier::when_used_as_spec(spec_address)]
    pub fn address(&self) -> (r: Option<Address>)
        ensures
            r == self.spec_address(),
    {
        match self {
            RecordContent::A(a) => Some(Address::V4(*a)),
            RecordContent::Aaaa(a) => Some(Address::V6(*a)),
            RecordContent::Other => None,
        }
    }

    /// The family of the address that the record publishes, if it is an address record.
    #[verifier::when_used_as_spec(spec_family)]
    pub fn family(&self) -> (r: Option<Family>)
        ensures
            r == self.spec_family(),
    {
        match self {
            RecordContent::A(_) => Some(Family::V4),
            RecordContent::Aaaa(_) => Some(Family::V6),
            RecordContent::Other => None,
        }
    }

    /// The content of the record that publishes `address`.
    pub open spec fn spec_of(address: Address) -> RecordContent {
        match address {
            Address::V4(a) => RecordContent::A(a),
            Address::V6(a) => RecordContent::Aaaa(a),
        }
    }

    /// The content of the record that publishes `address`.
    #[verifier::when_used_as_spec(spec_of)]
    pub fn of(address: Address) -> (r: RecordContent)
        ensures
            r == Self::spec_of(address),
    {
        match address {
            Address::V4(a) => RecordContent::A(a),
            Address::V6(a) => RecordContent::Aaaa(a),
        }
    }
}

/// A record of the zone, as the provider lists it.
#[derive(Clone, Debug, PartialEq, Eq)]
pub struct ZoneRecord {
    pub id: String,
    pub name: String,
    pub content: RecordContent,
    pub proxied: bool,
    pub ttl: u32,
}

/// The value of a [`ZoneRecord`].
pub struct ZoneRecordView {
    pub id: Seq<char>,
    pub name: Seq<char>,
    pub content: RecordContent,
    pub proxied: bool,
    pub ttl: u32,
}

impl View for ZoneRecord {
    type V = ZoneRecordView;

    open spec fn view(&self) -> ZoneRecordView {
        ZoneRecordView {
            id: self.id@,
            name: self.name@,
            content: self.content,
            proxied: self.proxied,
            ttl: self.ttl,
        }
    }
}

/// The values of a list of records, in the order of the list.
pub open spec fn records_view(records: Seq<ZoneRecord>) -> Seq<ZoneRecordView> {
    records.map_values(|r: ZoneRecord| r@)
}

/// The address that a record publishes. Only an address record has one.
pub fn ip_from_record(record: &ZoneRecord) -> (r: Address)
    requires
        record.content.spec_address() is Some,
    ensures
        Some(r) == record.content.spec_address(),
{
    match record.content {
        RecordContent::A(a) => Address::V4(a),
        RecordContent::Aaaa(a) => Address::V6(a),
        RecordContent::Other => vstd::pervasive::unreached(),
    }
}

/// Asks for the records of a zone that bear a name and are of a type.
#[derive(Clone, Debug, PartialEq, Eq)]
pub struct ListRequest {
    pub zone_id: String,
    pub name: String,
    pub record_type: Family,
}

/// Asks for a new record. Without a `ttl` the provider sets its default.
#[derive(Clone, Debug, PartialEq, Eq)]
pub struct CreateRequest {
    pub zone_id: String,
    pub name: String,
    pub content: Address,
    pub proxied: bool,
    pub ttl: Option<u32>,
}

/// Asks for the record `record_id` to be overwritten with the values given.
#[derive(Clone, Debug, PartialEq, Eq)]
pub struct UpdateRequest {
    pub zone_id: String,
    pub record_id: String,
    pub name: String,
    pub content: Address,
    pub proxied: bool,
    pub ttl: u32,
}

/// The value of a [`ListRequest`].
pub struct ListRequestView {
    pub zone_id: Seq<char>,
    pub name: Seq<char>,
    pub record_type: Family,
}

/// The value of a [`CreateRequest`].
pub struct CreateRequestView {
    pub zone_id: Seq<char>,
    pub name: Seq<char>,
    pub content: Address,
    pub proxied: bool,
    pub ttl: Option<u32>,
}

/// The value of an [`UpdateRequest`].
pub struct UpdateRequestView {
    pub zone_id: Seq<char>,
    pub record_id: Seq<char>,
    pub name: Seq<char>,
    pub content: Address,
    pub proxied: bool,
    pub ttl: u32,
}

impl View for ListRequest {
    type V = ListRequestView;

    open spec fn view(&self) -> ListRequestView {
        ListRequestView { zone_id: self.zone_id@, name: self.name@, record_type: self.record_type }
    }
}

impl View for CreateRequest {
    type V = CreateRequestView;

    open spec fn view(&self) -> CreateRequestView {
        CreateRequestView {
            zone_id: self.zone_id@,
            name: self.name@,
            content: self.content,
            proxied: self.proxied,
            ttl: self.ttl,
        }
    }
}

impl View for UpdateRequest {
    type V = UpdateRequestView;

    open spec fn view(&self) -> UpdateRequestView {
        UpdateRequestView {
            zone_id: self.zone_id@,
            record_id: self.record_id@,
            name: self.name@,
            content: self.content,
            proxied: self.proxied,
            ttl: self.ttl,
        }
    }
}

} // verus!
