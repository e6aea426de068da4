use zoned::address::{Address, Family, Ipv4, Ipv6};
use zoned::record::{
    ip_from_record, CreateRequest, ListRequest, RecordContent, UpdateRequest, ZoneRecord,
};
use zoned::sync::{
    find_first_of_family, list_request, plan, provider_error, reconcile, surplus, Operation,
    Outcome, Plan, ProviderError, SyncAction, SyncEvent, SyncState, SyncTask,
};

fn a(d: u8) -> Address {
    Address::V4(Ipv4::new(192, 0, 2, d))
}

fn aaaa(low: u128) -> Address {
    Address::V6(Ipv6 { bits: (0x2001_0db8 << 96) + low })
}

fn task(address: Address) -> SyncTask {
    SyncTask { zone_id: "zone-1".to_string(), hostname: "host.example.org".to_string(), address }
}

fn record(id: &str, address: Address, proxied: bool, ttl: u32) -> ZoneRecord {
    ZoneRecord {
        id: id.to_string(),
        name: "host.example.org".to_string(),
        content: RecordContent::of(address),
        proxied,
        ttl,
    }
}

fn other(id: &str) -> ZoneRecord {
    ZoneRecord {
        id: id.to_string(),
        name: "host.example.org".to_string(),
        content: RecordContent::Other,
        proxied: false,
        ttl: 1,
    }
}

/// A provider that keeps its records in memory and counts what it is asked.
struct Zone {
    records: Vec<ZoneRecord>,
    lists: usize,
    creates: Vec<CreateRequest>,
    updates: Vec<UpdateRequest>,
}

impl Zone {
    fn holding(records: Vec<ZoneRecord>) -> Zone {
        Zone { records, lists: 0, creates: vec![], updates: vec![] }
    }

    fn list(&mut self, request: &ListRequest) -> Vec<ZoneRecord> {
        self.lists += 1;
        self.records
            .iter()
            .filter(|r| r.name == request.name && r.content.family() == Some(request.record_type))
            .cloned()
            .collect()
    }

    fn create(&mut self, request: &CreateRequest) {
        self.creates.push(request.clone());
        self.records.push(ZoneRecord {
            id: format!("new-{}", self.records.len()),
            name: request.name.clone(),
            content: RecordContent::of(request.content),
            proxied: request.proxied,
            ttl: request.ttl.unwrap_or(1),
        });
    }

    fn update(&mut self, request: &UpdateRequest) {
        self.updates.push(request.clone());
        for r in self.records.iter_mut() {
            if r.id == request.record_id {
                r.name = request.name.clone();
                r.content = RecordContent::of(request.content);
                r.proxied = request.proxied;
                r.ttl = request.ttl;
            }
        }
    }

    fn run(&mut self, task: &SyncTask) -> Result<Outcome, ProviderError> {
        let mut state = SyncState::Ready;
        let mut event = SyncEvent::Begin;
        for _ in 0..8 {
            let (next, action) = reconcile(task, state, event);
            state = next;
            event = match action {
                SyncAction::List(r) => SyncEvent::Listed(self.list(&r)),
                SyncAction::Create(r) => {
                    self.create(&r);
                    SyncEvent::Applied
                }
                SyncAction::Update(r) => {
                    self.update(&r);
                    SyncEvent::Applied
                }
                SyncAction::Done(o) => {
                    assert_eq!(state, SyncState::Finished);
                    return Ok(o);
                }
                SyncAction::Fail(e) => {
                    assert_eq!(state, SyncState::Finished);
                    return Err(e);
                }
            };
        }
        panic!("the reconciliation did not end");
    }
}

#[test]
fn reconciling_twice_is_unchanged_both_times() {
    let mut zone = Zone::holding(vec![record("r1", a(7), false, 120)]);
    assert_eq!(zone.run(&task(a(7))), Ok(Outcome::Unchanged));
    assert_eq!(zone.run(&task(a(7))), Ok(Outcome::Unchanged));
    assert_eq!(zone.lists, 2);
    assert!(zone.creates.is_empty() && zone.updates.is_empty());
    assert_eq!(zone.records, vec![record("r1", a(7), false, 120)]);
}

#[test]
fn create_then_match() {
    let mut zone = Zone::holding(vec![]);
    assert_eq!(zone.run(&task(aaaa(5))), Ok(Outcome::Created));
    assert_eq!(
        zone.creates,
        vec![CreateRequest {
            zone_id: "zone-1".to_string(),
            name: "host.example.org".to_string(),
            content: aaaa(5),
            proxied: false,
            ttl: None,
        }]
    );
    assert_eq!(zone.run(&task(aaaa(5))), Ok(Outcome::Unchanged));
    assert_eq!(zone.creates.len(), 1);
    assert!(zone.updates.is_empty());
}

#[test]
fn update_preserves_proxied_and_ttl() {
    let mut zone = Zone::holding(vec![record("r9", a(1), true, 300)]);
    assert_eq!(zone.run(&task(a(2))), Ok(Outcome::Updated));
    assert_eq!(
        zone.updates,
        vec![UpdateRequest {
            zone_id: "zone-1".to_string(),
            record_id: "r9".to_string(),
            name: "host.example.org".to_string(),
            content: a(2),
            proxied: true,
            ttl: 300,
        }]
    );
    assert_eq!(zone.records, vec![record("r9", a(2), true, 300)]);
    assert!(zone.creates.is_empty());
    assert_eq!(zone.run(&task(a(2))), Ok(Outcome::Unchanged));
    assert_eq!(zone.updates.len(), 1);
}

#[test]
fn the_two_families_do_not_touch_each_other() {
    let mut zone = Zone::holding(vec![record("r4", a(1), false, 60)]);
    assert_eq!(zone.run(&task(aaaa(1))), Ok(Outcome::Created));
    assert_eq!(zone.run(&task(a(1))), Ok(Outcome::Unchanged));
    assert_eq!(zone.records.len(), 2);
    assert_eq!(zone.records[0], record("r4", a(1), false, 60));
}

#[test]
fn plan_keeps_a_record_that_holds_the_address() {
    assert_eq!(plan(&task(a(7)), &vec![record("r1", a(7), true, 1)]), Plan::Keep);
}

#[test]
fn plan_creates_where_no_record_of_the_family_is_listed() {
    let create = Plan::Create(CreateRequest {
        zone_id: "zone-1".to_string(),
        name: "host.example.org".to_string(),
        content: a(7),
        proxied: false,
        ttl: None,
    });
    assert_eq!(plan(&task(a(7)), &vec![]), create);
    assert_eq!(plan(&task(a(7)), &vec![other("txt"), record("r6", aaaa(7), true, 9)]), create);
}

#[test]
fn plan_acts_on_the_first_record_of_the_family() {
    let listed = vec![
        other("mx"),
        record("v6", aaaa(1), false, 10),
        record("first", a(1), true, 300),
        record("second", a(7), false, 60),
    ];
    assert_eq!(
        plan(&task(a(7)), &listed),
        Plan::Update(UpdateRequest {
            zone_id: "zone-1".to_string(),
            record_id: "first".to_string(),
            name: "host.example.org".to_string(),
            content: a(7),
            proxied: true,
            ttl: 300,
        })
    );
    assert_eq!(plan(&task(a(1)), &listed), Plan::Keep);
    assert_eq!(plan(&task(aaaa(1)), &listed), Plan::Keep);
}

#[test]
fn find_first_of_family_gives_the_place() {
    let listed = vec![other("x"), record("b", aaaa(1), false, 1), record("c", a(1), false, 1), record("d", a(2), false, 1)];
    assert_eq!(find_first_of_family(&listed, Family::V4), Some(2));
    assert_eq!(find_first_of_family(&listed, Family::V6), Some(1));
    assert_eq!(find_first_of_family(&vec![other("x")], Family::V4), None);
    assert_eq!(find_first_of_family(&vec![], Family::V6), None);
}

#[test]
fn the_protocol_lists_first() {
    let t = task(a(3));
    let (state, action) = reconcile(&t, SyncState::Ready, SyncEvent::Begin);
    assert_eq!(state, SyncState::Listing);
    assert_eq!(
        action,
        SyncAction::List(ListRequest {
            zone_id: "zone-1".to_string(),
            name: "host.example.org".to_string(),
            record_type: Family::V4,
        })
    );
    assert_eq!(list_request(&task(aaaa(3))).record_type, Family::V6);
}

#[test]
fn the_protocol_waits_for_the_change_to_be_applied() {
    let t = task(a(3));
    let (state, action) = reconcile(&t, SyncState::Listing, SyncEvent::Listed(vec![]));
    assert_eq!(state, SyncState::Creating);
    assert!(matches!(action, SyncAction::Create(_)));
    assert_eq!(
        reconcile(&t, SyncState::Creating, SyncEvent::Applied),
        (SyncState::Finished, SyncAction::Done(Outcome::Created))
    );
    let (state, action) =
        reconcile(&t, SyncState::Listing, SyncEvent::Listed(vec![record("r", a(4), false, 1)]));
    assert_eq!(state, SyncState::Updating);
    assert!(matches!(action, SyncAction::Update(_)));
    assert_eq!(
        reconcile(&t, SyncState::Updating, SyncEvent::Applied),
        (SyncState::Finished, SyncAction::Done(Outcome::Updated))
    );
}

#[test]
fn a_failure_ends_the_reconciliation_with_its_context() {
    let t = task(aaaa(3));
    for (state, operation) in [
        (SyncState::Listing, Operation::List),
        (SyncState::Creating, Operation::Create),
        (SyncState::Updating, Operation::Update),
    ] {
        assert_eq!(
            reconcile(&t, state, SyncEvent::Failed("HTTP 403".to_string())),
            (
                SyncState::Finished,
                SyncAction::Fail(ProviderError {
                    hostname: "host.example.org".to_string(),
                    record_type: Family::V6,
                    operation,
                    message: "HTTP 403".to_string(),
                })
            )
        );
    }
}

#[test]
fn an_event_out_of_turn_ends_the_reconciliation() {
    let t = task(a(3));
    let fail = |operation| {
        (
            SyncState::Finished,
            SyncAction::Fail(ProviderError {
                hostname: "host.example.org".to_string(),
                record_type: Family::V4,
                operation,
                message: "event out of turn".to_string(),
            }),
        )
    };
    assert_eq!(reconcile(&t, SyncState::Ready, SyncEvent::Applied), fail(Operation::List));
    assert_eq!(reconcile(&t, SyncState::Ready, SyncEvent::Listed(vec![])), fail(Operation::List));
    assert_eq!(reconcile(&t, SyncState::Ready, SyncEvent::Failed("x".to_string())), fail(Operation::List));
    assert_eq!(reconcile(&t, SyncState::Listing, SyncEvent::Begin), fail(Operation::List));
    assert_eq!(reconcile(&t, SyncState::Listing, SyncEvent::Applied), fail(Operation::List));
    assert_eq!(reconcile(&t, SyncState::Creating, SyncEvent::Listed(vec![])), fail(Operation::Create));
    assert_eq!(reconcile(&t, SyncState::Updating, SyncEvent::Begin), fail(Operation::Update));
    assert_eq!(reconcile(&t, SyncState::Finished, SyncEvent::Begin), fail(Operation::List));
    assert_eq!(reconcile(&t, SyncState::Finished, SyncEvent::Applied), fail(Operation::List));
}

#[test]
fn provider_error_names_the_hostname_and_the_type() {
    assert_eq!(
        provider_error(&task(a(1)), Operation::Update, "no".to_string()),
        ProviderError {
            hostname: "host.example.org".to_string(),
            record_type: Family::V4,
            operation: Operation::Update,
            message: "no".to_string(),
        }
    );
}

#[test]
fn provider_error_duplicate_is_equal() {
    let e = provider_error(&task(aaaa(1)), Operation::List, "down".to_string());
    assert_eq!(e.duplicate(), e);
}

#[test]
fn state_names_the_request_under_way() {
    assert_eq!(SyncState::Ready.operation(), Operation::List);
    assert_eq!(SyncState::Listing.operation(), Operation::List);
    assert_eq!(SyncState::Creating.operation(), Operation::Create);
    assert_eq!(SyncState::Updating.operation(), Operation::Update);
    assert_eq!(SyncState::Finished.operation(), Operation::List);
}

#[test]
fn ip_from_record_gives_the_address_of_an_address_record() {
    assert_eq!(ip_from_record(&record("r", a(5), false, 1)), a(5));
    assert_eq!(ip_from_record(&record("r", aaaa(5), false, 1)), aaaa(5));
}

#[test]
fn record_content_knows_its_address_and_family() {
    assert_eq!(RecordContent::of(a(1)), RecordContent::A(Ipv4::new(192, 0, 2, 1)));
    assert_eq!(RecordContent::of(a(1)).address(), Some(a(1)));
    assert_eq!(RecordContent::of(aaaa(1)).family(), Some(Family::V6));
    assert_eq!(RecordContent::Other.address(), None);
    assert_eq!(RecordContent::Other.family(), None);
}

#[test]
fn surplus_counts_the_records_beyond_the_first() {
    let listed = vec![
        other("mx"),
        record("a1", a(1), false, 1),
        record("v6", aaaa(1), false, 1),
        record("a2", a(2), false, 1),
        record("a3", a(1), false, 1),
    ];
    assert_eq!(surplus(&listed, Family::V4), 2);
    assert_eq!(surplus(&listed, Family::V6), 0);
    assert_eq!(surplus(&vec![other("mx")], Family::V4), 0);
    assert_eq!(surplus(&vec![], Family::V6), 0);
}
