//! The record synchronizer: what to ask of the provider so that a zone publishes
//! an address, one request at a time.
//!
//! The provider is reached by the caller. For one address the caller starts with
//! [`SyncState::Ready`] and [`SyncEvent::Begin`], performs each request that
//! [`reconcile`] hands back and reports what came of it, until the action is
//! [`SyncAction::Done`] or [`SyncAction::Fail`]. Listing and then changing is not
//! atomic at the provider: two synchronizers at work on one name and type may both
//! create a record.

use vstd::prelude::*;
use crate::address::{Address, Family};
use crate::record::{
    records_view, CreateRequest, CreateRequestView, ListRequest, ListRequestView, RecordContent,
    UpdateRequest, UpdateRequestView, ZoneRecord, ZoneRecordView,
};

verus! {

/// What a reconciliation did to the zone.
#[derive(Clone, Copy, Debug, PartialEq, Eq, Structural)]
pub enum Outcome {
    Unchanged,
    Updated,
    Created,
}

/// The address that a name of a zone is to publish.
#[derive(Clone, Debug, PartialEq, Eq)]
pub struct SyncTask {
    pub zone_id: String,
    pub hostname: String,
    pub address: Address,
}

/// The value of a [`SyncTask`].
pub struct SyncTaskView {
    pub zone_id: Seq<char>,
    pub hostname: Seq<char>,
    pub address: Address,
}

impl View for SyncTask {
    type V = SyncTaskView;

    open spec fn view(&self) -> SyncTaskView {
        SyncTaskView { zone_id: self.zone_id@, hostname: self.hostname@, address: self.address }
    }
}

/// What has to change at the provider.
#[derive(Clone, Debug, PartialEq, Eq)]
pub enum Plan {
    Keep,
    Update(UpdateRequest),
    Create(CreateRequest),
}

/// The value of a [`Plan`].
pub enum PlanView {
    Keep,
    Update(UpdateRequestView),
    Create(CreateRequestView),
}

impl View for Plan {
    type V = PlanView;

    open spec fn view(&self) -> PlanView {
        match *self {
            Plan::Keep => PlanView::Keep,
            Plan::Update(r) => PlanView::Update(r@),
            Plan::Create(r) => PlanView::Create(r@),
        }
    }
}

/// Whether `i` is the place of the first record of `family` in the list.
pub open spec fn is_first_of_family(records: Seq<ZoneRecordView>, family: Family, i: int) -> bool {
    &&& 0 <= i < records.len()
    &&& records[i].content.spec_family() == Some(family)
    &&& forall|j: int| 0 <= j < i ==> (#[trigger] records[j]).content.spec_family() != Some(family)
}

/// The place of the first record of `family` in the list, if it holds one.
pub open spec fn first_of_family(records: Seq<ZoneRecordView>, family: Family) -> Option<int> {
    if exists|i: int| is_first_of_family(records, family, i) {
        Some(choose|i: int| is_first_of_family(records, family, i))
    } else {
        None
    }
}

/// The request that lists the records which the task is about.
pub open spec fn spec_list_request(task: SyncTaskView) -> ListRequestView {
    ListRequestView {
        zone_id: task.zone_id,
        name: task.hostname,
        record_type: task.address.spec_family(),
    }
}

/// The request that creates the record which the task asks for.
pub open spec fn spec_create_request(task: SyncTaskView) -> CreateRequestView {
    CreateRequestView {
        zone_id: task.zone_id,
        name: task.hostname,
        content: task.address,
        proxied: false,
        ttl: None,
    }
}

/// The request that puts the task's address into `record` and leaves its other
/// settings as they are.
pub open spec fn spec_update_request(task: SyncTaskView, record: ZoneRecordView)
    -> UpdateRequestView {
    UpdateRequestView {
        zone_id: task.zone_id,
        record_id: record.id,
        name: task.hostname,
        content: task.address,
        proxied: record.proxied,
        ttl: record.ttl,
    }
}

/// What has to change, given the records that the provider listed. Of several
/// records of the task's family only the first counts.
pub open spec fn spec_plan(task: SyncTaskView, records: Seq<ZoneRecordView>) -> PlanView {
    match first_of_family(records, task.address.spec_family()) {
        None => PlanView::Create(spec_create_request(task)),
        Some(i) => if records[i].content.spec_address() == Some(task.address) {
            PlanView::Keep
        } else {
            PlanView::Update(spec_update_request(task, records[i]))
        },
    }
}

/// Only one place of a list is the first of a family.
pub proof fn lemma_first_of_family_unique(
    records: Seq<ZoneRecordView>,
    family: Family,
    i: int,
    k: int,
)
    requires
        is_first_of_family(records, family, i),
        is_first_of_family(records, family, k),
    ensures
        i == k,
{
    if i < k {
        assert(records[i].content.spec_family() != Some(family));
    } else if k < i {
        assert(records[k].content.spec_family() != Some(family));
    }
}

/// The place of the first record of a family is what `first_of_family` gives.
pub proof fn lemma_first_of_family_is(records: Seq<ZoneRecordView>, family: Family, i: int)
    requires
        is_first_of_family(records, family, i),
    ensures
        first_of_family(records, family) == Some(i),
{
    let k = choose|k: int| is_first_of_family(records, family, k);
    lemma_first_of_family_unique(records, family, i, k);
}

/// A list without a record of the family has no first one.
pub proof fn lemma_first_of_family_none(records: Seq<ZoneRecordView>, family: Family)
    requires
        forall|j: int|
            0 <= j < records.len() ==> (#[trigger] records[j]).content.spec_family() != Some(
                family,
            ),
    ensures
        first_of_family(records, family) is None,
{
}

/// Finds the first record of `family` among those that the provider listed.
pub fn find_first_of_family(records: &Vec<ZoneRecord>, family: Family) -> (r: Option<usize>)
    ensures
        r.is_some() == first_of_family(records_view(records@), family).is_some(),
        r matches Some(i) ==> first_of_family(records_view(records@), family) == Some(i as int),
{
    let ghost views = records_view(records@);
    let mut i: usize = 0;
    while i < records.len()
        invariant
            i <= records.len(),
            views == records_view(records@),
            forall|j: int| 0 <= j < i ==> (#[trigger] views[j]).content.spec_family() != Some(family),
        decreases records.len() - i,
    {
        let found = records[i].content.family();
        assert(views[i as int] == records@[i as int]@);
        let hit = match found {
            Some(f) => f == family,
            None => false,
        };
        if hit {
            proof {
                lemma_first_of_family_is(views, family, i as int);
            }
            return Some(i);
        }
        i += 1;
    }
    proof {
        lemma_first_of_family_none(views, family);
    }
    None
}

/// Decides what has to change at the provider so that the zone publishes the
/// task's address, given the records that the provider listed for the task.
///
/// Where the first record of the address's family already holds the address,
/// nothing changes. Where it holds another, that record is updated: only its
/// address changes, its `proxied` and `ttl` stay. Where there is none, a record is
/// created, not proxied and with the provider's default `ttl`.
pub fn plan(task: &SyncTask, records: &Vec<ZoneRecord>) -> (r: Plan)
    ensures
        r@ == spec_plan(task@, records_view(records@)),
{
    match find_first_of_family(records, task.address.family()) {
        None => Plan::Create(
            CreateRequest {
                zone_id: task.zone_id.clone(),
                name: task.hostname.clone(),
                content: task.address,
                proxied: false,
                ttl: None,
            },
        ),
        Some(i) => {
            let record = &records[i];
            assert(records_view(records@)[i as int] == record@);
            let same = match record.content.address() {
                Some(a) => a == task.address,
                None => false,
            };
            if same {
                Plan::Keep
            } else {
                Plan::Update(
                    UpdateRequest {
                        zone_id: task.zone_id.clone(),
                        record_id: record.id.clone(),
                        name: task.hostname.clone(),
                        content: task.address,
                        proxied: record.proxied,
                        ttl: record.ttl,
                    },
                )
            }
        },
    }
}

/// The records of a list that are of a family, in the order of the list.
pub open spec fn of_family(records: Seq<ZoneRecordView>, family: Family) -> Seq<ZoneRecordView> {
    records.filter(|r: ZoneRecordView| r.content.spec_family() == Some(family))
}

/// How many records of a family a list holds beyond the first. The zone is meant
/// to hold one at most for a name, so that any more are an anomaly; the
/// synchronizer acts on the first and leaves them alone.
pub open spec fn spec_surplus(records: Seq<ZoneRecordView>, family: Family) -> nat {
    if of_family(records, family).len() == 0 {
        0
    } else {
        (of_family(records, family).len() - 1) as nat
    }
}

/// Counts the records of a family that a listing holds beyond the first, so that
/// the caller can report them.
pub fn surplus(records: &Vec<ZoneRecord>, family: Family) -> (r: usize)
    ensures
        r == spec_surplus(records_view(records@), family),
{
    let ghost views = records_view(records@);
    let ghost wanted = |r: ZoneRecordView| r.content.spec_family() == Some(family);
    let mut count: usize = 0;
    let mut i: usize = 0;
    proof {
        reveal(Seq::filter);
        assert(views.take(0) =~= Seq::<ZoneRecordView>::empty());
    }
    while i < records.len()
        invariant
            i <= records.len(),
            views == records_view(records@),
            wanted == |r: ZoneRecordView| r.content.spec_family() == Some(family),
            count == views.take(i as int).filter(wanted).len(),
            count <= i,
        decreases records.len() - i,
    {
        proof {
            reveal(Seq::filter);
            assert(views.take(i + 1).drop_last() =~= views.take(i as int));
            assert(views.take(i + 1).last() == records@[i as int]@);
        }
        let hit = match records[i].content.family() {
            Some(f) => f == family,
            None => false,
        };
        if hit {
            count += 1;
        }
        i += 1;
    }
    assert(views.take(i as int) =~= views);
    if count == 0 {
        0
    } else {
        count - 1
    }
}

/// The request that a provider failed.
#[derive(Clone, Copy, Debug, PartialEq, Eq, Structural)]
pub enum Operation {
    List,
    Create,
    Update,
}

/// A request that did not succeed, with the name and record type that it was
/// about and what the caller reported of the failure.
#[derive(Clone, Debug, PartialEq, Eq)]
pub struct ProviderError {
    pub hostname: String,
    pub record_type: Family,
    pub operation: Operation,
    pub message: String,
}

/// The value of a [`ProviderError`].
pub struct ProviderErrorView {
    pub hostname: Seq<char>,
    pub record_type: Family,
    pub operation: Operation,
    pub message: Seq<char>,
}

impl View for ProviderError {
    type V = ProviderErrorView;

    open spec fn view(&self) -> ProviderErrorView {
        ProviderErrorView {
            hostname: self.hostname@,
            record_type: self.record_type,
            operation: self.operation,
            message: self.message@,
        }
    }
}

impl ProviderError {
    /// A second copy of the error.
    pub fn duplicate(&self) -> (r: ProviderError)
        ensures
            r@ == self@,
    {
        ProviderError {
            hostname: self.hostname.clone(),
            record_type: self.record_type,
            operation: self.operation,
            message: self.message.clone(),
        }
    }
}

/// How far one reconciliation has come.
#[derive(Clone, Copy, Debug, PartialEq, Eq, Structural)]
pub enum SyncState {
    /// Nothing has been asked yet.
    Ready,
    /// The records were asked for.
    Listing,
    /// A new record was asked for.
    Creating,
    /// A change of the existing record was asked for.
    Updating,
    /// The reconciliation has ended.
    Finished,
}

/// What the caller reports to the synchronizer.
#[derive(Clone, Debug, PartialEq, Eq)]
pub enum SyncEvent {
    /// The reconciliation is to start.
    Begin,
    /// The provider listed these records, in this order.
    Listed(Vec<ZoneRecord>),
    /// The provider carried out the change.
    Applied,
    /// The request did not succeed: the transport failed, timed out, or the
    /// provider refused.
    Failed(String),
}

/// The value of a [`SyncEvent`].
pub enum SyncEventView {
    Begin,
    Listed(Seq<ZoneRecordView>),
    Applied,
    Failed(Seq<char>),
}

impl View for SyncEvent {
    type V = SyncEventView;

    open spec fn view(&self) -> SyncEventView {
        match *self {
            SyncEvent::Begin => SyncEventView::Begin,
            SyncEvent::Listed(records) => SyncEventView::Listed(records_view(records@)),
            SyncEvent::Applied => SyncEventView::Applied,
            SyncEvent::Failed(message) => SyncEventView::Failed(message@),
        }
    }
}

/// What the caller is to do next.
#[derive(Clone, Debug, PartialEq, Eq)]
pub enum SyncAction {
    List(ListRequest),
    Create(CreateRequest),
    Update(UpdateRequest),
    /// The reconciliation has succeeded.
    Done(Outcome),
    /// The reconciliation has failed.
    Fail(ProviderError),
}

/// The value of a [`SyncAction`].
pub enum SyncActionView {
    List(ListRequestView),
    Create(CreateRequestView),
    Update(UpdateRequestView),
    Done(Outcome),
    Fail(ProviderErrorView),
}

impl View for SyncAction {
    type V = SyncActionView;

    open spec fn view(&self) -> SyncActionView {
        match *self {
            SyncAction::List(r) => SyncActionView::List(r@),
            SyncAction::Create(r) => SyncActionView::Create(r@),
            SyncAction::Update(r) => SyncActionView::Update(r@),
            SyncAction::Done(o) => SyncActionView::Done(o),
            SyncAction::Fail(e) => SyncActionView::Fail(e@),
        }
    }
}

impl SyncActionView {
    /// Whether the action asks the provider to change the zone.
    pub open spec fn is_mutation(self) -> bool {
        self is Create || self is Update
    }

    /// Whether the action asks anything of the provider.
    pub open spec fn is_request(self) -> bool {
        self is List || self is Create || self is Update
    }
}

impl SyncState {
    /// The request that is under way in this state. Before the first and after the
    /// last it is the listing.
    pub open spec fn spec_operation(&self) -> Operation {
        match *self {
            SyncState::Creating => Operation::Create,
            SyncState::Updating => Operation::Update,
            _ => Operation::List,
        }
    }

    /// The request that is under way in this state.
    #[verifier::when_used_as_spec(spec_operation)]
    pub fn operation(&self) -> (r: Operation)
        ensures
            r == self.spec_operation(),
    {
        match self {
            SyncState::Creating => Operation::Create,
            SyncState::Updating => Operation::Update,
            _ => Operation::List,
        }
    }
}

/// What is reported of an event that does not answer what the state waits for.
pub open spec fn out_of_turn() -> Seq<char> {
    "event out of turn"@
}

/// The error that a task ends with when `operation` fails with `message`.
pub open spec fn spec_provider_error(task: SyncTaskView, operation: Operation, message: Seq<char>)
    -> ProviderErrorView {
    ProviderErrorView {
        hostname: task.hostname,
        record_type: task.address.spec_family(),
        operation,
        message,
    }
}

/// The step of the protocol: the state after `event` and what the caller does next.
///
/// A reconciliation lists, then creates or updates where the listing asks for it,
/// and ends. A failure ends it at once. An event that does not answer what the
/// state waits for ends it with a failure of the request under way.
pub open spec fn spec_reconcile(task: SyncTaskView, state: SyncState, event: SyncEventView) -> (
    SyncState,
    SyncActionView,
) {
    match (state, event) {
        (SyncState::Ready, SyncEventView::Begin) => (
            SyncState::Listing,
            SyncActionView::List(spec_list_request(task)),
        ),
        (SyncState::Listing, SyncEventView::Listed(records)) => match spec_plan(task, records) {
            PlanView::Keep => (SyncState::Finished, SyncActionView::Done(Outcome::Unchanged)),
            PlanView::Update(r) => (SyncState::Updating, SyncActionView::Update(r)),
            PlanView::Create(r) => (SyncState::Creating, SyncActionView::Create(r)),
        },
        (SyncState::Creating, SyncEventView::Applied) => (
            SyncState::Finished,
            SyncActionView::Done(Outcome::Created),
        ),
        (SyncState::Updating, SyncEventView::Applied) => (
            SyncState::Finished,
            SyncActionView::Done(Outcome::Updated),
        ),
        (SyncState::Listing, SyncEventView::Failed(message)) => (
            SyncState::Finished,
            SyncActionView::Fail(spec_provider_error(task, Operation::List, message)),
        ),
        (SyncState::Creating, SyncEventView::Failed(message)) => (
            SyncState::Finished,
            SyncActionView::Fail(spec_provider_error(task, Operation::Create, message)),
        ),
        (SyncState::Updating, SyncEventView::Failed(message)) => (
            SyncState::Finished,
            SyncActionView::Fail(spec_provider_error(task, Operation::Update, message)),
        ),
        _ => (
            SyncState::Finished,
            SyncActionView::Fail(spec_provider_error(task, state.spec_operation(), out_of_turn())),
        ),
    }
}

/// The error that the task ends with when `operation` fails with `message`.
pub fn provider_error(task: &SyncTask, operation: Operation, message: String) -> (r: ProviderError)
    ensures
        r@ == spec_provider_error(task@, operation, message@),
{
    ProviderError {
        hostname: task.hostname.clone(),
        record_type: task.address.family(),
        operation,
        message,
    }
}

/// The request that lists the records which the task is about.
pub fn list_request(task: &SyncTask) -> (r: ListRequest)
    ensures
        r@ == spec_list_request(task@),
{
    ListRequest {
        zone_id: task.zone_id.clone(),
        name: task.hostname.clone(),
        record_type: task.address.family(),
    }
}

/// Takes one step of a reconciliation: given what the caller reports, says how
/// far the reconciliation has come and what the caller is to do next.
pub fn reconcile(task: &SyncTask, state: SyncState, event: SyncEvent) -> (r: (SyncState, SyncAction))
    ensures
        r.0 == spec_reconcile(task@, state, event@).0,
        r.1@ == spec_reconcile(task@, state, event@).1,
{
    match event {
        SyncEvent::Begin => match state {
            SyncState::Ready => (SyncState::Listing, SyncAction::List(list_request(task))),
            _ => (SyncState::Finished, SyncAction::Fail(unexpected(task, state))),
        },
        SyncEvent::Listed(records) => match state {
            SyncState::Listing => match plan(task, &records) {
                Plan::Keep => (SyncState::Finished, SyncAction::Done(Outcome::Unchanged)),
                Plan::Update(r) => (SyncState::Updating, SyncAction::Update(r)),
                Plan::Create(r) => (SyncState::Creating, SyncAction::Create(r)),
            },
            _ => (SyncState::Finished, SyncAction::Fail(unexpected(task, state))),
        },
        SyncEvent::Applied => match state {
            SyncState::Creating => (SyncState::Finished, SyncAction::Done(Outcome::Created)),
            SyncState::Updating => (SyncState::Finished, SyncAction::Done(Outcome::Updated)),
            _ => (SyncState::Finished, SyncAction::Fail(unexpected(task, state))),
        },
        SyncEvent::Failed(message) => match state {
            SyncState::Listing => (
                SyncState::Finished,
                SyncAction::Fail(provider_error(task, Operation::List, message)),
            ),
            SyncState::Creating => (
                SyncState::Finished,
                SyncAction::Fail(provider_error(task, Operation::Create, message)),
            ),
            SyncState::Updating => (
                SyncState::Finished,
                SyncAction::Fail(provider_error(task, Operation::Update, message)),
            ),
            _ => (SyncState::Finished, SyncAction::Fail(unexpected(task, state))),
        },
    }
}

/// The failure that ends a reconciliation on an event out of turn.
fn unexpected(task: &SyncTask, state: SyncState) -> (r: ProviderError)
    ensures
        r@ == spec_provider_error(task@, state.spec_operation(), out_of_turn()),
{
    provider_error(task, state.operation(), "event out of turn".to_owned())
}

/// The record that the provider holds after it has carried out an update of `old`.
pub open spec fn record_after_update(old: ZoneRecordView, request: UpdateRequestView)
    -> ZoneRecordView {
    ZoneRecordView {
        id: old.id,
        name: request.name,
        content: RecordContent::spec_of(request.content),
        proxied: request.proxied,
        ttl: request.ttl,
    }
}

/// The record that the provider holds after it has carried out a creation, where
/// it gives the record the identifier `id` and the `ttl` is its default.
pub open spec fn record_after_create(request: CreateRequestView, id: Seq<char>, default_ttl: u32)
    -> ZoneRecordView {
    ZoneRecordView {
        id,
        name: request.name,
        content: RecordContent::spec_of(request.content),
        proxied: request.proxied,
        ttl: match request.ttl {
            Some(t) => t,
            None => default_ttl,
        },
    }
}

/// What a provider lists after it has carried out `plan`, if it listed `records`
/// before: an update overwrites the record that bears the identifier, a creation
/// adds a record at the end.
pub open spec fn listing_after(
    records: Seq<ZoneRecordView>,
    plan: PlanView,
    new_id: Seq<char>,
    default_ttl: u32,
) -> Seq<ZoneRecordView> {
    match plan {
        PlanView::Keep => records,
        PlanView::Update(request) => records.map_values(
            |r: ZoneRecordView|
                if r.id == request.record_id {
                    record_after_update(r, request)
                } else {
                    r
                },
        ),
        PlanView::Create(request) => records.push(
            record_after_create(request, new_id, default_ttl),
        ),
    }
}

/// A list that holds a record of a family at `j` has a first one, at `j` or before.
pub proof fn lemma_family_has_first(records: Seq<ZoneRecordView>, family: Family, j: int)
    requires
        0 <= j < records.len(),
        records[j].content.spec_family() == Some(family),
    ensures
        first_of_family(records, family) matches Some(i) && i <= j && is_first_of_family(
            records,
            family,
            i,
        ),
    decreases j,
{
    if exists|k: int| 0 <= k < j && (#[trigger] records[k]).content.spec_family() == Some(family) {
        let k = choose|k: int|
            0 <= k < j && (#[trigger] records[k]).content.spec_family() == Some(family);
        lemma_family_has_first(records, family, k);
    } else {
        assert(is_first_of_family(records, family, j));
        lemma_first_of_family_is(records, family, j);
    }
}

/// Where a list has a first record of a family, that is its place; where it has
/// none, no record is of the family.
pub proof fn lemma_first_of_family_meaning(records: Seq<ZoneRecordView>, family: Family)
    ensures
        match first_of_family(records, family) {
            Some(i) => is_first_of_family(records, family, i),
            None => forall|j: int|
                0 <= j < records.len() ==> (#[trigger] records[j]).content.spec_family() != Some(
                    family,
                ),
        },
{
    if first_of_family(records, family) is None {
        assert forall|j: int| 0 <= j < records.len() implies (
        #[trigger] records[j]).content.spec_family() != Some(family) by {
            if records[j].content.spec_family() == Some(family) {
                lemma_family_has_first(records, family, j);
            }
        }
    }
}

/// Reconciling settles the zone: once the provider has carried out what a
/// reconciliation asked for, a reconciliation of the same address finds nothing to
/// change, whatever the zone held before.
pub proof fn law_reconciled_zone_is_kept(
    task: SyncTaskView,
    records: Seq<ZoneRecordView>,
    new_id: Seq<char>,
    default_ttl: u32,
)
    ensures
        spec_plan(
            task,
            listing_after(records, spec_plan(task, records), new_id, default_ttl),
        ) == PlanView::Keep,
{
    let family = task.address.spec_family();
    let plan = spec_plan(task, records);
    let after = listing_after(records, plan, new_id, default_ttl);
    lemma_first_of_family_meaning(records, family);
    match plan {
        PlanView::Keep => {},
        PlanView::Create(request) => {
            let n = records.len() as int;
            assert(after[n] == record_after_create(request, new_id, default_ttl));
            assert forall|j: int| 0 <= j < n implies (#[trigger] after[j]).content.spec_family()
                != Some(family) by {
                assert(after[j] == records[j]);
            }
            assert(is_first_of_family(after, family, n));
            lemma_first_of_family_is(after, family, n);
        },
        PlanView::Update(request) => {
            let i = first_of_family(records, family).unwrap();
            assert(after[i] == record_after_update(records[i], request));
            lemma_family_has_first(after, family, i);
            let k = first_of_family(after, family).unwrap();
            if k < i {
                assert(records[k].content.spec_family() != Some(family));
                assert(after[k] == record_after_update(records[k], request));
            }
        },
    }
}

/// A zone that already publishes the address is left alone: the reconciliation
/// lists and ends with `Unchanged`, it asks for no change, and the provider lists
/// afterwards what it listed before, so that the next reconciliation does the same.
pub proof fn law_unchanged_is_silent(
    task: SyncTaskView,
    records: Seq<ZoneRecordView>,
    new_id: Seq<char>,
    default_ttl: u32,
)
    requires
        spec_plan(task, records) == PlanView::Keep,
    ensures
        spec_reconcile(task, SyncState::Ready, SyncEventView::Begin) == (
            SyncState::Listing,
            SyncActionView::List(spec_list_request(task)),
        ),
        spec_reconcile(task, SyncState::Listing, SyncEventView::Listed(records)) == (
            SyncState::Finished,
            SyncActionView::Done(Outcome::Unchanged),
        ),
        listing_after(records, spec_plan(task, records), new_id, default_ttl) == records,
{
}

/// Where the provider lists no record of the address's family, the reconciliation
/// asks for one record with the task's name and address, not proxied and with the
/// provider's default `ttl`, and ends with `Created` when the provider has made it.
/// The next reconciliation of the same address then ends with `Unchanged`.
pub proof fn law_create_then_match(
    task: SyncTaskView,
    records: Seq<ZoneRecordView>,
    new_id: Seq<char>,
    default_ttl: u32,
)
    requires
        forall|j: int|
            0 <= j < records.len() ==> (#[trigger] records[j]).content.spec_family() != Some(
                task.address.spec_family(),
            ),
    ensures
        spec_reconcile(task, SyncState::Listing, SyncEventView::Listed(records)) == (
            SyncState::Creating,
            SyncActionView::Create(
                (CreateRequestView {
                    zone_id: task.zone_id,
                    name: task.hostname,
                    content: task.address,
                    proxied: false,
                    ttl: None,
                }),
            ),
        ),
        spec_reconcile(task, SyncState::Creating, SyncEventView::Applied) == (
            SyncState::Finished,
            SyncActionView::Done(Outcome::Created),
        ),
        spec_reconcile(
            task,
            SyncState::Listing,
            SyncEventView::Listed(
                listing_after(records, spec_plan(task, records), new_id, default_ttl),
            ),
        ) == (SyncState::Finished, SyncActionView::Done(Outcome::Unchanged)),
{
    lemma_first_of_family_none(records, task.address.spec_family());
    law_reconciled_zone_is_kept(task, records, new_id, default_ttl);
}

/// Where the first record of the address's family holds another address, the
/// reconciliation asks for that record to be updated: the request bears the
/// record's identifier, its `proxied` and its `ttl`, and the task's address. The
/// record that the provider then holds differs from the one before in its address
/// only, provided that it bore the task's name.
pub proof fn law_update_preserves_fields(task: SyncTaskView, records: Seq<ZoneRecordView>, i: int)
    requires
        is_first_of_family(records, task.address.spec_family(), i),
        records[i].content.spec_address() != Some(task.address),
    ensures
        spec_reconcile(task, SyncState::Listing, SyncEventView::Listed(records)) == (
            SyncState::Updating,
            SyncActionView::Update(spec_update_request(task, records[i])),
        ),
        spec_update_request(task, records[i]).record_id == records[i].id,
        spec_update_request(task, records[i]).proxied == records[i].proxied,
        spec_update_request(task, records[i]).ttl == records[i].ttl,
        spec_update_request(task, records[i]).content == task.address,
        records[i].name == task.hostname ==> record_after_update(
            records[i],
            spec_update_request(task, records[i]),
        ) == (ZoneRecordView { content: RecordContent::spec_of(task.address), ..records[i] }),
        spec_reconcile(task, SyncState::Updating, SyncEventView::Applied) == (
            SyncState::Finished,
            SyncActionView::Done(Outcome::Updated),
        ),
{
    lemma_first_of_family_is(records, task.address.spec_family(), i);
}

/// A reconciliation changes the zone at most once: whatever is reported after it
/// has asked for a change, it ends and asks for nothing more; and once it has
/// ended it asks for nothing.
pub proof fn law_one_change_at_most(task: SyncTaskView, state: SyncState, event: SyncEventView)
    requires
        state == SyncState::Creating || state == SyncState::Updating || state
            == SyncState::Finished,
    ensures
        spec_reconcile(task, state, event).0 == SyncState::Finished,
        !spec_reconcile(task, state, event).1.is_request(),
{
}

/// A reconciliation asks for a change only in answer to a listing.
pub proof fn law_change_follows_listing(task: SyncTaskView, state: SyncState, event: SyncEventView)
    requires
        spec_reconcile(task, state, event).1.is_mutation(),
    ensures
        state == SyncState::Listing,
        event is Listed,
{
}

} // verus!
