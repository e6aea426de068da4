//! One run of the engine from its start to its exit, one step at a time.
//!
//! The caller starts with [`Run::new`] and [`RunEvent::Begin`], does what each
//! [`RunAction`] asks for and reports what came of it, until the action is
//! [`RunAction::Exit`]. First comes the network gate, then the discovery of addresses,
//! then one reconciliation for each candidate. A reconciliation that fails does
//! not keep the later ones from being tried; the first failure is reported at
//! the end.

use vstd::prelude::*;
use crate::address::Ipv6Prefix;
use crate::config::{spec_settings, Config, ConfigError, ConfigView, SettingsView};
use crate::discover::{
    candidates_view, discover, spec_discover, wants_public, Candidate, CandidateView, Findings,
    FindingsView,
};
use crate::gate::{
    evaluate, spec_evaluate, GateReason, GateStrategy, GateStrategyView, Observation,
    ObservationView,
};
use crate::record::{
    CreateRequest, CreateRequestView, ListRequest, ListRequestView, UpdateRequest,
    UpdateRequestView,
};
use crate::sync::{
    list_request, reconcile, spec_list_request, spec_reconcile, Outcome, ProviderError,
    ProviderErrorView, SyncAction, SyncActionView, SyncEvent, SyncEventView, SyncState, SyncTask,
    SyncTaskView,
};

verus! {

/// How a run ended, as the process reports it to whoever started it.
#[derive(Clone, Copy, Debug, PartialEq, Eq, Structural)]
pub enum ExitStatus {
    /// Every candidate was reconciled, with or without changes.
    Completed,
    /// The network gate vetoed the run; nothing was looked for and nothing asked.
    Vetoed,
    /// The configuration is unusable or a reconciliation failed.
    Failed,
}

impl ExitStatus {
    /// The exit code of the process.
    pub open spec fn spec_code(&self) -> u8 {
        match *self {
            ExitStatus::Completed => 0u8,
            ExitStatus::Vetoed => 1u8,
            ExitStatus::Failed => 2u8,
        }
    }

    /// The exit code of the process: 0 for a completed run, 1 for a vetoed one, 2
    /// for a failed one.
    #[verifier::when_used_as_spec(spec_code)]
    pub fn code(&self) -> (r: u8)
        ensures
            r == self.spec_code(),
    {
        match self {
            ExitStatus::Completed => 0,
            ExitStatus::Vetoed => 1,
            ExitStatus::Failed => 2,
        }
    }
}

/// Why a run ended.
#[derive(Clone, Debug, PartialEq, Eq)]
pub enum Ending {
    /// All candidates were reconciled.
    Completed,
    /// The network gate did not pass.
    Vetoed(GateReason),
    /// The configuration is unusable.
    Misconfigured(ConfigError),
    /// At least one reconciliation failed; this is the first failure.
    Failed(ProviderError),
    /// The caller reported something that the run was not waiting for.
    OutOfTurn,
}

/// The value of an [`Ending`].
pub enum EndingView {
    Completed,
    Vetoed(GateReason),
    Misconfigured(ConfigError),
    Failed(ProviderErrorView),
    OutOfTurn,
}

impl View for Ending {
    type V = EndingView;

    open spec fn view(&self) -> EndingView {
        match *self {
            Ending::Completed => EndingView::Completed,
            Ending::Vetoed(r) => EndingView::Vetoed(r),
            Ending::Misconfigured(e) => EndingView::Misconfigured(e),
            Ending::Failed(e) => EndingView::Failed(e@),
            Ending::OutOfTurn => EndingView::OutOfTurn,
        }
    }
}

impl EndingView {
    /// The exit status that goes with an ending.
    pub open spec fn status(self) -> ExitStatus {
        match self {
            EndingView::Completed => ExitStatus::Completed,
            EndingView::Vetoed(_) => ExitStatus::Vetoed,
            _ => ExitStatus::Failed,
        }
    }
}

impl Ending {
    /// The exit status that goes with the ending.
    pub fn status(&self) -> (r: ExitStatus)
        ensures
            r == self@.status(),
    {
        match self {
            Ending::Completed => ExitStatus::Completed,
            Ending::Vetoed(_) => ExitStatus::Vetoed,
            _ => ExitStatus::Failed,
        }
    }
}

/// The part of a run that is under way.
#[derive(Clone, Copy, Debug, PartialEq, Eq, Structural)]
pub enum Phase {
    /// The run has not begun.
    Start,
    /// The caller is finding out what the network gate asks for.
    Gating,
    /// The caller is trying the ways of finding addresses.
    Discovering,
    /// The candidates are being reconciled, one after the other.
    Syncing,
    /// The run is over.
    Ended,
}

/// How a reconciliation ended.
#[derive(Debug, PartialEq, Eq)]
pub enum SyncResult {
    Settled(Outcome),
    Failed(ProviderError),
}

/// The value of a [`SyncResult`].
pub enum SyncResultView {
    Settled(Outcome),
    Failed(ProviderErrorView),
}

impl View for SyncResult {
    type V = SyncResultView;

    open spec fn view(&self) -> SyncResultView {
        match *self {
            SyncResult::Settled(o) => SyncResultView::Settled(o),
            SyncResult::Failed(e) => SyncResultView::Failed(e@),
        }
    }
}

/// The values of a list of results, in the order of the list.
pub open spec fn results_view(list: Seq<SyncResult>) -> Seq<SyncResultView> {
    list.map_values(|r: SyncResult| r@)
}

/// How far a run has come.
#[derive(Debug, PartialEq, Eq)]
pub struct Run {
    pub phase: Phase,
    /// The candidates of the run, once they are discovered.
    pub candidates: Vec<Candidate>,
    /// The place of the candidate that is being reconciled.
    pub position: usize,
    /// How far that reconciliation has come.
    pub sync: SyncState,
    /// How the reconciliations before it ended, in the order of the candidates.
    pub results: Vec<SyncResult>,
}

/// The value of a [`Run`].
pub struct RunView {
    pub phase: Phase,
    pub candidates: Seq<CandidateView>,
    pub position: int,
    pub sync: SyncState,
    pub results: Seq<SyncResultView>,
}

impl View for Run {
    type V = RunView;

    open spec fn view(&self) -> RunView {
        RunView {
            phase: self.phase,
            candidates: candidates_view(self.candidates@),
            position: self.position as int,
            sync: self.sync,
            results: results_view(self.results@),
        }
    }
}

/// What the caller reports to the run.
#[derive(Debug, PartialEq, Eq)]
pub enum RunEvent {
    /// The run is to begin.
    Begin,
    /// What was found out for the network gate.
    Observed(Observation),
    /// What the ways of finding addresses brought.
    Discovered(Findings),
    /// What came of the request to the provider.
    Provider(SyncEvent),
}

/// The value of a [`RunEvent`].
pub enum RunEventView {
    Begin,
    Observed(ObservationView),
    Discovered(FindingsView),
    Provider(SyncEventView),
}

impl View for RunEvent {
    type V = RunEventView;

    open spec fn view(&self) -> RunEventView {
        match *self {
            RunEvent::Begin => RunEventView::Begin,
            RunEvent::Observed(o) => RunEventView::Observed(o@),
            RunEvent::Discovered(f) => RunEventView::Discovered(f@),
            RunEvent::Provider(e) => RunEventView::Provider(e@),
        }
    }
}

/// What the caller is to do next.
#[derive(Debug, PartialEq, Eq)]
pub enum RunAction {
    /// Find out what this gate asks for and report it as `Observed`.
    Observe(GateStrategy),
    /// Try the ways of finding addresses and report what they brought as
    /// `Discovered`: the echo service over IPv4 only where `public` is set; of the
    /// interface's IPv6 addresses only those that `allowed` admits.
    Discover { public: bool, allowed: Option<Vec<Ipv6Prefix>> },
    /// Ask the provider and report what came of it as `Provider`.
    List(ListRequest),
    /// Ask the provider and report what came of it as `Provider`.
    Create(CreateRequest),
    /// Ask the provider and report what came of it as `Provider`.
    Update(UpdateRequest),
    /// End the process.
    Exit(Ending),
}

/// The value of a [`RunAction`].
pub enum RunActionView {
    Observe(GateStrategyView),
    Discover { public: bool, allowed: Option<Seq<Ipv6Prefix>> },
    List(ListRequestView),
    Create(CreateRequestView),
    Update(UpdateRequestView),
    Exit(EndingView),
}

impl View for RunAction {
    type V = RunActionView;

    open spec fn view(&self) -> RunActionView {
        match *self {
            RunAction::Observe(g) => RunActionView::Observe(g@),
            RunAction::Discover { public, allowed } => RunActionView::Discover {
                public,
                allowed: match allowed {
                    Some(list) => Some(list@),
                    None => None,
                },
            },
            RunAction::List(r) => RunActionView::List(r@),
            RunAction::Create(r) => RunActionView::Create(r@),
            RunAction::Update(r) => RunActionView::Update(r@),
            RunAction::Exit(e) => RunActionView::Exit(e@),
        }
    }
}

impl RunActionView {
    /// Whether the action asks anything of the provider.
    pub open spec fn is_provider_call(self) -> bool {
        self is List || self is Create || self is Update
    }

    /// Whether the action has the caller look for anything or ask anything.
    pub open spec fn is_work(self) -> bool {
        !(self is Exit)
    }
}

/// The run before it has begun.
pub open spec fn spec_new() -> RunView {
    RunView {
        phase: Phase::Start,
        candidates: Seq::<CandidateView>::empty(),
        position: 0,
        sync: SyncState::Ready,
        results: Seq::<SyncResultView>::empty(),
    }
}

/// The run as it stands, in another phase.
pub open spec fn in_phase(run: RunView, phase: Phase) -> RunView {
    RunView { phase, ..run }
}

/// The task of reconciling a candidate.
pub open spec fn spec_task(config: ConfigView, candidate: CandidateView) -> SyncTaskView {
    SyncTaskView {
        zone_id: config.zoneid,
        hostname: candidate.hostname,
        address: candidate.address,
    }
}

/// The first failure among the results, if one of them is a failure.
pub open spec fn first_failure(results: Seq<SyncResultView>) -> Option<ProviderErrorView>
    decreases results.len(),
{
    if results.len() == 0 {
        None
    } else {
        match first_failure(results.drop_last()) {
            Some(e) => Some(e),
            None => match results.last() {
                SyncResultView::Failed(e) => Some(e),
                SyncResultView::Settled(_) => None,
            },
        }
    }
}

/// How a run ends whose reconciliations ended with `results`.
pub open spec fn spec_ending(results: Seq<SyncResultView>) -> EndingView {
    match first_failure(results) {
        Some(e) => EndingView::Failed(e),
        None => EndingView::Completed,
    }
}

/// The step to the discovery.
pub open spec fn to_discovery(config: ConfigView, settings: SettingsView, run: RunView) -> (
    RunView,
    RunActionView,
) {
    (
        in_phase(run, Phase::Discovering),
        RunActionView::Discover { public: config.public.is_some(), allowed: settings.allowed },
    )
}

/// The step to the candidate at `position`: its records are listed; or, where
/// there is none, the run ends.
pub open spec fn to_candidate(
    config: ConfigView,
    candidates: Seq<CandidateView>,
    position: int,
    results: Seq<SyncResultView>,
) -> (RunView, RunActionView) {
    if 0 <= position < candidates.len() {
        (
            RunView {
                phase: Phase::Syncing,
                candidates,
                position,
                sync: SyncState::Listing,
                results,
            },
            RunActionView::List(spec_list_request(spec_task(config, candidates[position]))),
        )
    } else {
        (
            RunView {
                phase: Phase::Ended,
                candidates,
                position,
                sync: SyncState::Finished,
                results,
            },
            RunActionView::Exit(spec_ending(results)),
        )
    }
}

/// The step of a run that reconciles a candidate.
pub open spec fn on_provider(config: ConfigView, run: RunView, event: SyncEventView) -> (
    RunView,
    RunActionView,
) {
    let task = spec_task(config, run.candidates[run.position]);
    let (sync, action) = spec_reconcile(task, run.sync, event);
    match action {
        SyncActionView::List(r) => (RunView { sync, ..run }, RunActionView::List(r)),
        SyncActionView::Create(r) => (RunView { sync, ..run }, RunActionView::Create(r)),
        SyncActionView::Update(r) => (RunView { sync, ..run }, RunActionView::Update(r)),
        SyncActionView::Done(o) => to_candidate(
            config,
            run.candidates,
            run.position + 1,
            run.results.push(SyncResultView::Settled(o)),
        ),
        SyncActionView::Fail(e) => to_candidate(
            config,
            run.candidates,
            run.position + 1,
            run.results.push(SyncResultView::Failed(e)),
        ),
    }
}

/// The step of a run: how far it has come after `event` and what the caller does next.
pub open spec fn spec_step(config: ConfigView, run: RunView, event: RunEventView) -> (
    RunView,
    RunActionView,
) {
    match spec_settings(config) {
        Err(e) => (
            in_phase(run, Phase::Ended),
            RunActionView::Exit(
                if run.phase == Phase::Ended {
                    EndingView::OutOfTurn
                } else {
                    EndingView::Misconfigured(e)
                },
            ),
        ),
        Ok(settings) => match (run.phase, event) {
            (Phase::Start, RunEventView::Begin) => match settings.gate {
                GateStrategyView::Open => to_discovery(config, settings, run),
                _ => (in_phase(run, Phase::Gating), RunActionView::Observe(settings.gate)),
            },
            (Phase::Gating, RunEventView::Observed(seen)) => {
                let verdict = spec_evaluate(settings.gate, seen);
                if verdict.pass {
                    to_discovery(config, settings, run)
                } else {
                    (
                        in_phase(run, Phase::Ended),
                        RunActionView::Exit(EndingView::Vetoed(verdict.reason)),
                    )
                }
            },
            (Phase::Discovering, RunEventView::Discovered(found)) => to_candidate(
                config,
                spec_discover(config, found),
                0,
                Seq::<SyncResultView>::empty(),
            ),
            (Phase::Syncing, RunEventView::Provider(reply)) => if 0 <= run.position
                < run.candidates.len() {
                on_provider(config, run, reply)
            } else {
                (in_phase(run, Phase::Ended), RunActionView::Exit(EndingView::OutOfTurn))
            },
            _ => (in_phase(run, Phase::Ended), RunActionView::Exit(EndingView::OutOfTurn)),
        },
    }
}

/// A failure among the first results is the first failure of them all.
pub proof fn lemma_first_failure_stays(results: Seq<SyncResultView>, n: int)
    requires
        0 <= n <= results.len(),
        first_failure(results.take(n)) is Some,
    ensures
        first_failure(results) == first_failure(results.take(n)),
    decreases results.len(),
{
    if n < results.len() {
        assert(results.drop_last().take(n) =~= results.take(n));
        lemma_first_failure_stays(results.drop_last(), n);
    } else {
        assert(results.take(n) =~= results);
    }
}

/// How a run ends whose reconciliations ended with `results`: with the first
/// failure, or completed where there is none.
pub fn ending(results: &Vec<SyncResult>) -> (r: Ending)
    ensures
        r@ == spec_ending(results_view(results@)),
{
    let ghost views = results_view(results@);
    let mut i: usize = 0;
    assert(views.take(0) =~= Seq::<SyncResultView>::empty());
    while i < results.len()
        invariant
            i <= results.len(),
            views == results_view(results@),
            first_failure(views.take(i as int)) is None,
        decreases results.len() - i,
    {
        proof {
            assert(views.take(i + 1).drop_last() =~= views.take(i as int));
            assert(views.take(i + 1).last() == results@[i as int]@);
        }
        match &results[i] {
            SyncResult::Failed(e) => {
                proof {
                    lemma_first_failure_stays(views, i + 1);
                }
                return Ending::Failed(e.duplicate());
            },
            SyncResult::Settled(_) => {},
        }
        i += 1;
    }
    assert(views.take(i as int) =~= views);
    Ending::Completed
}

/// The task of reconciling a candidate.
pub fn task_of(config: &Config, candidate: &Candidate) -> (r: SyncTask)
    ensures
        r@ == spec_task(config@, candidate@),
{
    SyncTask {
        zone_id: config.zoneid.clone(),
        hostname: candidate.hostname.clone(),
        address: candidate.address,
    }
}

/// Goes on to the candidate at `position`, or ends the run where there is none.
fn go_to_candidate(
    config: &Config,
    candidates: Vec<Candidate>,
    position: usize,
    results: Vec<SyncResult>,
) -> (r: (Run, RunAction))
    ensures
        r.0@ == to_candidate(
            config@,
            candidates_view(candidates@),
            position as int,
            results_view(results@),
        ).0,
        r.1@ == to_candidate(
            config@,
            candidates_view(candidates@),
            position as int,
            results_view(results@),
        ).1,
{
    if position < candidates.len() {
        assert(candidates_view(candidates@)[position as int] == candidates@[position as int]@);
        let task = task_of(config, &candidates[position]);
        let request = list_request(&task);
        (
            Run { phase: Phase::Syncing, candidates, position, sync: SyncState::Listing, results },
            RunAction::List(request),
        )
    } else {
        let end = ending(&results);
        (
            Run { phase: Phase::Ended, candidates, position, sync: SyncState::Finished, results },
            RunAction::Exit(end),
        )
    }
}

/// Ends the run.
fn end_run(run: Run, end: Ending) -> (r: (Run, RunAction))
    ensures
        r.0@ == in_phase(run@, Phase::Ended),
        r.1@ == RunActionView::Exit(end@),
{
    (
        Run {
            phase: Phase::Ended,
            candidates: run.candidates,
            position: run.position,
            sync: run.sync,
            results: run.results,
        },
        RunAction::Exit(end),
    )
}

/// Goes on with the reconciliation under way.
fn stay(run: Run, sync: SyncState) -> (r: Run)
    ensures
        r@ == (RunView { sync, ..run@ }),
{
    Run {
        phase: run.phase,
        candidates: run.candidates,
        position: run.position,
        sync,
        results: run.results,
    }
}

impl Run {
    /// The run before it has begun.
    pub fn new() -> (r: Run)
        ensures
            r@ == spec_new(),
    {
        let r = Run {
            phase: Phase::Start,
            candidates: Vec::new(),
            position: 0,
            sync: SyncState::Ready,
            results: Vec::new(),
        };
        assert(candidates_view(r.candidates@) =~= Seq::<CandidateView>::empty());
        assert(results_view(r.results@) =~= Seq::<SyncResultView>::empty());
        r
    }

    /// Takes one step of the run: given what the caller reports, says how far the
    /// run has come and what the caller is to do next.
    ///
    /// An unusable configuration ends the run before anything is looked for.
    /// A gate that does not pass ends it before anything is discovered or asked of
    /// the provider. A report that the run was not waiting for ends it.
    pub fn step(config: &Config, run: Run, event: RunEvent) -> (r: (Run, RunAction))
        ensures
            r.0@ == spec_step(config@, run@, event@).0,
            r.1@ == spec_step(config@, run@, event@).1,
    {
        let settings = match config.settings() {
            Ok(s) => s,
            Err(e) => {
                let end = match run.phase {
                    Phase::Ended => Ending::OutOfTurn,
                    _ => Ending::Misconfigured(e),
                };
                return end_run(run, end);
            },
        };
        match event {
            RunEvent::Begin => match run.phase {
                Phase::Start => match settings.gate {
                    GateStrategy::Open => {
                        let public = wants_public(config);
                        (
                            Run {
                                phase: Phase::Discovering,
                                candidates: run.candidates,
                                position: run.position,
                                sync: run.sync,
                                results: run.results,
                            },
                            RunAction::Discover { public, allowed: settings.allowed },
                        )
                    },
                    gate => (
                        Run {
                            phase: Phase::Gating,
                            candidates: run.candidates,
                            position: run.position,
                            sync: run.sync,
                            results: run.results,
                        },
                        RunAction::Observe(gate),
                    ),
                },
                _ => end_run(run, Ending::OutOfTurn),
            },
            RunEvent::Observed(seen) => match run.phase {
                Phase::Gating => {
                    let verdict = evaluate(&settings.gate, &seen);
                    if verdict.pass {
                        let public = wants_public(config);
                        (
                            Run {
                                phase: Phase::Discovering,
                                candidates: run.candidates,
                                position: run.position,
                                sync: run.sync,
                                results: run.results,
                            },
                            RunAction::Discover { public, allowed: settings.allowed },
                        )
                    } else {
                        end_run(run, Ending::Vetoed(verdict.reason))
                    }
                },
                _ => end_run(run, Ending::OutOfTurn),
            },
            RunEvent::Discovered(found) => match run.phase {
                Phase::Discovering => {
                    let candidates = discover(config, &found);
                    let results: Vec<SyncResult> = Vec::new();
                    assert(results_view(results@) =~= Seq::<SyncResultView>::empty());
                    go_to_candidate(config, candidates, 0, results)
                },
                _ => end_run(run, Ending::OutOfTurn),
            },
            RunEvent::Provider(reply) => match run.phase {
                Phase::Syncing => {
                    if run.position >= run.candidates.len() {
                        return end_run(run, Ending::OutOfTurn);
                    }
                    assert(candidates_view(run.candidates@)[run.position as int]
                        == run.candidates@[run.position as int]@);
                    let task = task_of(config, &run.candidates[run.position]);
                    let (sync, action) = reconcile(&task, run.sync, reply);
                    match action {
                        SyncAction::List(r) => (stay(run, sync), RunAction::List(r)),
                        SyncAction::Create(r) => (stay(run, sync), RunAction::Create(r)),
                        SyncAction::Update(r) => (stay(run, sync), RunAction::Update(r)),
                        SyncAction::Done(o) => {
                            let ghost before = run.results@;
                            let mut results = run.results;
                            results.push(SyncResult::Settled(o));
                            assert(results_view(results@) =~= results_view(before).push(
                                SyncResultView::Settled(o),
                            ));
                            go_to_candidate(config, run.candidates, run.position + 1, results)
                        },
                        SyncAction::Fail(e) => {
                            let ghost before = run.results@;
                            let ghost error = e@;
                            let mut results = run.results;
                            results.push(SyncResult::Failed(e));
                            assert(results_view(results@) =~= results_view(before).push(
                                SyncResultView::Failed(error),
                            ));
                            go_to_candidate(config, run.candidates, run.position + 1, results)
                        },
                    }
                },
                _ => end_run(run, Ending::OutOfTurn),
            },
        }
    }
}

/// A gate that does not pass ends the run at once with the status `Vetoed`:
/// whatever was found out, if the configured gate does not pass on it, the step
/// after the observation is the exit, and the exit code is neither that of a
/// completed nor that of a failed run.
pub proof fn law_gate_veto(config: ConfigView, run: RunView, seen: ObservationView)
    requires
        run.phase == Phase::Gating,
        spec_settings(config) matches Ok(settings) && !spec_evaluate(settings.gate, seen).pass,
    ensures
        spec_step(config, run, RunEventView::Observed(seen)).0.phase == Phase::Ended,
        spec_step(config, run, RunEventView::Observed(seen)).1 matches RunActionView::Exit(end)
            && end is Vetoed && end.status() == ExitStatus::Vetoed,
        ExitStatus::Vetoed.spec_code() != ExitStatus::Completed.spec_code(),
        ExitStatus::Vetoed.spec_code() != ExitStatus::Failed.spec_code(),
{
}

/// On another wireless network than the expected one, or where the network
/// cannot be told, the run does nothing but look at the network: its first step
/// asks for the network's name, and its second is the exit with the status `Vetoed`.
pub proof fn law_wrong_network_vetoes(
    config: ConfigView,
    expected: Seq<char>,
    detected: Option<Seq<char>>,
)
    requires
        config.ssid == Some(expected),
        config.home is None,
        spec_settings(config) is Ok,
        detected != Some(expected),
    ensures
        spec_step(config, spec_new(), RunEventView::Begin) == (
            in_phase(spec_new(), Phase::Gating),
            RunActionView::Observe(GateStrategyView::Ssid(expected)),
        ),
        spec_step(
            config,
            in_phase(spec_new(), Phase::Gating),
            RunEventView::Observed(ObservationView::Ssid(detected)),
        ) == (
            in_phase(spec_new(), Phase::Ended),
            RunActionView::Exit(
                EndingView::Vetoed(
                    if detected is None {
                        GateReason::SsidUndetected
                    } else {
                        GateReason::SsidDiffers
                    },
                ),
            ),
        ),
{
}

/// A run that has ended stays ended and asks for nothing more.
pub proof fn law_ended_stays_ended(config: ConfigView, run: RunView, event: RunEventView)
    requires
        run.phase == Phase::Ended,
    ensures
        spec_step(config, run, event).0.phase == Phase::Ended,
        !spec_step(config, run, event).1.is_work(),
{
}

/// Nothing is discovered before the network gate has passed: a step asks for discovery
/// only at the start of a run without a gate, or in answer to an observation on
/// which the configured gate passes.
pub proof fn law_discovery_needs_open_gate(config: ConfigView, run: RunView, event: RunEventView)
    requires
        spec_step(config, run, event).1 is Discover || spec_step(config, run, event).0.phase
            == Phase::Discovering,
    ensures
        spec_settings(config) is Ok,
        (run.phase == Phase::Start && event == RunEventView::Begin && spec_settings(
            config,
        )->Ok_0.gate == GateStrategyView::Open) || (run.phase == Phase::Gating && event is Observed
            && spec_evaluate(spec_settings(config)->Ok_0.gate, event->Observed_0).pass),
{
}

/// Nothing is asked of the provider before the discovery: a step asks the
/// provider, or leaves the run reconciling, only in answer to what was
/// discovered or to what the provider replied.
pub proof fn law_provider_call_needs_discovery(
    config: ConfigView,
    run: RunView,
    event: RunEventView,
)
    requires
        spec_step(config, run, event).1.is_provider_call() || spec_step(config, run, event).0.phase
            == Phase::Syncing,
    ensures
        (run.phase == Phase::Discovering && event is Discovered) || (run.phase == Phase::Syncing
            && event is Provider),
{
}

/// Where looking at the interface failed and the echo service over IPv6
/// answered, the run goes on as ever: with no name for the public address
/// configured, the answer is the only candidate and its records are listed next.
pub proof fn law_partial_discovery_proceeds(
    config: ConfigView,
    run: RunView,
    found: FindingsView,
    a: crate::address::Address,
)
    requires
        run.phase == Phase::Discovering,
        spec_settings(config) is Ok,
        config.public is None,
        found.local is None,
        found.global == Some(a),
    ensures
        spec_step(config, run, RunEventView::Discovered(found)) == (
            (RunView {
                phase: Phase::Syncing,
                candidates: seq![
                    CandidateView {
                        purpose: crate::discover::Purpose::IPv6Global,
                        address: a,
                        hostname: config.hostname,
                    },
                ],
                position: 0,
                sync: SyncState::Listing,
                results: Seq::<SyncResultView>::empty(),
            }),
            RunActionView::List(
                (ListRequestView {
                    zone_id: config.zoneid,
                    name: config.hostname,
                    record_type: a.spec_family(),
                }),
            ),
        ),
{
    crate::discover::law_partial_discovery(config, found, a);
}

/// A reconciliation that fails does not keep the later ones from being tried:
/// where the provider's reply ends the reconciliation of a candidate that is not
/// the last, the records of the next candidate are listed, whether the
/// reconciliation succeeded or failed.
pub proof fn law_failure_does_not_stop(config: ConfigView, run: RunView, reply: SyncEventView)
    requires
        run.phase == Phase::Syncing,
        spec_settings(config) is Ok,
        0 <= run.position,
        run.position + 1 < run.candidates.len(),
        !spec_reconcile(
            spec_task(config, run.candidates[run.position]),
            run.sync,
            reply,
        ).1.is_request(),
    ensures
        spec_step(config, run, RunEventView::Provider(reply)).0.phase == Phase::Syncing,
        spec_step(config, run, RunEventView::Provider(reply)).0.position == run.position + 1,
        spec_step(config, run, RunEventView::Provider(reply)).0.results.len() == run.results.len()
            + 1,
        spec_step(config, run, RunEventView::Provider(reply)).1 == RunActionView::List(
            spec_list_request(spec_task(config, run.candidates[run.position + 1])),
        ),
{
}

/// A run that reconciled ends as `Failed` with the first failure where a
/// reconciliation failed, and as `Completed`, with exit code 0, where none did.
pub proof fn law_first_failure_is_reported(results: Seq<SyncResultView>, i: int)
    ensures
        (forall|j: int| 0 <= j < results.len() ==> (#[trigger] results[j]) is Settled)
            ==> spec_ending(results) == EndingView::Completed && spec_ending(
            results,
        ).status().spec_code() == 0,
        (0 <= i < results.len() && results[i] is Failed && (forall|j: int|
            0 <= j < i ==> (#[trigger] results[j]) is Settled)) ==> spec_ending(results)
            == EndingView::Failed(results[i]->Failed_0) && spec_ending(results).status()
            == ExitStatus::Failed,
    decreases results.len(),
{
    if results.len() > 0 {
        let front = results.drop_last();
        law_first_failure_is_reported(front, i);
        if forall|j: int| 0 <= j < results.len() ==> (#[trigger] results[j]) is Settled {
            assert forall|j: int| 0 <= j < front.len() implies (#[trigger] front[j]) is Settled by {
                assert(front[j] == results[j]);
            }
        }
        if 0 <= i < results.len() && results[i] is Failed && (forall|j: int|
            0 <= j < i ==> (#[trigger] results[j]) is Settled) {
            if i < front.len() {
                assert(front[i] == results[i]);
                assert forall|j: int| 0 <= j < i implies (#[trigger] front[j]) is Settled by {
                    assert(front[j] == results[j]);
                }
            } else {
                assert forall|j: int| 0 <= j < front.len() implies (
                #[trigger] front[j]) is Settled by {
                    assert(front[j] == results[j]);
                }
            }
        }
    }
}

} // verus!
