//! The start-up sequence that makes a local `lomord` ready: probe, and if
//! the server is down, locate its binary, run `lomord start`, then poll the
//! health endpoint until it answers or time runs out. The sequence is a state
//! machine; its caller performs each action (probing, searching, spawning,
//! sleeping) and reports the outcome back as an event.

use vstd::prelude::*;

use crate::text::{decimal, push_decimal};

verus! {

/// Milliseconds between two health probes while waiting for the server.
pub const HEALTH_POLL_INTERVAL_MS: u64 = 2000;

/// Milliseconds the server is given to become ready after `lomord start`.
pub const READY_TIMEOUT_MS: u64 = 120000;

/// The kind of `std::io::Error` a failed start-up ends with.
#[verifier::external_type_specification]
#[verifier::external_body]
pub struct ExIoErrorKind(std::io::ErrorKind);

/// Why the server could not be made ready.
#[derive(Debug, PartialEq)]
pub enum ReadyErrorKind {
    /// No `lomord` binary was found.
    NotFound,
    /// The server did not answer the health check in time.
    TimedOut,
    /// Spawning or waiting for `lomord start` failed with this kind.
    Start(std::io::ErrorKind),
}

/// The error that ends an unsuccessful start-up: a kind and a message.
#[derive(Debug, PartialEq)]
pub struct ReadyError {
    pub kind: ReadyErrorKind,
    pub message: String,
}

/// How running `lomord start` went wrong; `detail` renders the I/O error.
#[derive(Debug, PartialEq)]
pub enum StartFailure {
    /// The process could not be spawned.
    Spawn { kind: std::io::ErrorKind, detail: String },
    /// Waiting for the spawned process failed.
    Wait { kind: std::io::ErrorKind, detail: String },
}

/// What the caller reports back after performing an action.
#[derive(Debug, PartialEq)]
pub enum ReadinessEvent {
    /// A health probe finished; `now_ms` reads the monotonic clock afterwards.
    Probed { healthy: bool, now_ms: u64 },
    /// The binary search finished.
    Located { binary: Option<String> },
    /// `lomord start` was spawned and has exited; `now_ms` reads the clock.
    Started { now_ms: u64 },
    /// `lomord start` could not be run.
    StartFailed { failure: StartFailure },
}

/// What the caller is to do next.
#[derive(Debug, PartialEq)]
pub enum ReadinessAction {
    /// Probe the health endpoint now.
    Probe,
    /// Search for the server binary.
    Locate,
    /// Run `{binary} start` and wait for it to exit.
    Start { binary: String },
    /// Sleep `ms` milliseconds, then probe the health endpoint.
    SleepThenProbe { ms: u64 },
    /// Stop with this result.
    Finish { result: Result<(), ReadyError> },
}

/// Where the start-up sequence stands.
#[derive(Debug, PartialEq)]
pub enum ReadinessPhase {
    /// Waiting for the first, fast-path probe.
    FirstProbe,
    /// Waiting for the binary search.
    Locating,
    /// Waiting for `lomord start` to run.
    Starting { binary: String },
    /// Polling the health endpoint until `deadline_ms`.
    Polling { deadline_ms: u64 },
    /// The sequence has ended.
    Finished,
}

/// The state of one start-up sequence.
#[derive(Debug, PartialEq)]
pub struct Readiness {
    pub phase: ReadinessPhase,
}

// ── The mathematical model ─────────────────────────────────────────────────

pub struct ReadyErrorView {
    pub kind: ReadyErrorKind,
    pub message: Seq<char>,
}

pub enum StartFailureView {
    Spawn { kind: std::io::ErrorKind, detail: Seq<char> },
    Wait { kind: std::io::ErrorKind, detail: Seq<char> },
}

pub enum EventView {
    Probed { healthy: bool, now_ms: u64 },
    Located { binary: Option<Seq<char>> },
    Started { now_ms: u64 },
    StartFailed { failure: StartFailureView },
}

pub enum ActionView {
    Probe,
    Locate,
    Start { binary: Seq<char> },
    SleepThenProbe { ms: u64 },
    Finish { result: Result<(), ReadyErrorView> },
}

pub enum PhaseView {
    FirstProbe,
    Locating,
    Starting { binary: Seq<char> },
    Polling { deadline_ms: u64 },
    Finished,
}

impl View for ReadyError {
    type V = ReadyErrorView;

    open spec fn view(&self) -> ReadyErrorView {
        ReadyErrorView { kind: self.kind, message: self.message@ }
    }
}

impl View for ReadinessEvent {
    type V = EventView;

    open spec fn view(&self) -> EventView {
        match self {
            ReadinessEvent::Probed { healthy, now_ms } => EventView::Probed { healthy: *healthy, now_ms: *now_ms },
            ReadinessEvent::Located { binary } => EventView::Located {
                binary: match binary {
                    Some(b) => Some(b@),
                    None => None,
                },
            },
            ReadinessEvent::Started { now_ms } => EventView::Started { now_ms: *now_ms },
            ReadinessEvent::StartFailed { failure } => EventView::StartFailed {
                failure: match failure {
                    StartFailure::Spawn { kind, detail } => StartFailureView::Spawn { kind: *kind, detail: detail@ },
                    StartFailure::Wait { kind, detail } => StartFailureView::Wait { kind: *kind, detail: detail@ },
                },
            },
        }
    }
}

impl View for ReadinessAction {
    type V = ActionView;

    open spec fn view(&self) -> ActionView {
        match self {
            ReadinessAction::Probe => ActionView::Probe,
            ReadinessAction::Locate => ActionView::Locate,
            ReadinessAction::Start { binary } => ActionView::Start { binary: binary@ },
            ReadinessAction::SleepThenProbe { ms } => ActionView::SleepThenProbe { ms: *ms },
            ReadinessAction::Finish { result } => ActionView::Finish {
                result: match result {
                    Ok(()) => Ok(()),
                    Err(e) => Err(e@),
                },
            },
        }
    }
}

impl View for ReadinessPhase {
    type V = PhaseView;

    open spec fn view(&self) -> PhaseView {
        match self {
            ReadinessPhase::FirstProbe => PhaseView::FirstProbe,
            ReadinessPhase::Locating => PhaseView::Locating,
            ReadinessPhase::Starting { binary } => PhaseView::Starting { binary: binary@ },
            ReadinessPhase::Polling { deadline_ms } => PhaseView::Polling { deadline_ms: *deadline_ms },
            ReadinessPhase::Finished => PhaseView::Finished,
        }
    }
}

/// Message when no binary is found.
pub open spec fn not_found_message() -> Seq<char> {
    "cannot find lomord binary \u{2014} ensure it is on PATH, at ~/.local/bin/lomord, or at ~/projects/lomor/target/release/lomord"@
}

/// Message when `lomord start` cannot be spawned.
pub open spec fn spawn_failed_message(binary: Seq<char>, detail: Seq<char>) -> Seq<char> {
    "failed to spawn "@ + binary + ": "@ + detail
}

/// Message when waiting for `lomord start` fails.
pub open spec fn wait_failed_message(detail: Seq<char>) -> Seq<char> {
    "lomord start failed: "@ + detail
}

/// Message when the server is not ready in time.
pub open spec fn timed_out_message() -> Seq<char> {
    "lomord did not become ready within "@ + decimal((READY_TIMEOUT_MS / 1000) as nat)
        + " seconds; check lomord logs for startup errors"@
}

/// Whether `event` answers the action that `phase` is waiting on.
pub open spec fn accepts(phase: PhaseView, event: EventView) -> bool {
    match phase {
        PhaseView::FirstProbe => event is Probed,
        PhaseView::Locating => event is Located,
        PhaseView::Starting { .. } => event is Started || event is StartFailed,
        PhaseView::Polling { .. } => event is Probed,
        PhaseView::Finished => false,
    }
}

/// Ending the sequence with `result`.
pub open spec fn finish(result: Result<(), ReadyErrorView>) -> (PhaseView, ActionView) {
    (PhaseView::Finished, ActionView::Finish { result })
}

/// Ending the sequence with an error of `kind` and `message`.
pub open spec fn fail(kind: ReadyErrorKind, message: Seq<char>) -> (PhaseView, ActionView) {
    finish(Err(ReadyErrorView { kind, message }))
}

/// The next phase and action after `event` arrives in `phase`.
///
/// - First probe: healthy ends with success at once, otherwise the binary is
///   searched for.
/// - Binary search: none found ends with `NotFound`, otherwise it is started.
/// - Start: a spawn or wait failure ends with its kind; success sets the
///   deadline `READY_TIMEOUT_MS` after now, and polling begins.
/// - Polling: healthy ends with success; otherwise, before the deadline the
///   next probe follows `HEALTH_POLL_INTERVAL_MS` later, and at or after it
///   the sequence ends with `TimedOut`.
pub open spec fn transition(phase: PhaseView, event: EventView) -> (PhaseView, ActionView) {
    match (phase, event) {
        (PhaseView::FirstProbe, EventView::Probed { healthy, .. }) => if healthy {
            finish(Ok(()))
        } else {
            (PhaseView::Locating, ActionView::Locate)
        },
        (PhaseView::Locating, EventView::Located { binary }) => match binary {
            Some(b) => (PhaseView::Starting { binary: b }, ActionView::Start { binary: b }),
            None => fail(ReadyErrorKind::NotFound, not_found_message()),
        },
        (PhaseView::Starting { .. }, EventView::Started { now_ms }) => (
            PhaseView::Polling { deadline_ms: (now_ms + READY_TIMEOUT_MS) as u64 },
            ActionView::SleepThenProbe { ms: HEALTH_POLL_INTERVAL_MS },
        ),
        (PhaseView::Starting { binary }, EventView::StartFailed { failure }) => match failure {
            StartFailureView::Spawn { kind, detail } => fail(
                ReadyErrorKind::Start(kind),
                spawn_failed_message(binary, detail),
            ),
            StartFailureView::Wait { kind, detail } => fail(
                ReadyErrorKind::Start(kind),
                wait_failed_message(detail),
            ),
        },
        (PhaseView::Polling { deadline_ms }, EventView::Probed { healthy, now_ms }) => if healthy {
            finish(Ok(()))
        } else if now_ms < deadline_ms {
            (PhaseView::Polling { deadline_ms }, ActionView::SleepThenProbe { ms: HEALTH_POLL_INTERVAL_MS })
        } else {
            fail(ReadyErrorKind::TimedOut, timed_out_message())
        },
        _ => (phase, ActionView::Probe),
    }
}

impl Readiness {
    /// Begins a start-up sequence: the first action is a health probe, so a
    /// server that is already up is used as it is.
    pub fn new() -> (start: (Readiness, ReadinessAction))
        ensures
            start.0.phase@ == PhaseView::FirstProbe,
            start.1@ == ActionView::Probe,
    {
        (Readiness { phase: ReadinessPhase::FirstProbe }, ReadinessAction::Probe)
    }

    /// Whether the sequence has ended.
    pub fn is_finished(&self) -> (finished: bool)
        ensures
            finished == (self.phase@ == PhaseView::Finished),
    {
        match self.phase {
            ReadinessPhase::Finished => true,
            _ => false,
        }
    }

    /// Whether `event` answers the action this state is waiting on.
    pub fn accepts(&self, event: &ReadinessEvent) -> (accepted: bool)
        ensures
            accepted == accepts(self.phase@, event@),
    {
        match (&self.phase, event) {
            (ReadinessPhase::FirstProbe, ReadinessEvent::Probed { .. }) => true,
            (ReadinessPhase::Locating, ReadinessEvent::Located { .. }) => true,
            (ReadinessPhase::Starting { .. }, ReadinessEvent::Started { .. }) => true,
            (ReadinessPhase::Starting { .. }, ReadinessEvent::StartFailed { .. }) => true,
            (ReadinessPhase::Polling { .. }, ReadinessEvent::Probed { .. }) => true,
            _ => false,
        }
    }

    /// Advances the sequence by the outcome of the last action.
    pub fn step(self, event: ReadinessEvent) -> (next: (Readiness, ReadinessAction))
        requires
            accepts(self.phase@, event@),
            event matches ReadinessEvent::Started { now_ms } ==> now_ms + READY_TIMEOUT_MS <= u64::MAX,
        ensures
            (next.0.phase@, next.1@) == transition(self.phase@, event@),
    {
        match (self.phase, event) {
            (ReadinessPhase::FirstProbe, ReadinessEvent::Probed { healthy, .. }) => {
                if healthy {
                    (Readiness { phase: ReadinessPhase::Finished }, ReadinessAction::Finish { result: Ok(()) })
                } else {
                    (Readiness { phase: ReadinessPhase::Locating }, ReadinessAction::Locate)
                }
            },
            (ReadinessPhase::Locating, ReadinessEvent::Located { binary }) => match binary {
                Some(b) => {
                    let shown = b.clone();
                    (Readiness { phase: ReadinessPhase::Starting { binary: b } }, ReadinessAction::Start {
                        binary: shown,
                    })
                },
                None => {
                    let e = ReadyError { kind: ReadyErrorKind::NotFound, message: not_found_text() };
                    (Readiness { phase: ReadinessPhase::Finished }, ReadinessAction::Finish { result: Err(e) })
                },
            },
            (ReadinessPhase::Starting { .. }, ReadinessEvent::Started { now_ms }) => {
                let deadline_ms = now_ms + READY_TIMEOUT_MS;
                (Readiness { phase: ReadinessPhase::Polling { deadline_ms } }, ReadinessAction::SleepThenProbe {
                    ms: HEALTH_POLL_INTERVAL_MS,
                })
            },
            (ReadinessPhase::Starting { binary }, ReadinessEvent::StartFailed { failure }) => {
                let e = match failure {
                    StartFailure::Spawn { kind, detail } => {
                        let mut message = String::from_str("failed to spawn ");
                        message.append(binary.as_str());
                        message.append(": ");
                        message.append(detail.as_str());
                        ReadyError { kind: ReadyErrorKind::Start(kind), message }
                    },
                    StartFailure::Wait { kind, detail } => {
                        let mut message = String::from_str("lomord start failed: ");
                        message.append(detail.as_str());
                        ReadyError { kind: ReadyErrorKind::Start(kind), message }
                    },
                };
                (Readiness { phase: ReadinessPhase::Finished }, ReadinessAction::Finish { result: Err(e) })
            },
            (ReadinessPhase::Polling { deadline_ms }, ReadinessEvent::Probed { healthy, now_ms }) => {
                if healthy {
                    (Readiness { phase: ReadinessPhase::Finished }, ReadinessAction::Finish { result: Ok(()) })
                } else if now_ms < deadline_ms {
                    (Readiness { phase: ReadinessPhase::Polling { deadline_ms } }, ReadinessAction::SleepThenProbe {
                        ms: HEALTH_POLL_INTERVAL_MS,
                    })
                } else {
                    let e = ReadyError { kind: ReadyErrorKind::TimedOut, message: timed_out_text() };
                    (Readiness { phase: ReadinessPhase::Finished }, ReadinessAction::Finish { result: Err(e) })
                }
            },
            (phase, _) => {
                proof {
                    assert(false);
                }
                (Readiness { phase }, ReadinessAction::Probe)
            },
        }
    }
}

fn not_found_text() -> (message: String)
    ensures
        message@ == not_found_message(),
{
    String::from_str(
        "cannot find lomord binary \u{2014} ensure it is on PATH, at ~/.local/bin/lomord, or at ~/projects/lomor/target/release/lomord",
    )
}

fn timed_out_text() -> (message: String)
    ensures
        message@ == timed_out_message(),
{
    let mut message = String::from_str("lomord did not become ready within ");
    push_decimal(&mut message, (READY_TIMEOUT_MS / 1000) as u32);
    message.append(" seconds; check lomord logs for startup errors");
    message
}

// ── Laws ───────────────────────────────────────────────────────────────────

/// The first probe: a server that answers is used as it is, and the
/// sequence ends successfully without searching for, or starting, a binary;
/// otherwise the binary is searched for.
pub proof fn lemma_running_server_is_used(now_ms: u64)
    ensures
        transition(PhaseView::FirstProbe, EventView::Probed { healthy: true, now_ms }) == (
            PhaseView::Finished,
            ActionView::Finish { result: Ok(()) },
        ),
        transition(PhaseView::FirstProbe, EventView::Probed { healthy: false, now_ms }) == (
            PhaseView::Locating,
            ActionView::Locate,
        ),
{
}

/// The binary that is found is the one started; none found ends the
/// sequence with `NotFound`.
pub proof fn lemma_located_binary_is_started(binary: Seq<char>)
    ensures
        transition(PhaseView::Locating, EventView::Located { binary: Some(binary) }) == (
            PhaseView::Starting { binary },
            ActionView::Start { binary },
        ),
        transition(PhaseView::Locating, EventView::Located { binary: None }) == (
            PhaseView::Finished,
            ActionView::Finish {
                result: Err(
                    ReadyErrorView {
                        kind: ReadyErrorKind::NotFound,
                        message: "cannot find lomord binary \u{2014} ensure it is on PATH, at ~/.local/bin/lomord, or at ~/projects/lomor/target/release/lomord"@,
                    },
                ),
            },
        ),
{
}

/// After `lomord start` exits, polling begins with a deadline 120 s later and
/// a first probe 2 s later; a failure to spawn or to wait ends the sequence
/// with the I/O error's kind and a message naming the binary or the cause.
pub proof fn lemma_start_outcome(binary: Seq<char>, now_ms: u64, kind: std::io::ErrorKind, detail: Seq<char>)
    ensures
        now_ms + 120000 <= u64::MAX ==> transition(
            PhaseView::Starting { binary },
            EventView::Started { now_ms },
        ) == (PhaseView::Polling { deadline_ms: (now_ms + 120000) as u64 }, ActionView::SleepThenProbe { ms: 2000 }),
        transition(
            PhaseView::Starting { binary },
            EventView::StartFailed { failure: StartFailureView::Spawn { kind, detail } },
        ) == (
            PhaseView::Finished,
            ActionView::Finish {
                result: Err(
                    ReadyErrorView {
                        kind: ReadyErrorKind::Start(kind),
                        message: "failed to spawn "@ + binary + ": "@ + detail,
                    },
                ),
            },
        ),
        transition(
            PhaseView::Starting { binary },
            EventView::StartFailed { failure: StartFailureView::Wait { kind, detail } },
        ) == (
            PhaseView::Finished,
            ActionView::Finish {
                result: Err(ReadyErrorView { kind: ReadyErrorKind::Start(kind), message: "lomord start failed: "@ + detail }),
            },
        ),
{
}

/// Success is only ever reported right after a healthy probe.
pub proof fn lemma_success_only_after_healthy_probe(phase: PhaseView, event: EventView)
    requires
        transition(phase, event).1 == (ActionView::Finish { result: Ok(()) }),
    ensures
        event matches EventView::Probed { healthy, .. } && healthy,
{
}

/// While polling, a healthy probe ends the sequence with success whatever
/// the clock reads; an unhealthy probe before the deadline is followed by
/// another 2 s later with the deadline unchanged, and one at or after the
/// deadline ends the sequence with `TimedOut`.
pub proof fn lemma_polling_is_bounded(deadline_ms: u64, now_ms: u64)
    ensures
        transition(PhaseView::Polling { deadline_ms }, EventView::Probed { healthy: true, now_ms }) == (
            PhaseView::Finished,
            ActionView::Finish { result: Ok(()) },
        ),
        now_ms < deadline_ms ==> transition(
            PhaseView::Polling { deadline_ms },
            EventView::Probed { healthy: false, now_ms },
        ) == (PhaseView::Polling { deadline_ms }, ActionView::SleepThenProbe { ms: 2000 }),
        now_ms >= deadline_ms ==> transition(
            PhaseView::Polling { deadline_ms },
            EventView::Probed { healthy: false, now_ms },
        ) == (
            PhaseView::Finished,
            ActionView::Finish {
                result: Err(
                    ReadyErrorView {
                        kind: ReadyErrorKind::TimedOut,
                        message: "lomord did not become ready within "@ + decimal(120)
                            + " seconds; check lomord logs for startup errors"@,
                    },
                ),
            },
        ),
{
}

/// Every action the sequence asks for can be answered: the start expects a
/// probe; a probe or a sleep-then-probe is answered by any probe outcome, a
/// search by any search outcome, a start by its success or any failure; and
/// after `Finish` the sequence is over and accepts nothing.
pub proof fn lemma_every_action_is_answerable(phase: PhaseView, event: EventView)
    ensures
        forall|h: bool, t: u64| #[trigger] accepts(PhaseView::FirstProbe, EventView::Probed { healthy: h, now_ms: t }),
        accepts(phase, event) && (transition(phase, event).1 is Probe || transition(phase, event).1 is SleepThenProbe)
            ==> forall|h: bool, t: u64|
            #[trigger] accepts(transition(phase, event).0, EventView::Probed { healthy: h, now_ms: t }),
        accepts(phase, event) && transition(phase, event).1 is Locate ==> forall|b: Option<Seq<char>>|
            #[trigger] accepts(transition(phase, event).0, EventView::Located { binary: b }),
        accepts(phase, event) && transition(phase, event).1 is Start ==> (forall|t: u64|
            #[trigger] accepts(transition(phase, event).0, EventView::Started { now_ms: t })) && (forall|
            f: StartFailureView,
        | #[trigger] accepts(transition(phase, event).0, EventView::StartFailed { failure: f })),
        accepts(phase, event) && transition(phase, event).1 is Finish ==> transition(phase, event).0
            == PhaseView::Finished && forall|e: EventView| !#[trigger] accepts(transition(phase, event).0, e),
{
}

/// Over any run, whatever events arrive: the sequence ends with its first
/// `Finish`, nothing is asked for after it, and a `Finish` with success is
/// always the answer to a healthy probe. So a run in which no probe is
/// healthy never reports success.
pub proof fn lemma_run_succeeds_only_on_healthy_probe(phase: PhaseView, events: Seq<EventView>)
    ensures
        run(phase, events).1.len() <= events.len(),
        forall|k: int|
            0 <= k < run(phase, events).1.len() && #[trigger] run(phase, events).1[k] is Finish
                ==> k == run(phase, events).1.len() - 1,
        forall|k: int|
            0 <= k < run(phase, events).1.len() && #[trigger] run(phase, events).1[k] == (ActionView::Finish {
                result: Ok(()),
            }) ==> (events[k] matches EventView::Probed { healthy, .. } && healthy),
    decreases events.len(),
{
    if events.len() > 0 && accepts(phase, events[0]) {
        let (next, action) = transition(phase, events[0]);
        let rest = events.drop_first();
        let tail = run(next, rest).1;
        lemma_run_succeeds_only_on_healthy_probe(next, rest);
        let actions = run(phase, events).1;
        assert(actions =~= seq![action] + tail);
        if action is Finish {
            assert(next == PhaseView::Finished);
            assert(tail.len() == 0);
        }
        assert forall|k: int|
            0 <= k < actions.len() && #[trigger] actions[k] == (ActionView::Finish { result: Ok(()) })
                implies (events[k] matches EventView::Probed { healthy, .. } && healthy) by {
            if k == 0 {
                lemma_success_only_after_healthy_probe(phase, events[0]);
            } else {
                assert(actions[k] == tail[k - 1]);
                assert(rest[k - 1] == events[k]);
            }
        }
        assert forall|k: int| 0 <= k < actions.len() && #[trigger] actions[k] is Finish implies k == actions.len()
            - 1 by {
            if k > 0 {
                assert(actions[k] == tail[k - 1]);
                assert(!(action is Finish));
            }
        }
    }
}

/// How far along the sequence a phase is.
pub open spec fn rank(phase: PhaseView) -> nat {
    match phase {
        PhaseView::FirstProbe => 0,
        PhaseView::Locating => 1,
        PhaseView::Starting { .. } => 2,
        PhaseView::Polling { .. } => 3,
        PhaseView::Finished => 4,
    }
}

/// The actions a sequence asks for while `events` arrive in `phase`, as long
/// as each event answers the action asked for; and the phase it ends in.
pub open spec fn run(phase: PhaseView, events: Seq<EventView>) -> (PhaseView, Seq<ActionView>)
    decreases events.len(),
{
    if events.len() == 0 || !accepts(phase, events[0]) {
        (phase, seq![])
    } else {
        let (next, action) = transition(phase, events[0]);
        let (last, actions) = run(next, events.drop_first());
        (last, seq![action] + actions)
    }
}

/// The number of `Start` actions in `actions`.
pub open spec fn starts(actions: Seq<ActionView>) -> nat
    decreases actions.len(),
{
    if actions.len() == 0 {
        0
    } else {
        (if actions[0] is Start { 1nat } else { 0nat }) + starts(actions.drop_first())
    }
}

proof fn lemma_transition_advances(phase: PhaseView, event: EventView)
    requires
        accepts(phase, event),
    ensures
        rank(transition(phase, event).0) >= rank(phase),
        transition(phase, event).1 is Start ==> rank(phase) == 1 && rank(transition(phase, event).0) == 2,
        rank(phase) >= 2 ==> rank(transition(phase, event).0) >= 3 || transition(phase, event).0 == phase,
        rank(phase) >= 2 ==> !(transition(phase, event).1 is Start),
{
}

proof fn lemma_no_start_after_locating(phase: PhaseView, events: Seq<EventView>)
    requires
        rank(phase) >= 2,
    ensures
        starts(run(phase, events).1) == 0,
    decreases events.len(),
{
    if events.len() > 0 && accepts(phase, events[0]) {
        lemma_transition_advances(phase, events[0]);
        lemma_no_start_after_locating(transition(phase, events[0]).0, events.drop_first());
        let (next, action) = transition(phase, events[0]);
        assert((seq![action] + run(next, events.drop_first()).1).drop_first() =~= run(next, events.drop_first()).1);
    }
}

/// Whatever events arrive, a start-up sequence runs `lomord start` at most
/// once.
pub proof fn lemma_server_started_at_most_once(phase: PhaseView, events: Seq<EventView>)
    requires
        rank(phase) <= 1,
    ensures
        starts(run(phase, events).1) <= 1,
    decreases events.len(),
{
    if events.len() > 0 && accepts(phase, events[0]) {
        let (next, action) = transition(phase, events[0]);
        let rest = run(next, events.drop_first()).1;
        lemma_transition_advances(phase, events[0]);
        assert((seq![action] + rest).drop_first() =~= rest);
        if action is Start {
            lemma_no_start_after_locating(next, events.drop_first());
        } else if rank(next) <= 1 {
            lemma_server_started_at_most_once(next, events.drop_first());
        } else {
            lemma_no_start_after_locating(next, events.drop_first());
        }
    }
}

} // verus!
