//! Keeping a session alive: run it, wait, run it again.
//!
//! The supervisor decides; whoever runs it performs each action and reports what
//! came of it.
use vstd::prelude::*;

verus! {

/// How long to wait before a session is run again, in seconds, so that an
/// unreachable remote is not asked in a tight loop.
pub const RECONNECT_DELAY_SECS: u64 = 2;

/// What a supervisor waits for.
#[derive(Debug, Clone, Copy, PartialEq, Eq, Structural)]
pub enum SupervisorPhase {
    /// For the session to end.
    Running,
    /// For whether anyone still listens, before the delay.
    CheckingBefore,
    /// For the delay.
    Sleeping,
    /// For whether anyone still listens, after the delay.
    CheckingAfter,
    /// For nothing: it has stopped.
    Stopped,
}

/// What came of an action.
#[derive(Debug, Clone, Copy, PartialEq, Eq, Structural)]
pub enum SupervisorEvent {
    /// The session ended, cleanly or with a failure.
    SessionEnded,
    /// The task that ran the session panicked.
    SessionPanicked,
    /// Whether anyone still listens.
    Listening { open: bool },
    /// The delay is over.
    Slept,
}

/// What to do next.
#[derive(Debug, Clone, Copy, PartialEq, Eq, Structural)]
pub enum SupervisorAction {
    RunSession,
    CheckListening,
    Sleep { seconds: u64 },
    Stop,
}

/// Whether an event is what a phase waits for.
pub open spec fn supervisor_answers(phase: SupervisorPhase, event: SupervisorEvent) -> bool {
    match phase {
        SupervisorPhase::Running => event is SessionEnded || event is SessionPanicked,
        SupervisorPhase::CheckingBefore => event is Listening,
        SupervisorPhase::Sleeping => event is Slept,
        SupervisorPhase::CheckingAfter => event is Listening,
        SupervisorPhase::Stopped => false,
    }
}

/// What a supervisor does when it learns what came of its last action, and what
/// it waits for then.
pub open spec fn supervisor_step(phase: SupervisorPhase, event: SupervisorEvent) -> (
    SupervisorPhase,
    SupervisorAction,
) {
    match (phase, event) {
        (SupervisorPhase::Running, SupervisorEvent::SessionEnded) => (
            SupervisorPhase::CheckingBefore,
            SupervisorAction::CheckListening,
        ),
        (SupervisorPhase::CheckingBefore, SupervisorEvent::Listening { open: true }) => (
            SupervisorPhase::Sleeping,
            SupervisorAction::Sleep { seconds: RECONNECT_DELAY_SECS },
        ),
        (SupervisorPhase::Sleeping, SupervisorEvent::Slept) => (
            SupervisorPhase::CheckingAfter,
            SupervisorAction::CheckListening,
        ),
        (SupervisorPhase::CheckingAfter, SupervisorEvent::Listening { open: true }) => (
            SupervisorPhase::Running,
            SupervisorAction::RunSession,
        ),
        _ => (SupervisorPhase::Stopped, SupervisorAction::Stop),
    }
}

/// A supervisor.
#[derive(Debug)]
pub struct Supervisor {
    phase: SupervisorPhase,
}

impl View for Supervisor {
    type V = SupervisorPhase;

    closed spec fn view(&self) -> SupervisorPhase {
        self.phase
    }
}

impl Supervisor {
    /// A supervisor whose first action is to run the session.
    pub fn start() -> (r: (Supervisor, SupervisorAction))
        ensures
            r.0@ == SupervisorPhase::Running,
            r.1 == SupervisorAction::RunSession,
    {
        (Supervisor { phase: SupervisorPhase::Running }, SupervisorAction::RunSession)
    }

    /// Whether an event is what the supervisor waits for.
    pub fn awaits(&self, event: SupervisorEvent) -> (r: bool)
        ensures
            r == supervisor_answers(self@, event),
    {
        match self.phase {
            SupervisorPhase::Running => matches!(
                event,
                SupervisorEvent::SessionEnded | SupervisorEvent::SessionPanicked
            ),
            SupervisorPhase::CheckingBefore | SupervisorPhase::CheckingAfter => {
                matches!(event, SupervisorEvent::Listening { .. })
            },
            SupervisorPhase::Sleeping => matches!(event, SupervisorEvent::Slept),
            SupervisorPhase::Stopped => false,
        }
    }

    /// Learns what came of the last action and says what to do next.
    pub fn step(&mut self, event: SupervisorEvent) -> (r: SupervisorAction)
        requires
            supervisor_answers(old(self)@, event),
        ensures
            (final(self)@, r) == supervisor_step(old(self)@, event),
    {
        match (self.phase, event) {
            (SupervisorPhase::Running, SupervisorEvent::SessionEnded) => {
                self.phase = SupervisorPhase::CheckingBefore;
                SupervisorAction::CheckListening
            },
            (SupervisorPhase::CheckingBefore, SupervisorEvent::Listening { open: true }) => {
                self.phase = SupervisorPhase::Sleeping;
                SupervisorAction::Sleep { seconds: RECONNECT_DELAY_SECS }
            },
            (SupervisorPhase::Sleeping, SupervisorEvent::Slept) => {
                self.phase = SupervisorPhase::CheckingAfter;
                SupervisorAction::CheckListening
            },
            (SupervisorPhase::CheckingAfter, SupervisorEvent::Listening { open: true }) => {
                self.phase = SupervisorPhase::Running;
                SupervisorAction::RunSession
            },
            _ => {
                self.phase = SupervisorPhase::Stopped;
                SupervisorAction::Stop
            },
        }
    }
}

/// What a supervisor that starts in a phase waits for after a row of events.
pub open spec fn phase_after(
    phase: SupervisorPhase,
    events: Seq<SupervisorEvent>,
) -> SupervisorPhase
    decreases events.len(),
{
    if events.len() == 0 {
        phase
    } else {
        supervisor_step(phase_after(phase, events.drop_last()), events.last()).0
    }
}

/// Whether a row of events can come to a supervisor that starts in a phase.
pub open spec fn supervisor_runs(phase: SupervisorPhase, events: Seq<SupervisorEvent>) -> bool
    decreases events.len(),
{
    events.len() == 0 || (supervisor_runs(phase, events.drop_last()) && supervisor_answers(
        phase_after(phase, events.drop_last()),
        events.last(),
    ))
}

/// A session is run again only after the delay, and only while someone listens:
/// from the end of one run to the next, the supervisor sleeps once, and finds a
/// listener before and after. It is never run again after a panic.
pub proof fn law_delay_before_every_rerun(events: Seq<SupervisorEvent>)
    requires
        supervisor_runs(SupervisorPhase::Running, events),
        events.len() > 0,
        phase_after(SupervisorPhase::Running, events) == SupervisorPhase::Running,
    ensures
        events.len() >= 4,
        phase_after(SupervisorPhase::Running, events.take(events.len() - 4))
            == SupervisorPhase::Running,
        events.skip(events.len() - 4) == seq![
            SupervisorEvent::SessionEnded,
            SupervisorEvent::Listening { open: true },
            SupervisorEvent::Slept,
            SupervisorEvent::Listening { open: true },
        ],
{
    let start = SupervisorPhase::Running;
    let n = events.len();
    let e1 = events.drop_last();
    assert(phase_after(start, e1) == SupervisorPhase::CheckingAfter);
    assert(e1.len() > 0);
    let e2 = e1.drop_last();
    assert(phase_after(start, e2) == SupervisorPhase::Sleeping);
    assert(e2.len() > 0);
    let e3 = e2.drop_last();
    assert(phase_after(start, e3) == SupervisorPhase::CheckingBefore);
    assert(e3.len() > 0);
    let e4 = e3.drop_last();
    assert(phase_after(start, e4) == SupervisorPhase::Running);
    assert(e4 == events.take(n - 4));
    assert(events.skip(n - 4) == seq![e3.last(), e2.last(), e1.last(), events.last()]);
}

/// A supervisor that finds nobody listening, or whose session panicked, stops.
pub proof fn law_supervisor_stops(phase: SupervisorPhase, event: SupervisorEvent)
    requires
        supervisor_answers(phase, event),
    ensures
        supervisor_step(phase, event).0 == SupervisorPhase::Stopped <==> event
            == SupervisorEvent::SessionPanicked || event == (SupervisorEvent::Listening {
            open: false,
        }),
        supervisor_step(phase, event).1 == SupervisorAction::Stop <==> supervisor_step(
            phase,
            event,
        ).0 == SupervisorPhase::Stopped,
{
}

/// Every wait is two seconds long.
pub proof fn law_waits_are_two_seconds(phase: SupervisorPhase, event: SupervisorEvent)
    ensures
        supervisor_step(phase, event).1 matches SupervisorAction::Sleep { seconds } ==> seconds
            == 2,
{
}

/// A session that ended, however it ended, is run again: whoever still listens
/// before and after the wait gets a new run, and the supervisor is back where it
/// started.
pub proof fn law_ended_sessions_are_run_again()
    ensures
        ({
            let listening = SupervisorEvent::Listening { open: true };
            let (p1, a1) = supervisor_step(SupervisorPhase::Running, SupervisorEvent::SessionEnded);
            let (p2, a2) = supervisor_step(p1, listening);
            let (p3, a3) = supervisor_step(p2, SupervisorEvent::Slept);
            let (p4, a4) = supervisor_step(p3, listening);
            &&& a1 is CheckListening
            &&& a2 is Sleep
            &&& a3 is CheckListening
            &&& a4 is RunSession
            &&& p4 is Running
        }),
{
}

/// A supervisor begins by running the session.
pub proof fn law_supervisors_start_with_a_run(started: (Supervisor, SupervisorAction))
    requires
        call_ensures(Supervisor::start, (), started),
    ensures
        started.0@ is Running,
        started.1 is RunSession,
{
}

/// What a supervisor waits for: the outcome of the one thing that it does in its phase, and
/// nothing once it has stopped.
pub proof fn law_what_a_supervisor_waits_for(phase: SupervisorPhase, event: SupervisorEvent)
    ensures
        event is SessionEnded || event is SessionPanicked ==> (supervisor_answers(phase, event)
            <==> phase is Running),
        event is Listening ==> (supervisor_answers(phase, event) <==> phase is CheckingBefore
            || phase is CheckingAfter),
        event is Slept ==> (supervisor_answers(phase, event) <==> phase is Sleeping),
{
}

} // verus!
