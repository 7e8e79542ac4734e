//! The loop that runs the cycles.
//!
//! The loop waits for the timer or for a request to run now, runs a
//! cycle, and waits again. It keeps one instant, that of the last cycle that
//! went through: a report time fires when it lies after that instant and not
//! after the instant of the running cycle. A cycle that fails leaves the
//! instant where it was, so that what was due in the failed cycle is due
//! again in the next one.
//!
//! What the loop decides stands here; the caller waits, sleeps, fetches and
//! sends, and says what happened.

use vstd::prelude::*;
use vstd::string::*;
use crate::error::{CycleFailure, DiscordError};
use crate::ids::DiscordGuildId;
use crate::time::Instant;

verus! {

/// The seconds between two ticks of the timer.
pub const WAKE_UP_FREQ_SECONDS: u64 = 300;

/// The seconds that the loop waits after a cycle that failed.
pub const RETRY_DELAY_SECONDS: u64 = 3;

/// The number of requests to run now that can wait for the loop.
pub const WAKE_QUEUE_CAPACITY: usize = 100;

/// Where the loop stands.
#[derive(Clone, Copy, Debug, PartialEq, Eq, Structural)]
pub enum Phase {
    /// Waiting for the timer or for a request to run now.
    Idle,
    /// Fetching, and working out who is due, in the cycle of the instant
    /// `now`.
    Evaluating { now: Instant },
    /// Delivering the alerts of the cycle of the instant `now`.
    Delivering { now: Instant },
    /// Waiting after a cycle that failed for the cause given.
    BackoffWait { cause: CycleFailure },
}

/// The state of the loop.
#[derive(Clone, Copy, Debug, PartialEq, Eq, Structural)]
pub struct Scheduler {
    /// The instant of the last cycle that went through.
    pub last_report_timestamp: Instant,
    pub phase: Phase,
}

/// What happened.
#[derive(Debug, PartialEq, Eq)]
pub enum Event {
    /// The timer ticked, or, with a guild, a request to run now for that
    /// guild came in; `now` is the instant at which the loop woke.
    Woken { now: Instant, guild: Option<DiscordGuildId> },
    /// Everything was fetched and it is settled who is due.
    Evaluated,
    /// Every alert was delivered and the configuration is saved.
    Delivered,
    /// The cycle failed.
    Failed { cause: CycleFailure },
    /// The wait after a failed cycle is over.
    BackoffElapsed,
}

/// What the caller does next.
#[derive(Debug, PartialEq, Eq)]
pub enum Action {
    /// Wait for the timer or for a request to run now.
    Wait,
    /// Run a cycle: tell the users whose report times lie after `last` and
    /// not after `now`, and in `guild`, where there is one, every user.
    RunCycle { last: Instant, now: Instant, guild: Option<DiscordGuildId> },
    /// Deliver the alerts of the running cycle, which is that of the
    /// instant `now`.
    Deliver { now: Instant },
    /// Sleep for so many seconds.
    Backoff { seconds: u64 },
    /// Nothing: the event does not belong to where the loop stands.
    Ignore,
}

impl Scheduler {
    /// The loop as it starts at the instant `started`: idle, and with
    /// nothing due that lies before the start.
    pub fn new(started: Instant) -> (r: Scheduler)
        ensures
            r == (Scheduler { last_report_timestamp: started, phase: Phase::Idle }),
    {
        Scheduler { last_report_timestamp: started, phase: Phase::Idle }
    }

    /// The state after the event.
    pub open spec fn next(self, event: Event) -> Scheduler {
        match (self.phase, event) {
            (Phase::Idle, Event::Woken { now, guild }) => Scheduler {
                phase: Phase::Evaluating { now },
                ..self
            },
            (Phase::Evaluating { now }, Event::Evaluated) => Scheduler {
                phase: Phase::Delivering { now },
                ..self
            },
            (Phase::Delivering { now }, Event::Delivered) => Scheduler {
                last_report_timestamp: now,
                phase: Phase::Idle,
            },
            (Phase::Evaluating { now }, Event::Failed { cause }) => Scheduler {
                phase: Phase::BackoffWait { cause },
                ..self
            },
            (Phase::Delivering { now }, Event::Failed { cause }) => Scheduler {
                phase: Phase::BackoffWait { cause },
                ..self
            },
            (Phase::BackoffWait { cause }, Event::BackoffElapsed) => Scheduler {
                phase: Phase::Idle,
                ..self
            },
            _ => self,
        }
    }

    /// What the caller does after the event.
    pub open spec fn action(self, event: Event) -> Action {
        match (self.phase, event) {
            (Phase::Idle, Event::Woken { now, guild }) => Action::RunCycle {
                last: self.last_report_timestamp,
                now,
                guild,
            },
            (Phase::Evaluating { now }, Event::Evaluated) => Action::Deliver { now },
            (Phase::Delivering { now }, Event::Delivered) => Action::Wait,
            (Phase::Evaluating { now }, Event::Failed { cause }) => Action::Backoff {
                seconds: RETRY_DELAY_SECONDS,
            },
            (Phase::Delivering { now }, Event::Failed { cause }) => Action::Backoff {
                seconds: RETRY_DELAY_SECONDS,
            },
            (Phase::BackoffWait { cause }, Event::BackoffElapsed) => Action::Wait,
            _ => Action::Ignore,
        }
    }
}

/// The loop that watches GitHub, one turn of it: takes in what happened
/// and says what to do next. The caller does it and comes back with what
/// happened then.
pub fn watch_github(scheduler: &mut Scheduler, event: Event) -> (r: Action)
    ensures
        *final(scheduler) == old(scheduler).next(event),
        r == old(scheduler).action(event),
{
    match (scheduler.phase, event) {
        (Phase::Idle, Event::Woken { now, guild }) => {
            scheduler.phase = Phase::Evaluating { now };
            Action::RunCycle { last: scheduler.last_report_timestamp, now, guild }
        },
        (Phase::Evaluating { now }, Event::Evaluated) => {
            scheduler.phase = Phase::Delivering { now };
            Action::Deliver { now }
        },
        (Phase::Delivering { now }, Event::Delivered) => {
            scheduler.last_report_timestamp = now;
            scheduler.phase = Phase::Idle;
            Action::Wait
        },
        (Phase::Evaluating { now }, Event::Failed { cause }) => {
            scheduler.phase = Phase::BackoffWait { cause };
            Action::Backoff { seconds: RETRY_DELAY_SECONDS }
        },
        (Phase::Delivering { now }, Event::Failed { cause }) => {
            scheduler.phase = Phase::BackoffWait { cause };
            Action::Backoff { seconds: RETRY_DELAY_SECONDS }
        },
        (Phase::BackoffWait { cause }, Event::BackoffElapsed) => {
            scheduler.phase = Phase::Idle;
            Action::Wait
        },
        _ => Action::Ignore,
    }
}

/// The instant of the last cycle that went through moves only when a cycle
/// has delivered everything, and then to the instant of that cycle. A cycle
/// that fails leaves it where it was, whatever the cause.
pub proof fn lemma_watermark_moves_on_success_only(state: Scheduler, event: Event)
    ensures
        state.next(event).last_report_timestamp != state.last_report_timestamp ==> event
            is Delivered && state.phase == (Phase::Delivering {
            now: state.next(event).last_report_timestamp,
        }),
        event is Failed ==> state.next(event).last_report_timestamp
            == state.last_report_timestamp,
{
}

/// A cycle that goes through: the loop wakes at `now`, a cycle is run from
/// the instant of the last one to `now`, its alerts are delivered for that
/// same instant, and `now` becomes the instant from which the next cycle is
/// run.
pub proof fn lemma_cycle_goes_through(state: Scheduler, now: Instant, guild: Option<DiscordGuildId>)
    requires
        state.phase == Phase::Idle,
    ensures
        ({
            let woken = Event::Woken { now, guild };
            let evaluating = state.next(woken);
            let delivering = evaluating.next(Event::Evaluated);
            let done = delivering.next(Event::Delivered);
            &&& state.action(woken) == (Action::RunCycle {
                last: state.last_report_timestamp,
                now,
                guild,
            })
            &&& evaluating.action(Event::Evaluated) == (Action::Deliver { now })
            &&& delivering.action(Event::Delivered) == Action::Wait
            &&& done == (Scheduler { last_report_timestamp: now, phase: Phase::Idle })
        }),
{
}

/// Every failure of a running cycle is answered in the same way, whatever
/// its cause: the loop waits for the fixed delay, and the instant of the
/// last cycle that went through stays where it was.
pub proof fn lemma_every_failure_is_retried(state: Scheduler, cause: CycleFailure)
    requires
        state.phase is Evaluating || state.phase is Delivering,
    ensures
        state.action(Event::Failed { cause }) == (Action::Backoff { seconds: RETRY_DELAY_SECONDS }),
        state.next(Event::Failed { cause }).phase == (Phase::BackoffWait { cause }),
        state.next(Event::Failed { cause }).last_report_timestamp == state.last_report_timestamp,
        state.next(Event::Failed { cause }).next(Event::BackoffElapsed) == (Scheduler {
            phase: Phase::Idle,
            ..state
        }),
{
}

/// A cycle is run from the instant of the last cycle that went through to
/// the instant at which the loop woke, and only when the loop was idle.
pub proof fn lemma_cycle_bounds(state: Scheduler, event: Event)
    ensures
        match state.action(event) {
            Action::RunCycle { last, now, guild } => {
                &&& state.phase == Phase::Idle
                &&& last == state.last_report_timestamp
                &&& event == (Event::Woken { now, guild })
            },
            _ => true,
        },
{
}

/// The loop never comes to an end: wherever it stands, some event moves
/// it on.
pub proof fn lemma_no_terminal_state(state: Scheduler)
    ensures
        exists|event: Event| #[trigger] state.next(event).phase != state.phase,
{
    match state.phase {
        Phase::Idle => {
            let event = Event::Woken { now: state.last_report_timestamp, guild: None };
            assert(state.next(event).phase != state.phase);
        },
        Phase::Evaluating { now } => {
            assert(state.next(Event::Evaluated).phase != state.phase);
        },
        Phase::Delivering { now } => {
            assert(state.next(Event::Delivered).phase != state.phase);
        },
        Phase::BackoffWait { cause } => {
            assert(state.next(Event::BackoffElapsed).phase != state.phase);
        },
    }
}

/// What became of handing a request to run now to the loop.
#[derive(Debug)]
pub enum WakeAttempt {
    /// The loop has not begun to listen yet.
    NotListening,
    /// The request waits for the loop.
    Queued,
    /// The loop has stopped listening; the text says how the sending
    /// failed.
    Closed(String),
}

/// The reply that tells the one who asked to run now that the loop is not
/// listening yet.
pub const WAKE_UNAVAILABLE_REPLY: &'static str =
    "The report loop is not running yet, try again in a moment";

/// The answer to a request to run now. The request fails where the loop is
/// not listening: the one who asked is told so at once and may ask again.
pub fn watch_github_wake_now(attempt: WakeAttempt) -> (r: Result<(), DiscordError>)
    ensures
        match attempt {
            WakeAttempt::Queued => r is Ok,
            WakeAttempt::NotListening => match r {
                Err(e) => e.details is None && match e.reply {
                    Some(reply) => reply@ == WAKE_UNAVAILABLE_REPLY@,
                    None => false,
                },
                Ok(_) => false,
            },
            WakeAttempt::Closed(cause) => r == Err::<(), DiscordError>(
                DiscordError { reply: Some(cause), details: None },
            ),
        },
{
    match attempt {
        WakeAttempt::Queued => Ok(()),
        WakeAttempt::NotListening => Err(
            DiscordError { reply: Some(String::from_str(WAKE_UNAVAILABLE_REPLY)), details: None },
        ),
        WakeAttempt::Closed(cause) => Err(DiscordError { reply: Some(cause), details: None }),
    }
}

} // verus!
