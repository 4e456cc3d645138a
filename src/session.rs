//! The decisions of the streaming session: when to connect, log in, send a
//! heartbeat, back off, or give up. The caller performs each action and reports
//! what happened as the next event, with the time in seconds on its clock.
use vstd::prelude::*;

verus! {

/// Seconds between two heartbeats while the session runs.
pub const HEARTBEAT_SECS: u64 = 30;

/// A session that ran longer than this many seconds resets the attempt count.
pub const STABLE_SECS: u64 = 1800;

/// Sleep before a reconnect while the attempts are few.
pub const SHORT_BACKOFF_SECS: u64 = 10;

/// Sleep before a reconnect once the attempts are many.
pub const LONG_BACKOFF_SECS: u64 = 300;

/// The largest attempt count that still sleeps the short backoff.
pub const SHORT_BACKOFF_ATTEMPTS: u32 = 20;

/// The attempt whose failure ends the session.
pub const MAX_ATTEMPTS: u32 = 30;

/// What to do after a failed attempt.
#[derive(Clone, Copy, Debug, PartialEq, Eq, Structural)]
pub enum Backoff {
    /// Sleep this many seconds, then connect again.
    Sleep(u64),
    /// Give up: the attempts are used up.
    Exhausted,
}

/// The count of failed attempts since the last stable session.
#[derive(Clone, Copy, Debug, PartialEq, Eq, Structural)]
pub struct ReconnectState {
    pub attempts: u32,
}

/// The sleep after the attempt with number `attempts` failed.
pub open spec fn backoff_for(attempts: u32) -> Backoff {
    if attempts >= MAX_ATTEMPTS {
        Backoff::Exhausted
    } else if attempts <= SHORT_BACKOFF_ATTEMPTS {
        Backoff::Sleep(SHORT_BACKOFF_SECS)
    } else {
        Backoff::Sleep(LONG_BACKOFF_SECS)
    }
}

impl ReconnectState {
    /// No attempt has failed yet.
    pub fn new() -> (r: ReconnectState)
        ensures
            r.attempts == 0,
    {
        ReconnectState { attempts: 0 }
    }

    /// Whether the session may still try: fewer attempts failed than the ceiling.
    pub open spec fn live(self) -> bool {
        self.attempts < MAX_ATTEMPTS
    }

    /// The attempt count after a failure of an attempt that ran `ran_secs` seconds.
    pub open spec fn attempts_after(self, ran_secs: u64) -> u32 {
        if ran_secs > STABLE_SECS {
            1
        } else {
            (self.attempts + 1) as u32
        }
    }

    /// Records that an attempt failed after running `ran_secs` seconds, and says
    /// how long to sleep before the next one, or that there is none.
    pub fn on_failure(&mut self, ran_secs: u64) -> (r: Backoff)
        requires
            old(self).live(),
        ensures
            final(self).attempts == old(self).attempts_after(ran_secs),
            r == backoff_for(final(self).attempts),
    {
        if ran_secs > STABLE_SECS {
            self.attempts = 0;
        }
        self.attempts = self.attempts + 1;
        if self.attempts >= MAX_ATTEMPTS {
            Backoff::Exhausted
        } else if self.attempts <= SHORT_BACKOFF_ATTEMPTS {
            Backoff::Sleep(SHORT_BACKOFF_SECS)
        } else {
            Backoff::Sleep(LONG_BACKOFF_SECS)
        }
    }
}

/// Why a session ended.
#[derive(Clone, Copy, Debug, PartialEq, Eq, Structural)]
pub enum SessionEnd {
    /// The attempt with number `MAX_ATTEMPTS` failed.
    ExhaustedRetries,
    /// The consumer of the events is gone.
    ConsumerGone,
}

/// Where the session stands.
#[derive(Clone, Copy, Debug, PartialEq, Eq, Structural)]
pub enum Phase {
    /// Fetching the chat token and opening the websocket; the attempt began at `started`.
    Connecting { started: u64 },
    /// Logged in and exchanging frames; the next heartbeat is due at `next_heartbeat`.
    Running { started: u64, next_heartbeat: u64 },
    /// Sleeping before the next attempt.
    Backoff,
    /// Over, for the given reason.
    Finished(SessionEnd),
}

/// What happened, at time `now` in seconds.
#[derive(Clone, Copy, Debug, PartialEq, Eq, Structural)]
pub enum SessionEvent {
    /// The websocket is open.
    Connected { now: u64 },
    /// The clock moved on.
    Tick { now: u64 },
    /// The attempt ended: fetching the token, connecting, sending or receiving
    /// failed, or the server closed the websocket.
    Ended { now: u64 },
    /// The backoff sleep is over.
    Woke { now: u64 },
    /// The consumer dropped the event channel.
    ConsumerGone,
}

/// What the caller does next.
#[derive(Clone, Copy, Debug, PartialEq, Eq, Structural)]
pub enum SessionAction {
    /// Fetch a fresh chat token, then open the websocket.
    Connect,
    /// Send the login frame.
    SendLogin,
    /// Send a heartbeat frame.
    SendHeartBeat,
    /// Nothing to send before this time.
    WaitUntil(u64),
    /// Close the websocket and sleep this many seconds.
    Sleep(u64),
    /// Close the websocket and the event channel, and end.
    Stop(SessionEnd),
    /// The event does not apply in this phase.
    Ignore,
}

/// The streaming session: the attempt count and the phase.
#[derive(Clone, Copy, Debug, PartialEq, Eq, Structural)]
pub struct Session {
    pub reconnect: ReconnectState,
    pub phase: Phase,
}

/// `a - b`, or zero where `b` is larger.
pub open spec fn elapsed(a: u64, b: u64) -> u64 {
    if a >= b {
        (a - b) as u64
    } else {
        0
    }
}

/// The phase and action after an attempt that began at `started` ended at `now`.
pub open spec fn after_end(s: Session, started: u64, now: u64) -> (Session, SessionAction) {
    let attempts = s.reconnect.attempts_after(elapsed(now, started));
    let reconnect = ReconnectState { attempts };
    match backoff_for(attempts) {
        Backoff::Sleep(secs) => (Session { reconnect, phase: Phase::Backoff }, SessionAction::Sleep(secs)),
        Backoff::Exhausted => (
            Session { reconnect, phase: Phase::Finished(SessionEnd::ExhaustedRetries) },
            SessionAction::Stop(SessionEnd::ExhaustedRetries),
        ),
    }
}

/// The next session and action after event `e`.
pub open spec fn next_step(s: Session, e: SessionEvent) -> (Session, SessionAction) {
    match (s.phase, e) {
        (Phase::Finished(why), _) => (s, SessionAction::Stop(why)),
        (_, SessionEvent::ConsumerGone) => (
            Session { phase: Phase::Finished(SessionEnd::ConsumerGone), ..s },
            SessionAction::Stop(SessionEnd::ConsumerGone),
        ),
        (Phase::Connecting { started }, SessionEvent::Connected { now }) => (
            Session { phase: Phase::Running { started, next_heartbeat: now }, ..s },
            SessionAction::SendLogin,
        ),
        (Phase::Running { started, next_heartbeat }, SessionEvent::Tick { now }) => if now
            >= next_heartbeat {
            let next = if now <= u64::MAX - HEARTBEAT_SECS {
                (now + HEARTBEAT_SECS) as u64
            } else {
                u64::MAX
            };
            (
                Session { phase: Phase::Running { started, next_heartbeat: next }, ..s },
                SessionAction::SendHeartBeat,
            )
        } else {
            (s, SessionAction::WaitUntil(next_heartbeat))
        },
        (Phase::Connecting { started }, SessionEvent::Ended { now }) => after_end(s, started, now),
        (Phase::Running { started, .. }, SessionEvent::Ended { now }) => after_end(s, started, now),
        (Phase::Backoff, SessionEvent::Woke { now }) => (
            Session { phase: Phase::Connecting { started: now }, ..s },
            SessionAction::Connect,
        ),
        _ => (s, SessionAction::Ignore),
    }
}

impl Session {
    /// A session at its first attempt, begun at `now`: the caller connects.
    pub fn new(now: u64) -> (r: Session)
        ensures
            r.reconnect.attempts == 0,
            r.phase == (Phase::Connecting { started: now }),
            r.wf(),
    {
        Session { reconnect: ReconnectState::new(), phase: Phase::Connecting { started: now } }
    }

    /// The session's invariant: while it is not over, fewer attempts failed than
    /// the ceiling.
    pub open spec fn wf(self) -> bool {
        !(self.phase is Finished) ==> self.reconnect.live()
    }

    /// Takes event `e` and says what to do next.
    pub fn step(&mut self, e: SessionEvent) -> (r: SessionAction)
        requires
            old(self).wf(),
        ensures
            (*final(self), r) == next_step(*old(self), e),
            final(self).wf(),
    {
        match (self.phase, e) {
            (Phase::Finished(why), _) => SessionAction::Stop(why),
            (_, SessionEvent::ConsumerGone) => {
                self.phase = Phase::Finished(SessionEnd::ConsumerGone);
                SessionAction::Stop(SessionEnd::ConsumerGone)
            },
            (Phase::Connecting { started }, SessionEvent::Connected { now }) => {
                self.phase = Phase::Running { started, next_heartbeat: now };
                SessionAction::SendLogin
            },
            (Phase::Running { started, next_heartbeat }, SessionEvent::Tick { now }) => {
                if now >= next_heartbeat {
                    let next = if now <= u64::MAX - HEARTBEAT_SECS {
                        now + HEARTBEAT_SECS
                    } else {
                        u64::MAX
                    };
                    self.phase = Phase::Running { started, next_heartbeat: next };
                    SessionAction::SendHeartBeat
                } else {
                    SessionAction::WaitUntil(next_heartbeat)
                }
            },
            (Phase::Connecting { started }, SessionEvent::Ended { now }) => self.end_attempt(started, now),
            (Phase::Running { started, .. }, SessionEvent::Ended { now }) => self.end_attempt(started, now),
            (Phase::Backoff, SessionEvent::Woke { now }) => {
                self.phase = Phase::Connecting { started: now };
                SessionAction::Connect
            },
            _ => SessionAction::Ignore,
        }
    }

    /// Ends the attempt that began at `started`, at time `now`.
    fn end_attempt(&mut self, started: u64, now: u64) -> (r: SessionAction)
        requires
            old(self).reconnect.live(),
        ensures
            (*final(self), r) == after_end(*old(self), started, now),
            final(self).wf(),
    {
        let ran = if now >= started {
            now - started
        } else {
            0
        };
        match self.reconnect.on_failure(ran) {
            Backoff::Sleep(secs) => {
                self.phase = Phase::Backoff;
                SessionAction::Sleep(secs)
            },
            Backoff::Exhausted => {
                self.phase = Phase::Finished(SessionEnd::ExhaustedRetries);
                SessionAction::Stop(SessionEnd::ExhaustedRetries)
            },
        }
    }
}

/// The backoff schedule: after the attempt with number `k` fails early, the sleep
/// is ten seconds for `k <= 20` and three hundred for `20 < k < 30`; the failure of
/// attempt thirty ends the session.
pub proof fn lemma_backoff_schedule(r: ReconnectState, ran_secs: u64)
    requires
        r.live(),
        ran_secs <= STABLE_SECS,
    ensures
        ({
            let k = r.attempts + 1;
            let b = backoff_for(r.attempts_after(ran_secs));
            &&& r.attempts_after(ran_secs) == k
            &&& k <= 20 ==> b == Backoff::Sleep(10)
            &&& 20 < k < 30 ==> b == Backoff::Sleep(300)
            &&& k == 30 ==> b == Backoff::Exhausted
        }),
{
}

/// No attempt follows the thirtieth: a session connects only while fewer than
/// thirty attempts have failed, and once over it stays over and only says stop.
pub proof fn lemma_no_attempt_past_ceiling(s: Session, e: SessionEvent)
    requires
        s.wf(),
    ensures
        next_step(s, e).1 is Connect ==> next_step(s, e).0.reconnect.attempts < MAX_ATTEMPTS,
        next_step(s, e).0.wf(),
        s.phase is Finished ==> next_step(s, e).0 == s && next_step(s, e).1 is Stop,
{
}

/// A session that ran more than `STABLE_SECS` seconds before it failed starts the
/// count again: the failure is attempt one, and the sleep is ten seconds.
pub proof fn lemma_reset_on_stability(s: Session, now: u64)
    requires
        s.wf(),
        s.phase is Running,
        now >= s.phase->Running_started + STABLE_SECS + 1,
    ensures
        next_step(s, SessionEvent::Ended { now }).0.reconnect.attempts == 1,
        next_step(s, SessionEvent::Ended { now }).0.phase == Phase::Backoff,
        next_step(s, SessionEvent::Ended { now }).1 == SessionAction::Sleep(SHORT_BACKOFF_SECS),
{
}

/// The login frame goes first, once per connection: only the `Connected` event
/// of a connecting session sends it, and it starts the running phase with a
/// heartbeat due at once. A heartbeat is sent only while running, when one is
/// due, and the next is due `HEARTBEAT_SECS` seconds later.
pub proof fn lemma_heartbeat_cadence(s: Session, e: SessionEvent)
    requires
        s.wf(),
    ensures
        next_step(s, e).1 is SendLogin ==> s.phase is Connecting && e is Connected
            && next_step(s, e).0.phase == (Phase::Running {
                started: s.phase->Connecting_started,
                next_heartbeat: e->Connected_now,
            }),
        next_step(s, e).1 is SendHeartBeat ==> {
            &&& s.phase is Running
            &&& e is Tick
            &&& e->Tick_now >= s.phase->Running_next_heartbeat
            &&& e->Tick_now <= u64::MAX - HEARTBEAT_SECS ==> next_step(s, e).0.phase == (Phase::Running {
                started: s.phase->Running_started,
                next_heartbeat: (e->Tick_now + HEARTBEAT_SECS) as u64,
            })
        },
        s.phase is Running && e is Tick && e->Tick_now < s.phase->Running_next_heartbeat
            ==> next_step(s, e) == (s, SessionAction::WaitUntil(s.phase->Running_next_heartbeat)),
{
}

} // verus!
