use bili_danmu::session::{
    Backoff, Phase, ReconnectState, Session, SessionAction, SessionEnd, SessionEvent,
};

#[test]
fn reconnect_reset_after_stable_run() {
    let mut s = Session::new(0);
    // fail early many times so that the next sleep would be long
    for i in 0..25u64 {
        let t = i * 1000;
        s.step(SessionEvent::Ended { now: t });
        s.step(SessionEvent::Woke { now: t + 500 });
    }
    assert_eq!(s.reconnect.attempts, 25);
    let start = 100_000;
    s.step(SessionEvent::Ended { now: start - 300 });
    assert_eq!(s.step(SessionEvent::Woke { now: start }), SessionAction::Connect);
    assert_eq!(s.step(SessionEvent::Connected { now: start + 1 }), SessionAction::SendLogin);
    let a = s.step(SessionEvent::Ended { now: start + 1801 });
    assert_eq!(a, SessionAction::Sleep(10));
    assert_eq!(s.reconnect.attempts, 1);
}

#[test]
fn exhaustion_after_thirty_attempts() {
    let mut s = Session::new(0);
    let mut connects = 1;
    let mut now = 0;
    loop {
        now += 1;
        match s.step(SessionEvent::Ended { now }) {
            SessionAction::Sleep(secs) => {
                now += secs;
                assert_eq!(s.step(SessionEvent::Woke { now }), SessionAction::Connect);
                connects += 1;
            }
            SessionAction::Stop(why) => {
                assert_eq!(why, SessionEnd::ExhaustedRetries);
                break;
            }
            other => panic!("unexpected {:?}", other),
        }
    }
    assert_eq!(connects, 30);
    assert_eq!(s.reconnect.attempts, 30);
    assert_eq!(s.phase, Phase::Finished(SessionEnd::ExhaustedRetries));
    assert_eq!(
        s.step(SessionEvent::Woke { now: now + 1 }),
        SessionAction::Stop(SessionEnd::ExhaustedRetries)
    );
}

#[test]
fn backoff_schedule_values() {
    let mut r = ReconnectState::new();
    for k in 1..=29u32 {
        let b = r.on_failure(0);
        assert_eq!(r.attempts, k);
        if k <= 20 {
            assert_eq!(b, Backoff::Sleep(10));
        } else {
            assert_eq!(b, Backoff::Sleep(300));
        }
    }
    assert_eq!(r.on_failure(0), Backoff::Exhausted);
}

#[test]
fn run_of_exactly_1800_seconds_does_not_reset() {
    let mut r = ReconnectState { attempts: 21 };
    assert_eq!(r.on_failure(1800), Backoff::Sleep(300));
    assert_eq!(r.attempts, 22);
    assert_eq!(r.on_failure(1801), Backoff::Sleep(10));
    assert_eq!(r.attempts, 1);
}

#[test]
fn heartbeat_every_thirty_seconds_after_login() {
    let mut s = Session::new(5);
    assert_eq!(s.step(SessionEvent::Tick { now: 6 }), SessionAction::Ignore);
    assert_eq!(s.step(SessionEvent::Connected { now: 10 }), SessionAction::SendLogin);
    assert_eq!(s.step(SessionEvent::Tick { now: 10 }), SessionAction::SendHeartBeat);
    assert_eq!(s.step(SessionEvent::Tick { now: 25 }), SessionAction::WaitUntil(40));
    assert_eq!(s.step(SessionEvent::Tick { now: 40 }), SessionAction::SendHeartBeat);
    assert_eq!(s.step(SessionEvent::Tick { now: 69 }), SessionAction::WaitUntil(70));
    assert_eq!(s.step(SessionEvent::Tick { now: 71 }), SessionAction::SendHeartBeat);
    assert_eq!(s.step(SessionEvent::Connected { now: 72 }), SessionAction::Ignore);
}

#[test]
fn consumer_gone_stops_the_session() {
    let mut s = Session::new(0);
    s.step(SessionEvent::Connected { now: 1 });
    assert_eq!(s.step(SessionEvent::ConsumerGone), SessionAction::Stop(SessionEnd::ConsumerGone));
    assert_eq!(
        s.step(SessionEvent::Connected { now: 2 }),
        SessionAction::Stop(SessionEnd::ConsumerGone)
    );
}

#[test]
fn connect_failure_backs_off() {
    let mut s = Session::new(100);
    assert_eq!(s.step(SessionEvent::Ended { now: 103 }), SessionAction::Sleep(10));
    assert_eq!(s.phase, Phase::Backoff);
    assert_eq!(s.step(SessionEvent::Woke { now: 113 }), SessionAction::Connect);
    assert_eq!(s.phase, Phase::Connecting { started: 113 });
}
