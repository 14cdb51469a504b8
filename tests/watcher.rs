use imap_bar::watcher::{
    reconnect_delays, Action, Event, Wait, WatchState, Watcher, FATAL_EXIT, KEEP_ALIVE_SECS,
    POLL_SECS,
};

#[test]
fn polling_session_reports_once_then_polls() {
    let delays = reconnect_delays();
    let mut w = Watcher::new(&delays);
    assert_eq!(Action::Connect { delay: 0 }, w.step(Event::Done));
    assert_eq!(Action::Login, w.step(Event::Done));
    assert_eq!(Action::Probe, w.step(Event::Done));
    assert_eq!(Action::Select, w.step(Event::Capabilities { idle: false }));
    assert_eq!(Action::Search, w.step(Event::Selected { exists: 42 }));
    assert_eq!(
        Action::Report { unread: 3, total: 42, wait: Wait::Poll { secs: POLL_SECS } },
        w.step(Event::Searched { unseen: 3 })
    );
    assert_eq!(WatchState::Polling, w.state());
    assert_eq!(Action::Select, w.step(Event::Done));
    assert_eq!(WatchState::SelectingMailbox, w.state());
    assert_eq!(POLL_SECS, 300);
    // the report put the schedule back at its first delay
    assert_eq!(Action::Disconnect, w.step(Event::Failed));
    assert_eq!(Action::Connect { delay: 0 }, w.step(Event::Done));
    assert_eq!(Action::Disconnect, w.step(Event::Failed));
    assert_eq!(Action::Connect { delay: 60 }, w.step(Event::Done));
}

#[test]
fn failed_connects_walk_the_schedule_and_report_resets_it() {
    let delays = [10, 20, 30, 40];
    let mut w = Watcher::new(&delays);
    for d in [10, 20, 30] {
        assert_eq!(Action::Connect { delay: d }, w.step(Event::Done));
        assert_eq!(Action::Disconnect, w.step(Event::Failed));
    }
    assert_eq!(Action::Connect { delay: 40 }, w.step(Event::Done));
    assert_eq!(Action::Login, w.step(Event::Done));
    assert_eq!(Action::Probe, w.step(Event::Done));
    assert_eq!(Action::Select, w.step(Event::Capabilities { idle: true }));
    assert_eq!(Action::Search, w.step(Event::Selected { exists: 5 }));
    assert_eq!(
        Action::Report { unread: 0, total: 5, wait: Wait::Idle { max_secs: KEEP_ALIVE_SECS } },
        w.step(Event::Searched { unseen: 0 })
    );
    assert_eq!(Action::Disconnect, w.step(Event::Failed));
    assert_eq!(Action::Connect { delay: 10 }, w.step(Event::Done));
}

#[test]
fn login_failure_is_fatal() {
    let mut w = Watcher::new(&[1]);
    w.step(Event::Done);
    assert_eq!(Action::Login, w.step(Event::Done));
    assert_eq!(Action::Exit { code: FATAL_EXIT }, w.step(Event::Failed));
    assert_eq!(WatchState::Halted, w.state());
    assert_eq!(Action::Exit { code: 2 }, w.step(Event::Done));
}

#[test]
fn protocol_failures_reconnect() {
    let mut w = Watcher::new(&[1, 2]);
    w.step(Event::Done);
    w.step(Event::Done);
    w.step(Event::Done);
    assert_eq!(Action::Disconnect, w.step(Event::Failed));
    assert_eq!(WatchState::Disconnected, w.state());
    assert_eq!(Action::Connect { delay: 2 }, w.step(Event::Done));
    w.step(Event::Done);
    w.step(Event::Done);
    w.step(Event::Capabilities { idle: false });
    assert_eq!(Action::Disconnect, w.step(Event::Failed));
    assert_eq!(Action::Connect { delay: 2 }, w.step(Event::Done));
}

#[test]
fn idle_cycle_returns_to_select() {
    let mut w = Watcher::new(&[0]);
    w.step(Event::Done);
    w.step(Event::Done);
    w.step(Event::Done);
    w.step(Event::Capabilities { idle: true });
    w.step(Event::Selected { exists: 9 });
    w.step(Event::Searched { unseen: 1 });
    assert_eq!(WatchState::Idling, w.state());
    assert_eq!(Action::Select, w.step(Event::Done));
    assert_eq!(Action::Search, w.step(Event::Selected { exists: 10 }));
    assert_eq!(
        Action::Report { unread: 2, total: 10, wait: Wait::Idle { max_secs: 1700 } },
        w.step(Event::Searched { unseen: 2 })
    );
}
