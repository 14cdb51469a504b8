use vstd::prelude::*;

use crate::backoff::{advance, cursor_after, delay_at, lemma_cursor_after, Backoff};

verus! {

/// Seconds between two looks at the mailbox when the server cannot push.
pub const POLL_SECS: u64 = 300;

/// The longest wait for a push before the mailbox is looked at again anyway.
pub const KEEP_ALIVE_SECS: u64 = 1700;

/// The exit code for a failure that retrying cannot mend (security or login).
pub const FATAL_EXIT: i32 = 2;

/// The phases of a session. Each one waits for the outcome of the action that
/// led into it.
#[derive(Debug, Clone, Copy, PartialEq, Eq, Structural)]
pub enum WatchState {
    /// No connection: the next step waits out a backoff delay and connects.
    Disconnected,
    /// Waiting for the transport connection.
    Connecting,
    /// Waiting for the security handshake and the login.
    Authenticating,
    /// Waiting for the server's capabilities.
    ProbingCapabilities,
    /// Waiting for the read-only selection of the mailbox.
    SelectingMailbox,
    /// Waiting for the search for unseen messages.
    Observing,
    /// A status was reported; waiting out the poll interval.
    Polling,
    /// A status was reported; waiting for a push, or for the keep-alive bound.
    Idling,
    /// A fatal failure was met; the process is to exit.
    Halted,
}

/// The outcome of the last action, as the driver saw it.
#[derive(Debug, Clone, Copy, PartialEq, Eq, Structural)]
pub enum Event {
    /// The action succeeded and has nothing to tell.
    Done,
    /// The action failed.
    Failed,
    /// The server's capabilities were listed; `idle` tells whether they
    /// include push notification.
    Capabilities { idle: bool },
    /// The mailbox was selected and holds `exists` messages.
    Selected { exists: u32 },
    /// The search found `unseen` unseen messages.
    Searched { unseen: u64 },
}

/// How to wait after a status was reported.
#[derive(Debug, Clone, Copy, PartialEq, Eq, Structural)]
pub enum Wait {
    /// Sleep this many seconds.
    Poll { secs: u64 },
    /// Wait for a push, at most this many seconds, then leave idle.
    Idle { max_secs: u64 },
}

/// What the driver is to do next, and then report on with an `Event`.
#[derive(Debug, Clone, Copy, PartialEq, Eq, Structural)]
pub enum Action {
    /// Sleep `delay` seconds, then open a connection to the server.
    Connect { delay: u64 },
    /// Negotiate transport security, then log in.
    Login,
    /// List the server's capabilities.
    Probe,
    /// Select the mailbox read-only.
    Select,
    /// Search the mailbox for unseen messages.
    Search,
    /// Emit the status line for this observation, then wait as `wait` says.
    Report { unread: u64, total: u32, wait: Wait },
    /// Drop the connection; the next step reconnects.
    Disconnect,
    /// Exit the process with `code`.
    Exit { code: i32 },
}

/// What a `Watcher` holds, but for its schedule of delays.
pub struct WatchModel {
    pub state: WatchState,
    pub can_idle: bool,
    pub total: u32,
    pub cursor: nat,
}

pub open spec fn in_state(m: WatchModel, s: WatchState) -> WatchModel {
    WatchModel { state: s, ..m }
}

/// The outcome of a failure that a reconnect may mend.
pub open spec fn retry(m: WatchModel) -> (WatchModel, Action) {
    (in_state(m, WatchState::Disconnected), Action::Disconnect)
}

/// One step of a session whose reconnect delays are `d`: the next model and
/// the next action, given the outcome `ev` of the last action.
pub open spec fn step_spec(m: WatchModel, d: Seq<u64>, ev: Event) -> (WatchModel, Action) {
    match m.state {
        WatchState::Disconnected => (
            WatchModel { state: WatchState::Connecting, cursor: advance(d, m.cursor), ..m },
            Action::Connect { delay: d[m.cursor as int] },
        ),
        WatchState::Connecting => if ev is Done {
            (in_state(m, WatchState::Authenticating), Action::Login)
        } else {
            retry(m)
        },
        WatchState::Authenticating => if ev is Done {
            (in_state(m, WatchState::ProbingCapabilities), Action::Probe)
        } else {
            (in_state(m, WatchState::Halted), Action::Exit { code: FATAL_EXIT })
        },
        WatchState::ProbingCapabilities => match ev {
            Event::Capabilities { idle } => (
                WatchModel { state: WatchState::SelectingMailbox, can_idle: idle, ..m },
                Action::Select,
            ),
            _ => retry(m),
        },
        WatchState::SelectingMailbox => match ev {
            Event::Selected { exists } => (
                WatchModel { state: WatchState::Observing, total: exists, ..m },
                Action::Search,
            ),
            _ => retry(m),
        },
        WatchState::Observing => match ev {
            Event::Searched { unseen } => if m.can_idle {
                (
                    WatchModel { state: WatchState::Idling, cursor: 0, ..m },
                    Action::Report {
                        unread: unseen,
                        total: m.total,
                        wait: Wait::Idle { max_secs: KEEP_ALIVE_SECS },
                    },
                )
            } else {
                (
                    WatchModel { state: WatchState::Polling, cursor: 0, ..m },
                    Action::Report {
                        unread: unseen,
                        total: m.total,
                        wait: Wait::Poll { secs: POLL_SECS },
                    },
                )
            },
            _ => retry(m),
        },
        WatchState::Polling => (in_state(m, WatchState::SelectingMailbox), Action::Select),
        WatchState::Idling => if ev is Done {
            (in_state(m, WatchState::SelectingMailbox), Action::Select)
        } else {
            retry(m)
        },
        WatchState::Halted => (m, Action::Exit { code: FATAL_EXIT }),
    }
}

/// `m` after `k` rounds in which a connection is attempted and fails.
pub open spec fn failed_rounds(m: WatchModel, d: Seq<u64>, k: nat) -> WatchModel
    decreases k,
{
    if k == 0 {
        m
    } else {
        let before = failed_rounds(m, d, (k - 1) as nat);
        step_spec(step_spec(before, d, Event::Done).0, d, Event::Failed).0
    }
}

/// Failed connection attempts made one after another from a disconnected
/// session at the start of its schedule wait `d0, d1, ...` in order, then the
/// last delay, and leave the session disconnected each time.
pub proof fn lemma_failed_connects_walk_schedule(m: WatchModel, d: Seq<u64>, k: nat)
    requires
        d.len() > 0,
        m.state == WatchState::Disconnected,
        m.cursor == 0,
    ensures
        failed_rounds(m, d, k).state == WatchState::Disconnected,
        failed_rounds(m, d, k).cursor == cursor_after(d, k),
        step_spec(failed_rounds(m, d, k), d, Event::Done).1 == (Action::Connect {
            delay: delay_at(d, k),
        }),
    decreases k,
{
    if k > 0 {
        lemma_failed_connects_walk_schedule(m, d, (k - 1) as nat);
        lemma_cursor_after(d, (k - 1) as nat);
    }
}

/// A reported observation puts the schedule back at its start, and a
/// failure before the next report leads back to a reconnect that waits `d0`.
pub proof fn lemma_report_restarts_schedule(m: WatchModel, d: Seq<u64>, unseen: u64)
    requires
        d.len() > 0,
        m.state == WatchState::Observing,
    ensures
        step_spec(m, d, Event::Searched { unseen }).0.cursor == 0,
        ({
            let after = step_spec(m, d, Event::Searched { unseen }).0;
            let lost = if m.can_idle {
                step_spec(after, d, Event::Failed).0
            } else {
                step_spec(step_spec(after, d, Event::Done).0, d, Event::Failed).0
            };
            &&& lost.state == WatchState::Disconnected
            &&& step_spec(lost, d, Event::Done).1 == (Action::Connect { delay: d[0] })
        }),
{
}

/// On a server without push, a reported observation is followed by a wait of
/// the poll interval and a new selection on the same connection, whatever the
/// driver reports after the wait; the schedule stays at its start, since no
/// reconnect delay is drawn for the wait.
pub proof fn lemma_poll_cycle(m: WatchModel, d: Seq<u64>, unseen: u64, ev: Event)
    requires
        m.state == WatchState::Observing,
        !m.can_idle,
    ensures
        ({
            let r = step_spec(m, d, Event::Searched { unseen });
            let next = step_spec(r.0, d, ev);
            &&& r.1 == (Action::Report {
                unread: unseen,
                total: m.total,
                wait: Wait::Poll { secs: POLL_SECS },
            })
            &&& r.0.state == WatchState::Polling
            &&& r.0.cursor == 0
            &&& next.1 == Action::Select
            &&& next.0 == (WatchModel { state: WatchState::SelectingMailbox, ..r.0 })
        }),
{
}

/// After `k` failed attempts from the start of the schedule, the next attempt
/// waits the `k`-th delay; if it gets through to a report, the schedule starts
/// over, so that once the connection is lost again the `j`-th failed attempt
/// in a row waits the `j`-th delay: `d0`, `d1`, and so on.
pub proof fn lemma_recovery_restarts_schedule(
    m: WatchModel,
    d: Seq<u64>,
    k: nat,
    idle: bool,
    exists: u32,
    unseen: u64,
    j: nat,
)
    requires
        d.len() > 0,
        m.state == WatchState::Disconnected,
        m.cursor == 0,
    ensures
        ({
            let f = failed_rounds(m, d, k);
            let c1 = step_spec(f, d, Event::Done);
            let c2 = step_spec(c1.0, d, Event::Done);
            let c3 = step_spec(c2.0, d, Event::Done);
            let c4 = step_spec(c3.0, d, Event::Capabilities { idle });
            let c5 = step_spec(c4.0, d, Event::Selected { exists });
            let c6 = step_spec(c5.0, d, Event::Searched { unseen });
            let lost = if idle {
                step_spec(c6.0, d, Event::Failed).0
            } else {
                step_spec(step_spec(c6.0, d, Event::Done).0, d, Event::Failed).0
            };
            &&& c1.1 == (Action::Connect { delay: delay_at(d, k) })
            &&& c2.1 == Action::Login
            &&& c3.1 == Action::Probe
            &&& c4.1 == Action::Select
            &&& c5.1 == Action::Search
            &&& c6.1 is Report
            &&& c6.0.cursor == 0
            &&& lost.state == WatchState::Disconnected
            &&& lost.cursor == 0
            &&& step_spec(failed_rounds(lost, d, j), d, Event::Done).1 == (Action::Connect {
                delay: delay_at(d, j),
            })
        }),
{
    lemma_failed_connects_walk_schedule(m, d, k);
    let f = failed_rounds(m, d, k);
    let c6 = step_spec(
        step_spec(
            step_spec(
                step_spec(step_spec(step_spec(f, d, Event::Done).0, d, Event::Done).0, d, Event::Done).0,
                d,
                Event::Capabilities { idle },
            ).0,
            d,
            Event::Selected { exists },
        ).0,
        d,
        Event::Searched { unseen },
    );
    let lost = if idle {
        step_spec(c6.0, d, Event::Failed).0
    } else {
        step_spec(step_spec(c6.0, d, Event::Done).0, d, Event::Failed).0
    };
    lemma_failed_connects_walk_schedule(lost, d, j);
}

/// The reconnect delays that a watcher starts with, in seconds.
pub fn reconnect_delays() -> (r: Vec<u64>)
    ensures
        r@ == seq![0u64, 60, 120, 500, 600],
{
    let r: Vec<u64> = vec![0, 60, 120, 500, 600];
    proof {
        assert(r@ =~= seq![0u64, 60, 120, 500, 600]);
    }
    r
}

/// The session state machine: it decides, from the outcome of each action,
/// the next action, and paces reconnects with its backoff schedule.
pub struct Watcher<'a> {
    state: WatchState,
    can_idle: bool,
    total: u32,
    backoff: Backoff<'a>,
}

impl<'a> Watcher<'a> {
    pub closed spec fn model(&self) -> WatchModel {
        WatchModel {
            state: self.state,
            can_idle: self.can_idle,
            total: self.total,
            cursor: self.backoff.cursor(),
        }
    }

    /// The reconnect delays, in order.
    pub closed spec fn delays(&self) -> Seq<u64> {
        self.backoff.delays()
    }

    pub open spec fn wf(&self) -> bool {
        &&& self.delays().len() > 0
        &&& self.model().cursor < self.delays().len()
    }

    /// A disconnected watcher at the start of the schedule `delays`, which
    /// must not be empty.
    pub fn new(delays: &'a [u64]) -> (r: Watcher<'a>)
        requires
            delays@.len() > 0,
        ensures
            r.wf(),
            r.delays() == delays@,
            r.model() == (WatchModel {
                state: WatchState::Disconnected,
                can_idle: false,
                total: 0,
                cursor: 0,
            }),
    {
        Watcher {
            state: WatchState::Disconnected,
            can_idle: false,
            total: 0,
            backoff: Backoff::new(delays),
        }
    }

    /// The phase the session is in.
    pub fn state(&self) -> (r: WatchState)
        ensures
            r == self.model().state,
    {
        self.state
    }

    /// Takes the outcome of the last action and returns the next one.
    pub fn step(&mut self, ev: Event) -> (r: Action)
        requires
            old(self).wf(),
        ensures
            final(self).wf(),
            final(self).delays() == old(self).delays(),
            (final(self).model(), r) == step_spec(old(self).model(), old(self).delays(), ev),
    {
        match self.state {
            WatchState::Disconnected => {
                let delay = self.backoff.next();
                self.state = WatchState::Connecting;
                Action::Connect { delay }
            },
            WatchState::Connecting => {
                if let Event::Done = ev {
                    self.state = WatchState::Authenticating;
                    Action::Login
                } else {
                    self.state = WatchState::Disconnected;
                    Action::Disconnect
                }
            },
            WatchState::Authenticating => {
                if let Event::Done = ev {
                    self.state = WatchState::ProbingCapabilities;
                    Action::Probe
                } else {
                    self.state = WatchState::Halted;
                    Action::Exit { code: FATAL_EXIT }
                }
            },
            WatchState::ProbingCapabilities => {
                if let Event::Capabilities { idle } = ev {
                    self.can_idle = idle;
                    self.state = WatchState::SelectingMailbox;
                    Action::Select
                } else {
                    self.state = WatchState::Disconnected;
                    Action::Disconnect
                }
            },
            WatchState::SelectingMailbox => {
                if let Event::Selected { exists } = ev {
                    self.total = exists;
                    self.state = WatchState::Observing;
                    Action::Search
                } else {
                    self.state = WatchState::Disconnected;
                    Action::Disconnect
                }
            },
            WatchState::Observing => {
                if let Event::Searched { unseen } = ev {
                    self.backoff.reset();
                    if self.can_idle {
                        self.state = WatchState::Idling;
                        Action::Report {
                            unread: unseen,
                            total: self.total,
                            wait: Wait::Idle { max_secs: KEEP_ALIVE_SECS },
                        }
                    } else {
                        self.state = WatchState::Polling;
                        Action::Report {
                            unread: unseen,
                            total: self.total,
                            wait: Wait::Poll { secs: POLL_SECS },
                        }
                    }
                } else {
                    self.state = WatchState::Disconnected;
                    Action::Disconnect
                }
            },
            WatchState::Polling => {
                self.state = WatchState::SelectingMailbox;
                Action::Select
            },
            WatchState::Idling => {
                if let Event::Done = ev {
                    self.state = WatchState::SelectingMailbox;
                    Action::Select
                } else {
                    self.state = WatchState::Disconnected;
                    Action::Disconnect
                }
            },
            WatchState::Halted => Action::Exit { code: FATAL_EXIT },
        }
    }
}

} // verus!
