//! The lifecycle controller: a single consumer of Start/Stop commands
//! that owns at most one running listener, negotiates a port by bounded
//! first-fit scanning, and tells its caller which outward step to take
//! next. The caller performs the step (bind, write the hint, shut the
//! listener down) and, for a bind, reports the outcome back.

use vstd::prelude::*;

verus! {

/// The first port the negotiation tries.
pub const BASE_PORT: u16 = 3000;

/// The last port the negotiation tries: 51 candidates in all.
pub const LAST_PORT: u16 = 3050;

/// A control command, delivered in order, consumed exactly once.
#[derive(Clone, Copy, Debug, PartialEq, Eq, Structural)]
pub enum ServerControlMessage {
    Start,
    Stop,
}

/// Where the controller stands. `Scanning` is the transient state in the
/// middle of port negotiation, between a bind attempt and its outcome.
#[derive(Clone, Copy, Debug, PartialEq, Eq, Structural)]
pub enum LifecycleState {
    Stopped,
    Scanning { port: u16 },
    Running { port: u16 },
}

/// The outward step the caller must take after feeding the controller a
/// command or a bind outcome.
#[derive(Clone, Copy, Debug, PartialEq, Eq, Structural)]
pub enum Action {
    /// Attempt to bind a listener on this port and report back whether it
    /// bound or the address was in use.
    TryBind { port: u16 },
    /// The listener is bound on this port: replace the connection-hint
    /// file's content. A failure of that write is its own error, distinct
    /// from bind failure.
    WriteHint { port: u16 },
    /// Signal the held listener to shut down gracefully and drop it.
    StopListener,
    /// Start while running: nothing to do but log the no-op.
    AlreadyRunning,
    /// Stop while stopped: nothing to do but log the no-op.
    NotRunning,
    /// All candidate ports were in use; the controller stays stopped.
    NoAvailablePort,
}

/// What a command does to the controller, as a mathematical function.
pub open spec fn spec_on_command(s: LifecycleState, m: ServerControlMessage) -> (
    LifecycleState,
    Action,
) {
    match m {
        ServerControlMessage::Start => match s {
            LifecycleState::Stopped => (
                LifecycleState::Scanning { port: BASE_PORT },
                Action::TryBind { port: BASE_PORT },
            ),
            LifecycleState::Running { port } => (s, Action::AlreadyRunning),
            LifecycleState::Scanning { port } => (s, Action::AlreadyRunning),
        },
        ServerControlMessage::Stop => match s {
            LifecycleState::Running { port } => (LifecycleState::Stopped, Action::StopListener),
            LifecycleState::Stopped => (s, Action::NotRunning),
            LifecycleState::Scanning { port } => (s, Action::NotRunning),
        },
    }
}

/// What a bind outcome does to a scanning controller, as a mathematical
/// function: first fit wins, failure moves one port up, and past the last
/// port the negotiation reports exhaustion.
pub open spec fn spec_on_bind(s: LifecycleState, bound: bool) -> (LifecycleState, Action) {
    match s {
        LifecycleState::Scanning { port } => if bound {
            (LifecycleState::Running { port }, Action::WriteHint { port })
        } else if port < LAST_PORT {
            (
                LifecycleState::Scanning { port: (port + 1) as u16 },
                Action::TryBind { port: (port + 1) as u16 },
            )
        } else {
            (LifecycleState::Stopped, Action::NoAvailablePort)
        },
        _ => (s, Action::NotRunning),
    }
}

/// The controller. It processes one command at a time, so between
/// commands it is never left mid-scan.
pub struct Lifecycle {
    pub state: LifecycleState,
}

impl Lifecycle {
    /// A scanning controller only ever holds a candidate port.
    pub open spec fn inv(&self) -> bool {
        match self.state {
            LifecycleState::Scanning { port } => BASE_PORT <= port <= LAST_PORT,
            _ => true,
        }
    }

    /// A fresh controller: stopped, holding no listener.
    pub fn new() -> (c: Lifecycle)
        ensures
            c.state == LifecycleState::Stopped,
            c.inv(),
    {
        Lifecycle { state: LifecycleState::Stopped }
    }

    /// Feeds one command. Start from Stopped opens the port scan at the
    /// base port; Start while running and Stop while stopped are no-ops;
    /// Stop while running releases the listener.
    pub fn on_command(&mut self, m: ServerControlMessage) -> (a: Action)
        requires
            old(self).inv(),
            !(old(self).state is Scanning),
        ensures
            final(self).inv(),
            (final(self).state, a) == spec_on_command(old(self).state, m),
    {
        match m {
            ServerControlMessage::Start => match self.state {
                LifecycleState::Stopped => {
                    self.state = LifecycleState::Scanning { port: BASE_PORT };
                    Action::TryBind { port: BASE_PORT }
                },
                _ => Action::AlreadyRunning,
            },
            ServerControlMessage::Stop => match self.state {
                LifecycleState::Running { port: _ } => {
                    self.state = LifecycleState::Stopped;
                    Action::StopListener
                },
                _ => Action::NotRunning,
            },
        }
    }

    /// Feeds the outcome of the bind attempt the controller last asked
    /// for. The first successful bind ends the scan; a failure moves to
    /// the next port, or reports exhaustion after the last one.
    pub fn on_bind_outcome(&mut self, bound: bool) -> (a: Action)
        requires
            old(self).inv(),
            old(self).state is Scanning,
        ensures
            final(self).inv(),
            (final(self).state, a) == spec_on_bind(old(self).state, bound),
    {
        match self.state {
            LifecycleState::Scanning { port } => {
                if bound {
                    self.state = LifecycleState::Running { port };
                    Action::WriteHint { port }
                } else if port < LAST_PORT {
                    self.state = LifecycleState::Scanning { port: port + 1 };
                    Action::TryBind { port: port + 1 }
                } else {
                    self.state = LifecycleState::Stopped;
                    Action::NoAvailablePort
                }
            },
            _ => Action::NotRunning,  // unreachable under the precondition
        }
    }

    /// Whether a listener is currently bound.
    pub fn is_running(&self) -> (r: bool)
        ensures
            r == (self.state is Running),
    {
        match self.state {
            LifecycleState::Running { port: _ } => true,
            _ => false,
        }
    }
}

/// Which port the scan settles on, starting at `p`, when `avail[k]` says
/// whether port `BASE_PORT + k` can be bound: the resulting controller
/// state after the caller keeps feeding bind outcomes.
pub open spec fn scan_from(avail: Seq<bool>, p: int) -> LifecycleState
    decreases LAST_PORT - p,
{
    if p < BASE_PORT || p > LAST_PORT || avail.len() != 51 {
        LifecycleState::Stopped
    } else if avail[p - BASE_PORT] {
        LifecycleState::Running { port: p as u16 }
    } else if p < LAST_PORT {
        scan_from(avail, p + 1)
    } else {
        LifecycleState::Stopped
    }
}

/// The least index at or after `k` whose port is free.
pub open spec fn first_free(avail: Seq<bool>, k: int) -> Option<int>
    decreases avail.len() - k,
{
    if k < 0 || k >= avail.len() {
        None
    } else if avail[k] {
        Some(k)
    } else {
        first_free(avail, k + 1)
    }
}

/// A found free index lies between where the search began and the end of
/// the candidate range.
pub proof fn lemma_first_free_bounds(avail: Seq<bool>, k: int)
    ensures
        first_free(avail, k) matches Some(j) ==> k <= j < avail.len(),
    decreases avail.len() - k,
{
    if 0 <= k < avail.len() && !avail[k] {
        lemma_first_free_bounds(avail, k + 1);
    }
}

/// Law: port negotiation is greedy first-fit. Scanning from port `p`
/// binds exactly the first free candidate at or after `p`, and reaches
/// Stopped exactly when every candidate from `p` on is occupied.
pub proof fn lemma_scan_first_fit(avail: Seq<bool>, p: int)
    requires
        avail.len() == 51,
        BASE_PORT <= p <= LAST_PORT,
    ensures
        scan_from(avail, p) == match first_free(avail, p - BASE_PORT) {
            Some(k) => LifecycleState::Running { port: (BASE_PORT + k) as u16 },
            None => LifecycleState::Stopped,
        },
    decreases LAST_PORT - p,
{
    lemma_first_free_bounds(avail, p - BASE_PORT);
    if !avail[p - BASE_PORT] {
        if p < LAST_PORT {
            lemma_scan_first_fit(avail, p + 1);
        } else {
            assert(first_free(avail, p + 1 - BASE_PORT) is None);
        }
    }
}

/// Law: one step of the running scan agrees with [`scan_from`]: feeding
/// the controller the availability of its current candidate port either
/// ends the scan exactly as `scan_from` says, or moves it to the state
/// `scan_from` continues from.
pub proof fn lemma_scan_step(avail: Seq<bool>, p: int)
    requires
        avail.len() == 51,
        BASE_PORT <= p <= LAST_PORT,
    ensures
        ({
            let s = LifecycleState::Scanning { port: p as u16 };
            let (s2, a) = spec_on_bind(s, avail[p - BASE_PORT]);
            scan_from(avail, p) == match s2 {
                LifecycleState::Scanning { port } => scan_from(avail, port as int),
                _ => s2,
            }
        }),
{
}

/// Law: starting is idempotent. A second Start with no intervening Stop
/// leaves the controller bound to the same single listener and merely
/// reports the no-op.
pub proof fn lemma_start_idempotent(p: u16)
    ensures
        spec_on_command(LifecycleState::Running { port: p }, ServerControlMessage::Start) == (
            LifecycleState::Running { port: p },
            Action::AlreadyRunning,
        ),
{
}

/// Law: stopping when nothing runs is a no-op, and stopping a running
/// listener releases exactly that one listener.
pub proof fn lemma_stop_behaviour(p: u16)
    ensures
        spec_on_command(LifecycleState::Stopped, ServerControlMessage::Stop) == (
            LifecycleState::Stopped,
            Action::NotRunning,
        ),
        spec_on_command(LifecycleState::Running { port: p }, ServerControlMessage::Stop) == (
            LifecycleState::Stopped,
            Action::StopListener,
        ),
{
}

} // verus!
