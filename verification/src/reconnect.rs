//! What happens when a tunnel's SSH process ends on its own: whether it is
//! restarted, after how long, and when it is given up.
//!
//! The application watches the process and performs the restarts; each
//! thing it sees is an event, and `reconnect_step` tells it the tunnel's
//! next state and what to do.

use vstd::prelude::*;
use vstd::string::*;

use crate::tunnel::TunnelState;

verus! {

/// How many restarts are tried after the SSH process of a tunnel ends.
pub const MAX_RECONNECT_ATTEMPTS: u32 = 5;

/// What the watcher of a tunnel saw.
#[derive(Debug)]
pub enum ReconnectEvent {
    /// The SSH process ended.
    SshExited,
    /// A restart brought the forward up again.
    RestartSucceeded,
    /// A restart failed, with this message.
    RestartFailed(String),
}

/// What the watcher is to do next.
#[derive(Debug, Clone, Copy, PartialEq, Eq, Structural)]
pub enum ReconnectAction {
    /// Nothing: the tunnel was stopped on purpose.
    Nothing,
    /// A restart finished after the tunnel was stopped: end the new process.
    Discard,
    /// Wait `delay_secs` seconds, then make restart number `attempt`.
    Respawn { attempt: u32, delay_secs: u64 },
    /// The tunnel runs again: its counters start over and the reconnect
    /// time is noted.
    Resume,
    /// Leave the tunnel down and release its local port.
    GiveUp,
}

/// The outcome of one event: the tunnel's next state, what to do, and the
/// number of the restart under way (0 when none is).
#[derive(Debug)]
pub struct ReconnectStep {
    pub state: TunnelState,
    pub action: ReconnectAction,
    pub attempt: u32,
}

/// Seconds to wait before restart number `attempt`: one second before the
/// first, twice as long before each later one.
pub open spec fn backoff_secs(attempt: nat) -> nat
    decreases attempt,
{
    if attempt <= 1 {
        1
    } else {
        2 * backoff_secs((attempt - 1) as nat)
    }
}

/// The message of a tunnel whose SSH process ended while it was not to be
/// restarted.
pub open spec fn ssh_exited_text() -> Seq<char> {
    "SSH process exited"@
}

/// `r` is the outcome of `event` for a tunnel in `state`, with
/// auto-reconnect on or off, stopped on purpose or not, while restart
/// number `attempt` is under way.
pub open spec fn reconnect_next(
    r: ReconnectStep,
    state: TunnelState,
    auto_reconnect: bool,
    stopped: bool,
    attempt: u32,
    event: ReconnectEvent,
) -> bool {
    if stopped {
        &&& r.state == state
        &&& r.attempt == 0
        &&& r.action == (if event is RestartSucceeded {
            ReconnectAction::Discard
        } else {
            ReconnectAction::Nothing
        })
    } else {
        match event {
            ReconnectEvent::SshExited => if auto_reconnect {
                &&& r.state == TunnelState::Reconnecting
                &&& r.action == ReconnectAction::Respawn { attempt: 1, delay_secs: 1 }
                &&& r.attempt == 1
            } else {
                &&& r.state matches TunnelState::Error(m) && m@ == ssh_exited_text()
                &&& r.action == ReconnectAction::GiveUp
                &&& r.attempt == 0
            },
            ReconnectEvent::RestartSucceeded => {
                &&& r.state == TunnelState::Running
                &&& r.action == ReconnectAction::Resume
                &&& r.attempt == 0
            },
            ReconnectEvent::RestartFailed(m) => if attempt < MAX_RECONNECT_ATTEMPTS {
                &&& r.state == TunnelState::Reconnecting
                &&& r.action == ReconnectAction::Respawn {
                    attempt: (attempt + 1) as u32,
                    delay_secs: backoff_secs((attempt + 1) as nat) as u64,
                }
                &&& r.attempt == attempt + 1
            } else {
                &&& r.state == TunnelState::Error(m)
                &&& r.action == ReconnectAction::GiveUp
                &&& r.attempt == attempt
            },
        }
    }
}

proof fn lemma_backoff_bound(attempt: nat)
    requires
        1 <= attempt <= MAX_RECONNECT_ATTEMPTS,
    ensures
        backoff_secs(attempt) <= 16,
{
    reveal_with_fuel(backoff_secs, 5);
    if attempt == 1 {
    } else if attempt == 2 {
    } else if attempt == 3 {
    } else if attempt == 4 {
    } else {
        assert(backoff_secs(5) == 16);
    }
}

/// The wait before restart number `attempt`, in seconds.
pub fn backoff_delay(attempt: u32) -> (r: u64)
    requires
        1 <= attempt <= MAX_RECONNECT_ATTEMPTS,
    ensures
        r == backoff_secs(attempt as nat),
{
    let mut d: u64 = 1;
    let mut i: u32 = 1;
    while i < attempt
        invariant
            1 <= i <= attempt <= MAX_RECONNECT_ATTEMPTS,
            d == backoff_secs(i as nat),
        decreases attempt - i,
    {
        proof {
            lemma_backoff_bound((i + 1) as nat);
        }
        d = d * 2;
        i = i + 1;
    }
    d
}

/// The next state of a tunnel and what to do, after `event`: the tunnel is
/// in `state`, has auto-reconnect on or off, was stopped on purpose or not,
/// and restart number `attempt` is under way (0 when none is).
///
/// A tunnel stopped on purpose stays as it is (a restart that finished
/// meanwhile is discarded). When the SSH process ends, the tunnel is
/// restarted if auto-reconnect is on, or else put in the `Error` state.
/// A failed restart is followed by the next one, after twice the wait,
/// until `MAX_RECONNECT_ATTEMPTS` have failed; then the tunnel is put in
/// the `Error` state with the last failure's message.
pub fn reconnect_step(
    state: &TunnelState,
    auto_reconnect: bool,
    stopped: bool,
    attempt: u32,
    event: ReconnectEvent,
) -> (r: ReconnectStep)
    ensures
        reconnect_next(r, *state, auto_reconnect, stopped, attempt, event),
{
    if stopped {
        let action = match event {
            ReconnectEvent::RestartSucceeded => ReconnectAction::Discard,
            _ => ReconnectAction::Nothing,
        };
        return ReconnectStep { state: state.duplicate(), action, attempt: 0 };
    }
    match event {
        ReconnectEvent::SshExited => {
            if auto_reconnect {
                ReconnectStep {
                    state: TunnelState::Reconnecting,
                    action: ReconnectAction::Respawn { attempt: 1, delay_secs: 1 },
                    attempt: 1,
                }
            } else {
                ReconnectStep {
                    state: TunnelState::Error(String::from_str("SSH process exited")),
                    action: ReconnectAction::GiveUp,
                    attempt: 0,
                }
            }
        },
        ReconnectEvent::RestartSucceeded => ReconnectStep {
            state: TunnelState::Running,
            action: ReconnectAction::Resume,
            attempt: 0,
        },
        ReconnectEvent::RestartFailed(m) => {
            if attempt < MAX_RECONNECT_ATTEMPTS {
                let next = attempt + 1;
                let delay_secs = backoff_delay(next);
                ReconnectStep {
                    state: TunnelState::Reconnecting,
                    action: ReconnectAction::Respawn { attempt: next, delay_secs },
                    attempt: next,
                }
            } else {
                ReconnectStep { state: TunnelState::Error(m), action: ReconnectAction::GiveUp, attempt }
            }
        },
    }
}

/// The steps of a tunnel whose SSH process ended with auto-reconnect on,
/// and whose restarts then failed one after another with `failures`.
pub open spec fn failing_run(steps: Seq<ReconnectStep>, state: TunnelState, failures: Seq<String>) -> bool {
    &&& steps.len() == failures.len() + 1
    &&& reconnect_next(steps[0], state, true, false, 0, ReconnectEvent::SshExited)
    &&& forall|i: int|
        0 <= i < failures.len() ==> #[trigger] reconnect_next(
            steps[i + 1],
            steps[i].state,
            true,
            false,
            steps[i].attempt,
            ReconnectEvent::RestartFailed(failures[i]),
        )
}

/// When the SSH process of a tunnel with auto-reconnect ends and every
/// restart fails, restarts number 1 to `MAX_RECONNECT_ATTEMPTS` are made in
/// turn, each after twice the wait of the one before, with the tunnel in the
/// `Reconnecting` state; after the last has failed the tunnel is in the
/// `Error` state with that failure's message and nothing more is tried.
pub proof fn law_reconnect_gives_up_after_limit(
    steps: Seq<ReconnectStep>,
    state: TunnelState,
    failures: Seq<String>,
)
    requires
        failing_run(steps, state, failures),
        failures.len() <= MAX_RECONNECT_ATTEMPTS,
    ensures
        forall|i: int|
            0 <= i < steps.len() && i < MAX_RECONNECT_ATTEMPTS ==> {
                &&& (#[trigger] steps[i]).state == TunnelState::Reconnecting
                &&& steps[i].attempt == i + 1
                &&& steps[i].action == ReconnectAction::Respawn {
                    attempt: (i + 1) as u32,
                    delay_secs: backoff_secs((i + 1) as nat) as u64,
                }
            },
        steps.len() == MAX_RECONNECT_ATTEMPTS + 1 ==> {
            &&& steps[MAX_RECONNECT_ATTEMPTS as int].state == TunnelState::Error(
                failures[MAX_RECONNECT_ATTEMPTS - 1],
            )
            &&& steps[MAX_RECONNECT_ATTEMPTS as int].action == ReconnectAction::GiveUp
        },
{
    lemma_failing_prefix(steps, state, failures, steps.len() as int);
}

proof fn lemma_failing_prefix(steps: Seq<ReconnectStep>, state: TunnelState, failures: Seq<String>, n: int)
    requires
        failing_run(steps, state, failures),
        failures.len() <= MAX_RECONNECT_ATTEMPTS,
        0 <= n <= steps.len(),
    ensures
        forall|i: int|
            0 <= i < n && i < MAX_RECONNECT_ATTEMPTS ==> {
                &&& (#[trigger] steps[i]).state == TunnelState::Reconnecting
                &&& steps[i].attempt == i + 1
                &&& steps[i].action == ReconnectAction::Respawn {
                    attempt: (i + 1) as u32,
                    delay_secs: backoff_secs((i + 1) as nat) as u64,
                }
            },
        n == MAX_RECONNECT_ATTEMPTS + 1 ==> {
            &&& steps[MAX_RECONNECT_ATTEMPTS as int].state == TunnelState::Error(
                failures[MAX_RECONNECT_ATTEMPTS - 1],
            )
            &&& steps[MAX_RECONNECT_ATTEMPTS as int].action == ReconnectAction::GiveUp
        },
    decreases n,
{
    if n > 0 {
        lemma_failing_prefix(steps, state, failures, n - 1);
        let i = n - 1;
        if i == 0 {
            reveal_with_fuel(backoff_secs, 2);
            assert(backoff_secs(1) == 1);
        } else {
            let j = i - 1;
            assert(reconnect_next(
                steps[j + 1],
                steps[j].state,
                true,
                false,
                steps[j].attempt,
                ReconnectEvent::RestartFailed(failures[j]),
            ));
            assert(steps[j].attempt == j + 1);
        }
    }
}

} // verus!
