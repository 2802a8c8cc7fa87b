//! The decisions of the local proxy that sits in front of the SSH forward:
//! what a failed bind leads to, how read sizes are counted, how long to
//! wait for a port, and the privileged forwarder used for low ports.

use vstd::prelude::*;
use vstd::string::*;

use crate::stats::StatsEvent;
use crate::text::{
    applescript_escaped, decimal, push_applescript_escaped, push_decimal, push_replaced,
    shell_single_quoted_body,
};

verus! {

/// What the proxy needs to know of an I/O error.
#[derive(Debug)]
pub struct IoErrorInfo {
    /// The error's kind is `PermissionDenied`.
    pub permission_denied: bool,
    /// The operating system's error code, if the error came from it.
    pub raw_os_error: Option<i32>,
    /// The error's display text.
    pub message: String,
}

/// Whether an error means that permission was refused: its kind says so,
/// or the OS code is EACCES (13) or EPERM (1).
pub open spec fn permission_error(e: IoErrorInfo) -> bool {
    e.permission_denied || e.raw_os_error == Some(13i32) || e.raw_os_error == Some(1i32)
}

/// Whether `e` means that permission was refused.
pub fn is_permission_error(e: &IoErrorInfo) -> (r: bool)
    ensures
        r == permission_error(*e),
{
    let code = match e.raw_os_error {
        Some(c) => c,
        None => 0,
    };
    e.permission_denied || (e.raw_os_error.is_some() && (code == 13 || code == 1))
}

/// What follows a failed bind of the local port.
#[derive(Debug)]
pub enum BindFallback {
    /// Ask for administrator rights and forward through a privileged helper.
    Privileged,
    /// Give up with this message.
    Fail(String),
}

/// The message for a port below 1024 that could not be bound for lack of
/// rights, where no privileged helper is available.
pub open spec fn privileged_port_message(port: u16, err: Seq<char>) -> Seq<char> {
    "Port "@ + decimal(port as nat) + " requires root privileges: "@ + err
}

/// The message for any other failed bind.
pub open spec fn bind_failed_message(port: u16, err: Seq<char>) -> Seq<char> {
    "Failed to bind local port "@ + decimal(port as nat) + ": "@ + err
}

/// Decides what follows a failed bind of `local_port` with the error `e`:
/// a port below 1024 refused for lack of rights goes to the privileged
/// helper when `helper_available`, else fails with a message that says root
/// is needed; any other failure gives the bind error.
pub fn on_bind_error(local_port: u16, e: &IoErrorInfo, helper_available: bool) -> (r: BindFallback)
    ensures
        local_port < 1024 && permission_error(*e) && helper_available ==> r is Privileged,
        local_port < 1024 && permission_error(*e) && !helper_available ==> (r matches BindFallback::Fail(
            m,
        ) && m@ == privileged_port_message(local_port, e.message@)),
        !(local_port < 1024 && permission_error(*e)) ==> (r matches BindFallback::Fail(m) && m@
            == bind_failed_message(local_port, e.message@)),
{
    if local_port < 1024 && is_permission_error(e) {
        if helper_available {
            BindFallback::Privileged
        } else {
            let mut m = String::from_str("Port ");
            push_decimal(&mut m, local_port as u64);
            m.append(" requires root privileges: ");
            m.append(e.message.as_str());
            BindFallback::Fail(m)
        }
    } else {
        let mut m = String::from_str("Failed to bind local port ");
        push_decimal(&mut m, local_port as u64);
        m.append(": ");
        m.append(e.message.as_str());
        BindFallback::Fail(m)
    }
}

// ---------------------------------------------------------------------
// Relaying
// ---------------------------------------------------------------------

/// The two directions of a relayed connection.
#[derive(Debug, Clone, Copy)]
pub enum Direction {
    /// From the client into the tunnel.
    Upload,
    /// From the tunnel back to the client.
    Download,
}

/// What a read of `n` bytes in `dir` leads to: end of stream (shut the
/// other side's writing half) when `n` is zero, else the bytes to count
/// before they are written on.
pub open spec fn read_event(dir: Direction, n: u64) -> Option<StatsEvent> {
    if n == 0 {
        None
    } else {
        match dir {
            Direction::Upload => Some(StatsEvent::Upload(n)),
            Direction::Download => Some(StatsEvent::Download(n)),
        }
    }
}

/// Decides the step of a relay after a read of `n` bytes in `dir`.
pub fn relay_read(dir: Direction, n: u64) -> (r: Option<StatsEvent>)
    ensures
        r == read_event(dir, n),
{
    if n == 0 {
        None
    } else {
        match dir {
            Direction::Upload => Some(StatsEvent::Upload(n)),
            Direction::Download => Some(StatsEvent::Download(n)),
        }
    }
}

// ---------------------------------------------------------------------
// Waiting for a port to accept connections
// ---------------------------------------------------------------------

/// What follows one attempt to connect to a port that should open soon.
#[derive(Debug, Clone, Copy)]
pub enum PortWaitStep {
    /// The port accepts connections.
    Ready,
    /// Sleep, then try again.
    RetryAfterDelay,
    /// Out of attempts: report the last error.
    GiveUp,
}

pub open spec fn wait_step(attempt: nat, retries: nat, connected: bool) -> PortWaitStep {
    if connected {
        PortWaitStep::Ready
    } else if attempt + 1 < retries {
        PortWaitStep::RetryAfterDelay
    } else {
        PortWaitStep::GiveUp
    }
}

/// Decides what follows attempt number `attempt` (from zero) out of
/// `retries`, given whether it connected.
pub fn port_wait_step(attempt: u32, retries: u32, connected: bool) -> (r: PortWaitStep)
    requires
        attempt < retries,
    ensures
        r == wait_step(attempt as nat, retries as nat, connected),
{
    if connected {
        PortWaitStep::Ready
    } else if attempt < retries - 1 {
        PortWaitStep::RetryAfterDelay
    } else {
        PortWaitStep::GiveUp
    }
}

/// Whether waiting with `retries` attempts, whose outcomes (from attempt
/// `attempt` on) are `outcomes`, ends ready; the number of attempts made is
/// the second component.
pub open spec fn wait_from(attempt: nat, retries: nat, outcomes: Seq<bool>) -> (bool, nat)
    recommends
        outcomes.len() >= retries,
    decreases retries - attempt,
{
    if attempt >= retries {
        (true, attempt)
    } else {
        match wait_step(attempt, retries, outcomes[attempt as int]) {
            PortWaitStep::Ready => (true, attempt + 1),
            PortWaitStep::RetryAfterDelay => wait_from(attempt + 1, retries, outcomes),
            PortWaitStep::GiveUp => (false, attempt + 1),
        }
    }
}

/// Following the steps from the first attempt, the wait ends ready exactly
/// when no attempt is to be made (`retries` is zero) or one of the
/// `retries` attempts connects; it then stops at the first attempt that
/// connects, and otherwise after `retries` attempts.
pub proof fn law_port_wait(retries: nat, outcomes: Seq<bool>)
    requires
        outcomes.len() >= retries,
    ensures
        wait_from(0, retries, outcomes).0 <==> (retries == 0 || exists|k: int|
            0 <= k < retries && #[trigger] outcomes[k]),
        retries > 0 && (forall|k: int| 0 <= k < retries ==> !#[trigger] outcomes[k])
            ==> wait_from(0, retries, outcomes).1 == retries,
        forall|k: int|
            0 <= k < retries && #[trigger] outcomes[k] && (forall|j: int| 0 <= j < k ==> !outcomes[j])
                ==> wait_from(0, retries, outcomes).1 == k + 1,
{
    lemma_wait_from(0, retries, outcomes);
}

proof fn lemma_wait_from(a: nat, retries: nat, outcomes: Seq<bool>)
    requires
        outcomes.len() >= retries,
        a <= retries,
    ensures
        a < retries ==> (wait_from(a, retries, outcomes).0 <==> exists|k: int|
            a <= k < retries && #[trigger] outcomes[k]),
        a < retries && (forall|k: int| a <= k < retries ==> !#[trigger] outcomes[k])
            ==> wait_from(a, retries, outcomes).1 == retries,
        forall|k: int|
            a <= k < retries && #[trigger] outcomes[k] && (forall|j: int| a <= j < k ==> !outcomes[j])
                ==> wait_from(a, retries, outcomes).1 == k + 1,
        a == retries ==> wait_from(a, retries, outcomes) == (true, a),
    decreases retries - a,
{
    if a < retries {
        lemma_wait_from(a + 1, retries, outcomes);
        if !outcomes[a as int] && a + 1 < retries {
            assert forall|k: int|
                a <= k < retries && #[trigger] outcomes[k] && (forall|j: int| a <= j < k ==> !outcomes[j])
                    implies wait_from(a, retries, outcomes).1 == k + 1 by {
                assert(k != a);
                assert forall|j: int| a + 1 <= j < k implies !outcomes[j] by {}
            }
        }
    }
}

/// The message for a port that never accepted a connection.
pub open spec fn port_not_ready_text(port: u16, retries: u32, err: Seq<char>) -> Seq<char> {
    "Port "@ + decimal(port as nat) + " not ready after "@ + decimal(retries as nat) + " retries: "@
        + err
}

/// Builds the message for a port that never accepted a connection.
pub fn port_not_ready_message(port: u16, retries: u32, err: &str) -> (r: String)
    ensures
        r@ == port_not_ready_text(port, retries, err@),
{
    let mut m = String::from_str("Port ");
    push_decimal(&mut m, port as u64);
    m.append(" not ready after ");
    push_decimal(&mut m, retries as u64);
    m.append(" retries: ");
    m.append(err);
    m
}


// ---------------------------------------------------------------------
// The privileged forwarder for ports below 1024
// ---------------------------------------------------------------------

/// The Python forwarder's text before the local port.
pub open spec fn forwarder_head() -> Seq<char> {
    "import socket,threading,sys,signal,os\nsignal.signal(signal.SIGTERM, lambda *a: os._exit(0))\ns=socket.socket(socket.AF_INET,socket.SOCK_STREAM)\ns.setsockopt(socket.SOL_SOCKET,socket.SO_REUSEADDR,1)\ns.bind(('127.0.0.1',"@
}

/// The Python forwarder's text between the local and the target port.
pub open spec fn forwarder_middle() -> Seq<char> {
    "))\ns.listen(128)\ndef fwd(a,b):\n try:\n  while True:\n   d=a.recv(8192)\n   if not d:break\n   b.sendall(d)\n except:pass\n finally:a.close();b.close()\nwhile True:\n c,_=s.accept()\n try:\n  r=socket.socket()\n  r.connect(('127.0.0.1',"@
}

/// The Python forwarder's text after the target port.
pub open spec fn forwarder_tail() -> Seq<char> {
    "))\n  threading.Thread(target=fwd,args=(c,r),daemon=True).start()\n  threading.Thread(target=fwd,args=(r,c),daemon=True).start()\n except:c.close()"@
}

/// A Python program that listens on `127.0.0.1:local_port` and forwards
/// each connection to `127.0.0.1:target_port`, both ways, until it gets
/// SIGTERM.
pub open spec fn forwarder_script_text(local_port: u16, target_port: u16) -> Seq<char> {
    forwarder_head() + decimal(local_port as nat) + forwarder_middle() + decimal(
        target_port as nat,
    ) + forwarder_tail()
}

/// The shell command that runs the forwarder with `python3 -c`.
pub open spec fn forwarder_shell_text(local_port: u16, target_port: u16) -> Seq<char> {
    "python3 -c '"@ + shell_single_quoted_body(forwarder_script_text(local_port, target_port))
        + "'"@
}

/// The AppleScript that runs the forwarder's shell command with
/// administrator privileges (the system asks the user for them).
pub open spec fn privileged_forwarder_text(local_port: u16, target_port: u16) -> Seq<char> {
    "do shell script \""@ + applescript_escaped(forwarder_shell_text(local_port, target_port))
        + "\" with administrator privileges"@
}

/// Builds the forwarder program.
pub fn forwarder_script(local_port: u16, target_port: u16) -> (r: String)
    ensures
        r@ == forwarder_script_text(local_port, target_port),
{
    let mut r = String::from_str(
        "import socket,threading,sys,signal,os\nsignal.signal(signal.SIGTERM, lambda *a: os._exit(0))\ns=socket.socket(socket.AF_INET,socket.SOCK_STREAM)\ns.setsockopt(socket.SOL_SOCKET,socket.SO_REUSEADDR,1)\ns.bind(('127.0.0.1',",
    );
    push_decimal(&mut r, local_port as u64);
    r.append(
        "))\ns.listen(128)\ndef fwd(a,b):\n try:\n  while True:\n   d=a.recv(8192)\n   if not d:break\n   b.sendall(d)\n except:pass\n finally:a.close();b.close()\nwhile True:\n c,_=s.accept()\n try:\n  r=socket.socket()\n  r.connect(('127.0.0.1',",
    );
    push_decimal(&mut r, target_port as u64);
    r.append(
        "))\n  threading.Thread(target=fwd,args=(c,r),daemon=True).start()\n  threading.Thread(target=fwd,args=(r,c),daemon=True).start()\n except:c.close()",
    );
    r
}

/// Builds the AppleScript that starts the privileged forwarder from
/// `local_port` to `target_port`.
pub fn privileged_forwarder_applescript(local_port: u16, target_port: u16) -> (r: String)
    ensures
        r@ == privileged_forwarder_text(local_port, target_port),
{
    let script = forwarder_script(local_port, target_port);
    let mut shell = String::from_str("python3 -c '");
    push_replaced(&mut shell, script.as_str(), '\'', "'\"'\"'");
    shell.append("'");
    let mut r = String::from_str("do shell script \"");
    push_applescript_escaped(&mut r, shell.as_str());
    r.append("\" with administrator privileges");
    r
}

} // verus!
