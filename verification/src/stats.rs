//! Traffic counters of one tunnel: bytes each way, connections open and
//! handled, and the snapshot of them that is shown to the user.

use vstd::prelude::*;

use crate::format::{bytes_text, format_bytes, format_uptime, uptime_text};

verus! {

#[verifier::external_type_specification]
#[verifier::external_body]
pub struct ExInstant(std::time::Instant);

/// `std::time::Instant::now`: the current reading of the monotonic clock.
/// It depends on the time of the call; nothing is claimed of it.
#[verifier::external_body]
fn instant_now() -> (r: std::time::Instant) {
    std::time::Instant::now()
}

/// `Instant::elapsed`, in whole seconds (`Duration::as_secs`): the time
/// since `t`. It depends on the time of the call; nothing is claimed of it.
#[verifier::external_body]
fn whole_secs_since(t: &std::time::Instant) -> (r: u64) {
    t.elapsed().as_secs()
}

pub open spec fn u64_modulus() -> int {
    0x1_0000_0000_0000_0000
}

pub open spec fn u32_modulus() -> int {
    0x1_0000_0000
}

/// `x + d` wrapped into `u64`, as an atomic `fetch_add` leaves it.
pub open spec fn wrap64(x: int) -> u64 {
    (x % u64_modulus()) as u64
}

/// `x` wrapped into `u32`, as an atomic `fetch_add`/`fetch_sub` leaves it.
pub open spec fn wrap32(x: int) -> u32 {
    (x % u32_modulus()) as u32
}

/// The counters of one tunnel. Every counter wraps around on overflow, as
/// the atomic counters of the application do.
pub struct TunnelStats {
    pub bytes_uploaded: u64,
    pub bytes_downloaded: u64,
    pub connections_open: u32,
    pub connections_total: u64,
    pub started_at: std::time::Instant,
    pub last_reconnect: Option<std::time::Instant>,
}

/// One thing that happens to a tunnel's traffic.
#[derive(Debug, Clone, Copy)]
pub enum StatsEvent {
    /// Bytes read from a client and sent into the tunnel.
    Upload(u64),
    /// Bytes read from the tunnel and sent to a client.
    Download(u64),
    /// A client connection was accepted.
    Opened,
    /// A client connection ended.
    Closed,
}

/// The counters of `s` after `e`, with the clock readings unchanged.
pub open spec fn after_event(s: TunnelStats, e: StatsEvent) -> TunnelStats {
    match e {
        StatsEvent::Upload(n) => TunnelStats { bytes_uploaded: wrap64(s.bytes_uploaded + n), ..s },
        StatsEvent::Download(n) => TunnelStats {
            bytes_downloaded: wrap64(s.bytes_downloaded + n),
            ..s
        },
        StatsEvent::Opened => TunnelStats {
            connections_open: wrap32(s.connections_open + 1),
            connections_total: wrap64(s.connections_total + 1),
            ..s
        },
        StatsEvent::Closed => TunnelStats { connections_open: wrap32(s.connections_open - 1), ..s },
    }
}

/// The counters of `s` after the events `es`, in order.
pub open spec fn after_events(s: TunnelStats, es: Seq<StatsEvent>) -> TunnelStats
    decreases es.len(),
{
    if es.len() == 0 {
        s
    } else {
        after_event(after_events(s, es.drop_last()), es.last())
    }
}

/// `s` with all four counters at zero and the clock readings kept.
pub open spec fn cleared(s: TunnelStats) -> TunnelStats {
    TunnelStats {
        bytes_uploaded: 0,
        bytes_downloaded: 0,
        connections_open: 0,
        connections_total: 0,
        ..s
    }
}

/// `new` is `old` after the tunnel came back from a reconnect: the four
/// counters start over, the start time is kept, and a reconnect time is
/// noted (read from the clock).
pub open spec fn reconnected(old: TunnelStats, new: TunnelStats) -> bool {
    &&& new == TunnelStats { last_reconnect: new.last_reconnect, ..cleared(old) }
    &&& new.last_reconnect is Some
}

/// A point-in-time copy of a tunnel's counters, with their display forms.
#[derive(Debug)]
pub struct StatsSnapshot {
    pub bytes_uploaded: u64,
    pub bytes_downloaded: u64,
    pub connections_open: u32,
    pub connections_total: u64,
    pub uptime_seconds: u64,
    pub bytes_uploaded_formatted: String,
    pub bytes_downloaded_formatted: String,
    pub uptime_formatted: String,
    pub last_reconnect_ago: Option<String>,
}

/// `snap` shows the counters of `s`, `uptime` seconds since the start, and
/// `reconnect_secs` seconds since the last reconnect if there was one.
pub open spec fn snapshot_of(snap: StatsSnapshot, s: TunnelStats, uptime: u64, reconnect_secs: Option<u64>) -> bool {
    &&& snap.bytes_uploaded == s.bytes_uploaded
    &&& snap.bytes_downloaded == s.bytes_downloaded
    &&& snap.connections_open == s.connections_open
    &&& snap.connections_total == s.connections_total
    &&& snap.uptime_seconds == uptime
    &&& snap.bytes_uploaded_formatted@ == bytes_text(s.bytes_uploaded as nat)
    &&& snap.bytes_downloaded_formatted@ == bytes_text(s.bytes_downloaded as nat)
    &&& snap.uptime_formatted@ == uptime_text(uptime as nat)
    &&& match reconnect_secs {
        None => snap.last_reconnect_ago is None,
        Some(r) => snap.last_reconnect_ago matches Some(t) && t@ == uptime_text(r as nat),
    }
}

/// `snap` shows the counters of `s` (the clock readings aside), and shows a
/// time since the last reconnect exactly when `s` has one.
pub open spec fn shows_counters(snap: StatsSnapshot, s: TunnelStats) -> bool {
    exists|uptime: u64, reconnect_secs: Option<u64>|
        #[trigger] snapshot_of(snap, s, uptime, reconnect_secs) && (reconnect_secs is Some
            <==> s.last_reconnect is Some)
}

impl TunnelStats {
    /// Fresh counters, started now, never reconnected.
    pub fn new() -> (r: TunnelStats)
        ensures
            r.bytes_uploaded == 0,
            r.bytes_downloaded == 0,
            r.connections_open == 0,
            r.connections_total == 0,
            r.last_reconnect is None,
    {
        TunnelStats {
            bytes_uploaded: 0,
            bytes_downloaded: 0,
            connections_open: 0,
            connections_total: 0,
            started_at: instant_now(),
            last_reconnect: None,
        }
    }

    /// Counts `n` bytes sent into the tunnel.
    pub fn record_upload(&mut self, n: u64)
        ensures
            *final(self) == after_event(*old(self), StatsEvent::Upload(n)),
    {
        self.bytes_uploaded = self.bytes_uploaded.wrapping_add(n);
    }

    /// Counts `n` bytes received from the tunnel.
    pub fn record_download(&mut self, n: u64)
        ensures
            *final(self) == after_event(*old(self), StatsEvent::Download(n)),
    {
        self.bytes_downloaded = self.bytes_downloaded.wrapping_add(n);
    }

    /// Counts a connection that was accepted: one more open, one more
    /// handled.
    pub fn connection_opened(&mut self)
        ensures
            *final(self) == after_event(*old(self), StatsEvent::Opened),
    {
        self.connections_open = self.connections_open.wrapping_add(1);
        self.connections_total = self.connections_total.wrapping_add(1);
    }

    /// Counts a connection that ended: one fewer open.
    pub fn connection_closed(&mut self)
        ensures
            *final(self) == after_event(*old(self), StatsEvent::Closed),
    {
        self.connections_open = self.connections_open.wrapping_sub(1);
    }

    /// Counts one event.
    pub fn apply(&mut self, e: StatsEvent)
        ensures
            *final(self) == after_event(*old(self), e),
    {
        match e {
            StatsEvent::Upload(n) => self.record_upload(n),
            StatsEvent::Download(n) => self.record_download(n),
            StatsEvent::Opened => self.connection_opened(),
            StatsEvent::Closed => self.connection_closed(),
        }
    }

    /// Sets the four counters to zero; the start time and the last
    /// reconnect are kept.
    pub fn reset(&mut self)
        ensures
            *final(self) == cleared(*old(self)),
    {
        self.bytes_uploaded = 0;
        self.bytes_downloaded = 0;
        self.connections_open = 0;
        self.connections_total = 0;
    }

    /// Starts a new session after a reconnect: the counters go back to
    /// zero, the start time is kept, and the reconnect time is noted now.
    pub fn mark_reconnected(&mut self)
        ensures
            reconnected(*old(self), *final(self)),
    {
        self.reset();
        self.last_reconnect = Some(instant_now());
    }

    /// The snapshot at this moment: the counters, the time since the start
    /// and since the last reconnect (both read from the clock).
    pub fn snapshot(&self) -> (snap: StatsSnapshot)
        ensures
            exists|uptime: u64, reconnect_secs: Option<u64>|
                #[trigger] snapshot_of(snap, *self, uptime, reconnect_secs) && (reconnect_secs is Some
                    <==> self.last_reconnect is Some),
    {
        let uptime = whole_secs_since(&self.started_at);
        let reconnect_secs = match &self.last_reconnect {
            Some(t) => Some(whole_secs_since(t)),
            None => None,
        };
        let snap = self.snapshot_at(uptime, reconnect_secs);
        assert(snapshot_of(snap, *self, uptime, reconnect_secs));
        snap
    }

    /// The snapshot of the counters, given the seconds since the start and
    /// since the last reconnect.
    pub fn snapshot_at(&self, uptime_seconds: u64, reconnect_secs: Option<u64>) -> (snap: StatsSnapshot)
        ensures
            snapshot_of(snap, *self, uptime_seconds, reconnect_secs),
    {
        let up = self.bytes_uploaded;
        let down = self.bytes_downloaded;
        let ago = match reconnect_secs {
            Some(r) => Some(format_uptime(r)),
            None => None,
        };
        StatsSnapshot {
            bytes_uploaded: up,
            bytes_downloaded: down,
            connections_open: self.connections_open,
            connections_total: self.connections_total,
            uptime_seconds,
            bytes_uploaded_formatted: format_bytes(up),
            bytes_downloaded_formatted: format_bytes(down),
            uptime_formatted: format_uptime(uptime_seconds),
            last_reconnect_ago: ago,
        }
    }
}


// ---------------------------------------------------------------------
// Laws of the counters
// ---------------------------------------------------------------------

/// Total bytes of the `Upload` events of `es`.
pub open spec fn uploads(es: Seq<StatsEvent>) -> int
    decreases es.len(),
{
    if es.len() == 0 {
        0
    } else {
        uploads(es.drop_last()) + match es.last() {
            StatsEvent::Upload(n) => n as int,
            _ => 0,
        }
    }
}

/// Total bytes of the `Download` events of `es`.
pub open spec fn downloads(es: Seq<StatsEvent>) -> int
    decreases es.len(),
{
    if es.len() == 0 {
        0
    } else {
        downloads(es.drop_last()) + match es.last() {
            StatsEvent::Download(n) => n as int,
            _ => 0,
        }
    }
}

/// Number of `Opened` events in `es`.
pub open spec fn opened(es: Seq<StatsEvent>) -> int
    decreases es.len(),
{
    if es.len() == 0 {
        0
    } else {
        opened(es.drop_last()) + if es.last() is Opened {
            1int
        } else {
            0int
        }
    }
}

/// Number of `Closed` events in `es`.
pub open spec fn closed(es: Seq<StatsEvent>) -> int
    decreases es.len(),
{
    if es.len() == 0 {
        0
    } else {
        closed(es.drop_last()) + if es.last() is Closed {
            1int
        } else {
            0int
        }
    }
}

proof fn lemma_wrap_add(a: int, n: int, m: int)
    requires
        m > 0,
    ensures
        ((a % m) + n) % m == (a + n) % m,
{
    vstd::arithmetic::div_mod::lemma_add_mod_noop_right(n, a, m);
}

/// Whatever the order of the events, each counter ends at its start value
/// plus what the events add (less the closed connections, for the open
/// count), wrapped to the counter's width; the clock readings are
/// untouched.
pub proof fn law_counters_sum_events(s: TunnelStats, es: Seq<StatsEvent>)
    ensures
        after_events(s, es).bytes_uploaded == wrap64(s.bytes_uploaded + uploads(es)),
        after_events(s, es).bytes_downloaded == wrap64(s.bytes_downloaded + downloads(es)),
        after_events(s, es).connections_total == wrap64(s.connections_total + opened(es)),
        after_events(s, es).connections_open == wrap32(
            s.connections_open + opened(es) - closed(es),
        ),
        after_events(s, es).started_at == s.started_at,
        after_events(s, es).last_reconnect == s.last_reconnect,
    decreases es.len(),
{
    if es.len() > 0 {
        let p = es.drop_last();
        law_counters_sum_events(s, p);
        let t = after_events(s, p);
        lemma_wrap_add(s.bytes_uploaded + uploads(p), uploads(es) - uploads(p), u64_modulus());
        lemma_wrap_add(s.bytes_downloaded + downloads(p), downloads(es) - downloads(p), u64_modulus());
        lemma_wrap_add(s.connections_total + opened(p), opened(es) - opened(p), u64_modulus());
        lemma_wrap_add(
            s.connections_open + opened(p) - closed(p),
            (opened(es) - opened(p)) - (closed(es) - closed(p)),
            u32_modulus(),
        );
        assert(s.bytes_uploaded + uploads(p) + (uploads(es) - uploads(p)) == s.bytes_uploaded
            + uploads(es));
    }
}

/// After a reset, the counters count exactly the events that follow it:
/// bytes each way, connections handled, and connections still open
/// (opened less closed), each wrapped to the counter's width.
pub proof fn law_counts_since_reset(s: TunnelStats, es: Seq<StatsEvent>)
    ensures
        after_events(cleared(s), es).bytes_uploaded == wrap64(uploads(es)),
        after_events(cleared(s), es).bytes_downloaded == wrap64(downloads(es)),
        after_events(cleared(s), es).connections_total == wrap64(opened(es)),
        after_events(cleared(s), es).connections_open == wrap32(opened(es) - closed(es)),
{
    law_counters_sum_events(cleared(s), es);
}

/// After a reconnect, what is shown of the tunnel has every counter at zero
/// and a time since the last reconnect.
pub proof fn law_snapshot_after_reconnect(prev: TunnelStats, next: TunnelStats, snap: StatsSnapshot)
    requires
        reconnected(prev, next),
        shows_counters(snap, next),
    ensures
        snap.bytes_uploaded == 0,
        snap.bytes_downloaded == 0,
        snap.connections_open == 0,
        snap.connections_total == 0,
        snap.last_reconnect_ago is Some,
{
    let (uptime, reconnect_secs) = choose|uptime: u64, reconnect_secs: Option<u64>|
        #[trigger] snapshot_of(snap, next, uptime, reconnect_secs) && (reconnect_secs is Some
            <==> next.last_reconnect is Some);
    assert(snapshot_of(snap, next, uptime, reconnect_secs));
}

} // verus!
