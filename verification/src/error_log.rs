//! The in-app log of what went wrong (and right) with the tunnels: a
//! bounded list of the most recent entries.

use std::collections::VecDeque;
use vstd::prelude::*;
use vstd::string::*;

use crate::text::str_eq;

verus! {

broadcast use vstd::std_specs::vecdeque::group_vec_dequeue_axioms;

/// How many entries the log keeps; older ones are dropped first.
pub const MAX_ENTRIES: usize = 100;

/// One line of the log.
#[derive(Debug)]
pub struct LogEntry {
    /// Seconds since the Unix epoch.
    pub timestamp: u64,
    pub level: String,
    pub message: String,
    pub tunnel_name: Option<String>,
}

/// What a log entry says.
pub struct LogLine {
    pub timestamp: u64,
    pub level: Seq<char>,
    pub message: Seq<char>,
    pub tunnel_name: Option<Seq<char>>,
}

pub open spec fn opt_text(t: Option<String>) -> Option<Seq<char>> {
    match t {
        Some(s) => Some(s@),
        None => None,
    }
}

impl View for LogEntry {
    type V = LogLine;

    open spec fn view(&self) -> LogLine {
        LogLine {
            timestamp: self.timestamp,
            level: self.level@,
            message: self.message@,
            tunnel_name: opt_text(self.tunnel_name),
        }
    }
}

/// The views of a list of entries.
pub open spec fn lines_of(s: Seq<LogEntry>) -> Seq<LogLine> {
    s.map_values(|e: LogEntry| e@)
}

impl LogEntry {
    /// A field-by-field copy.
    pub fn duplicate(&self) -> (r: LogEntry)
        ensures
            r == *self,
    {
        LogEntry {
            timestamp: self.timestamp,
            level: self.level.clone(),
            message: self.message.clone(),
            tunnel_name: match &self.tunnel_name {
                Some(t) => Some(t.clone()),
                None => None,
            },
        }
    }
}

impl Clone for LogEntry {
    fn clone(&self) -> (r: LogEntry)
        ensures
            r == *self,
    {
        self.duplicate()
    }
}

#[verifier::external_type_specification]
#[verifier::external_body]
pub struct ExSystemTime(std::time::SystemTime);

/// `SystemTime::now`: the current wall-clock time. It depends on the time of
/// the call; nothing is claimed of it.
#[verifier::external_body]
fn system_now() -> (r: std::time::SystemTime) {
    std::time::SystemTime::now()
}

/// `SystemTime::duration_since(UNIX_EPOCH)` in whole seconds
/// (`Duration::as_secs`), or `None` for a time before the epoch (the error
/// case). The type is opaque here, so nothing is claimed of the result.
#[verifier::external_body]
fn secs_since_unix_epoch(t: &std::time::SystemTime) -> (r: Option<u64>) {
    match t.duration_since(std::time::UNIX_EPOCH) {
        Ok(d) => Some(d.as_secs()),
        Err(_) => None,
    }
}

/// The entries after one more is added: the oldest is dropped first when
/// the log is full.
pub open spec fn pushed(s: Seq<LogLine>, e: LogLine) -> Seq<LogLine> {
    if s.len() >= MAX_ENTRIES {
        s.drop_first().push(e)
    } else {
        s.push(e)
    }
}

/// How many entries of `s` have the level `level`.
pub open spec fn count_level(s: Seq<LogLine>, level: Seq<char>) -> nat
    decreases s.len(),
{
    if s.len() == 0 {
        0
    } else {
        count_level(s.drop_last(), level) + if s.last().level == level {
            1nat
        } else {
            0nat
        }
    }
}

/// The log, oldest entry first.
pub struct ErrorLog {
    entries: VecDeque<LogEntry>,
}

impl View for ErrorLog {
    type V = Seq<LogLine>;

    closed spec fn view(&self) -> Seq<LogLine> {
        lines_of(self.entries@)
    }
}

impl Default for ErrorLog {
    fn default() -> (r: ErrorLog)
        ensures
            r@ == Seq::<LogLine>::empty(),
            r@.len() <= MAX_ENTRIES,
    {
        ErrorLog::new()
    }
}

impl ErrorLog {
    /// The log holds at most `MAX_ENTRIES` entries.
    #[verifier::type_invariant]
    spec fn bounded(self) -> bool {
        self.entries@.len() <= MAX_ENTRIES
    }

    /// An empty log.
    pub fn new() -> (r: ErrorLog)
        ensures
            r@ == Seq::<LogLine>::empty(),
            r@.len() <= MAX_ENTRIES,
    {
        ErrorLog { entries: VecDeque::new() }
    }

    /// Adds an entry stamped with the current time.
    pub fn push(&mut self, level: &str, message: String, tunnel_name: Option<String>)
        ensures
            final(self)@.len() <= MAX_ENTRIES,
            exists|timestamp: u64|
                final(self)@ == pushed(
                    old(self)@,
                    #[trigger] entry_of(timestamp, level@, message, tunnel_name),
                ),
    {
        let now = system_now();
        let timestamp = match secs_since_unix_epoch(&now) {
            Some(secs) => secs,
            None => 0,
        };
        self.push_at(timestamp, level, message, tunnel_name);
    }

    /// Adds an entry with the given time stamp.
    pub fn push_at(&mut self, timestamp: u64, level: &str, message: String, tunnel_name: Option<String>)
        ensures
            final(self)@.len() <= MAX_ENTRIES,
            final(self)@ == pushed(old(self)@, entry_of(timestamp, level@, message, tunnel_name)),
    {
        proof {
            use_type_invariant(&*self);
        }
        let entry = LogEntry { timestamp, level: String::from_str(level), message, tunnel_name };
        let mut entries: VecDeque<LogEntry> = VecDeque::new();
        std::mem::swap(&mut entries, &mut self.entries);
        if entries.len() >= MAX_ENTRIES {
            entries.pop_front();
        }
        entries.push_back(entry);
        self.entries = entries;
        assert(self@ =~= pushed(old(self)@, entry_of(timestamp, level@, message, tunnel_name)));
    }

    /// Adds an entry of level "error".
    pub fn error(&mut self, message: String, tunnel_name: Option<String>)
        ensures
            final(self)@.len() <= MAX_ENTRIES,
            exists|timestamp: u64|
                final(self)@ == pushed(
                    old(self)@,
                    #[trigger] entry_of(timestamp, "error"@, message, tunnel_name),
                ),
    {
        self.push("error", message, tunnel_name);
    }

    /// Adds an entry of level "warn".
    pub fn warn(&mut self, message: String, tunnel_name: Option<String>)
        ensures
            final(self)@.len() <= MAX_ENTRIES,
            exists|timestamp: u64|
                final(self)@ == pushed(
                    old(self)@,
                    #[trigger] entry_of(timestamp, "warn"@, message, tunnel_name),
                ),
    {
        self.push("warn", message, tunnel_name);
    }

    /// Adds an entry of level "info".
    pub fn info(&mut self, message: String, tunnel_name: Option<String>)
        ensures
            final(self)@.len() <= MAX_ENTRIES,
            exists|timestamp: u64|
                final(self)@ == pushed(
                    old(self)@,
                    #[trigger] entry_of(timestamp, "info"@, message, tunnel_name),
                ),
    {
        self.push("info", message, tunnel_name);
    }

    /// All entries, oldest first.
    pub fn get_all(&self) -> (r: Vec<LogEntry>)
        ensures
            lines_of(r@) == self@,
            self@.len() <= MAX_ENTRIES,
    {
        proof {
            use_type_invariant(self);
        }
        let mut r: Vec<LogEntry> = Vec::new();
        let n = self.entries.len();
        let mut i: usize = 0;
        while i < n
            invariant
                n == self@.len(),
                i <= n,
                r@ == self.entries@.subrange(0, i as int),
            decreases n - i,
        {
            r.push(self.entries[i].duplicate());
            i = i + 1;
            assert(r@ =~= self.entries@.subrange(0, i as int));
        }
        assert(self.entries@.subrange(0, n as int) =~= self.entries@);
        r
    }

    /// How many entries have the level "error".
    pub fn error_count(&self) -> (r: usize)
        ensures
            r == count_level(self@, "error"@),
            self@.len() <= MAX_ENTRIES,
    {
        proof {
            use_type_invariant(self);
        }
        let n = self.entries.len();
        let mut i: usize = 0;
        let mut count: usize = 0;
        while i < n
            invariant
                n == self@.len(),
                n <= MAX_ENTRIES,
                i <= n,
                count == count_level(self@.subrange(0, i as int), "error"@),
                count <= i,
            decreases n - i,
        {
            assert(self@.subrange(0, i + 1).drop_last() =~= self@.subrange(0, i as int));
            assert(self@[i as int] == self.entries@[i as int]@);
            if str_eq(self.entries[i].level.as_str(), "error") {
                count = count + 1;
            }
            i = i + 1;
        }
        assert(self@.subrange(0, n as int) =~= self@);
        count
    }

    /// Drops every entry.
    pub fn clear(&mut self)
        ensures
            final(self)@ == Seq::<LogLine>::empty(),
            final(self)@.len() <= MAX_ENTRIES,
    {
        self.entries = VecDeque::new();
    }
}

/// The entry that a push with these arguments adds.
pub open spec fn entry_of(timestamp: u64, level: Seq<char>, message: String, tunnel_name: Option<String>) -> LogLine {
    LogLine { timestamp, level, message: message@, tunnel_name: opt_text(tunnel_name) }
}


/// The entries after pushing each of `es` in turn.
pub open spec fn pushed_all(s: Seq<LogLine>, es: Seq<LogLine>) -> Seq<LogLine>
    decreases es.len(),
{
    if es.len() == 0 {
        s
    } else {
        pushed(pushed_all(s, es.drop_last()), es.last())
    }
}

/// The last `MAX_ENTRIES` of `s` (all of it when shorter).
pub open spec fn latest(s: Seq<LogLine>) -> Seq<LogLine> {
    if s.len() > MAX_ENTRIES {
        s.subrange(s.len() - MAX_ENTRIES, s.len() as int)
    } else {
        s
    }
}

/// Whatever is pushed, the log holds exactly the most recent
/// `MAX_ENTRIES` entries of everything it was given, oldest first.
pub proof fn law_log_keeps_latest(s: Seq<LogLine>, es: Seq<LogLine>)
    requires
        s.len() <= MAX_ENTRIES,
    ensures
        pushed_all(s, es) == latest(s + es),
        pushed_all(s, es).len() <= MAX_ENTRIES,
    decreases es.len(),
{
    if es.len() > 0 {
        let p = es.drop_last();
        law_log_keeps_latest(s, p);
        let e = es.last();
        assert(s + es =~= (s + p).push(e));
        let l: int = (s + p).len() as int;
        if l < MAX_ENTRIES {
            assert(pushed_all(s, es) =~= latest(s + es));
        } else {
            let lp = latest(s + p);
            assert(lp.len() == MAX_ENTRIES);
            assert(lp.drop_first().push(e) =~= (s + es).subrange(l + 1 - MAX_ENTRIES, l + 1));
        }
    }
}

/// The number of entries of a level is the number of entries whose level
/// is exactly that text; in particular the error count counts the entries
/// of level "error" and nothing else.
pub proof fn law_count_level_counts_matching(s: Seq<LogLine>, level: Seq<char>)
    ensures
        count_level(s, level) == s.filter(|e: LogLine| e.level == level).len(),
    decreases s.len(),
{
    reveal_with_fuel(Seq::<LogLine>::filter, 1);
    if s.len() > 0 {
        law_count_level_counts_matching(s.drop_last(), level);
    }
}

/// Adding an entry of another level leaves the count of a level unchanged,
/// and adding one of that level raises it by one (before the log drops its
/// oldest entry): a warning or a note never counts as an error.
pub proof fn law_other_levels_do_not_count(s: Seq<LogLine>, e: LogLine, level: Seq<char>)
    ensures
        e.level != level ==> count_level(s.push(e), level) == count_level(s, level),
        e.level == level ==> count_level(s.push(e), level) == count_level(s, level) + 1,
{
    assert(s.push(e).drop_last() =~= s);
}

/// Logging a warning or a note leaves the error count of the log it is
/// added to as it was.
pub proof fn law_warnings_are_not_errors(s: Seq<LogLine>, e: LogLine)
    requires
        e.level == "warn"@ || e.level == "info"@,
    ensures
        count_level(s.push(e), "error"@) == count_level(s, "error"@),
{
    reveal_strlit("warn");
    reveal_strlit("info");
    reveal_strlit("error");
    assert("warn"@.len() != "error"@.len());
    assert("info"@.len() != "error"@.len());
    law_other_levels_do_not_count(s, e, "error"@);
}

} // verus!
