//! The console's view of the diagnostics log: which lines pass the level toggles and the
//! text filter, kept up to date incrementally as lines arrive and old ones are evicted.
use vstd::prelude::*;
use crate::diagnostics::{level_kind, level_of, skipped, to_lowercase, LogBufferInner, LogEntry, LogLevel, lowercase};

verus! {

/// The toggle slot of a level: error, warn, info, debug, trace in that order.
pub open spec fn slot_of(level: LogLevel) -> int {
    match level {
        LogLevel::Error => 0,
        LogLevel::Warn => 1,
        LogLevel::Info => 2,
        LogLevel::Debug => 3,
        LogLevel::Trace => 4,
    }
}

/// The index of a level's toggle in the console's level filter.
pub fn level_slot(level: tracing::Level) -> (r: usize)
    ensures
        r == slot_of(level_of(level)),
        r < 5,
{
    match level_kind(&level) {
        LogLevel::Error => 0,
        LogLevel::Warn => 1,
        LogLevel::Info => 2,
        LogLevel::Debug => 3,
        LogLevel::Trace => 4,
    }
}

/// The level whose toggle sits at `slot`: error, warn, info, debug, trace in that order.
pub open spec fn level_at(slot: int) -> LogLevel {
    if slot == 0 {
        LogLevel::Error
    } else if slot == 1 {
        LogLevel::Warn
    } else if slot == 2 {
        LogLevel::Info
    } else if slot == 3 {
        LogLevel::Debug
    } else {
        LogLevel::Trace
    }
}

/// The label of a level's toggle: its name with only the first letter capital.
pub open spec fn toggle_label(level: LogLevel) -> Seq<char> {
    match level {
        LogLevel::Error => seq!['E', 'r', 'r', 'o', 'r'],
        LogLevel::Warn => seq!['W', 'a', 'r', 'n'],
        LogLevel::Info => seq!['I', 'n', 'f', 'o'],
        LogLevel::Debug => seq!['D', 'e', 'b', 'u', 'g'],
        LogLevel::Trace => seq!['T', 'r', 'a', 'c', 'e'],
    }
}

/// The upper-case form of an ASCII letter; other characters stay as they are.
pub open spec fn upper_char(c: char) -> char {
    if 'a' <= c && c <= 'z' {
        ((c as u32) - 32) as char
    } else {
        c
    }
}

/// The label of the level toggle at `slot`.
pub fn level_label(slot: usize) -> (r: &'static str)
    requires
        slot < 5,
    ensures
        r@ == toggle_label(level_at(slot as int)),
{
    proof {
        reveal_strlit("Error");
        reveal_strlit("Warn");
        reveal_strlit("Info");
        reveal_strlit("Debug");
        reveal_strlit("Trace");
    }
    match slot {
        0 => "Error",
        1 => "Warn",
        2 => "Info",
        3 => "Debug",
        _ => "Trace",
    }
}

/// The toggles and the levels match up: the toggle at a level's slot is that level's, and
/// its label, upper-cased, is the level's name as `Level` writes it.
pub proof fn lemma_toggle_names_level(level: LogLevel)
    ensures
        0 <= slot_of(level) < 5,
        level_at(slot_of(level)) == level,
        toggle_label(level).map_values(|c: char| upper_char(c)) == crate::diagnostics::level_name(level),
{
    assert(toggle_label(level).map_values(|c: char| upper_char(c)) =~= crate::diagnostics::level_name(level));
}

/// Where a level stands in tracing's order of levels, in which a more verbose level is
/// greater: error, warn, info, debug, trace.
pub open spec fn verbosity(level: LogLevel) -> int {
    match level {
        LogLevel::Error => 0,
        LogLevel::Warn => 1,
        LogLevel::Info => 2,
        LogLevel::Debug => 3,
        LogLevel::Trace => 4,
    }
}

/// `Level`'s `<`: `a` is less verbose than `b`.
#[verifier::external_body]
pub(crate) fn level_lt(a: &tracing::Level, b: &tracing::Level) -> (r: bool)
    ensures
        r == (verbosity(level_of(*a)) < verbosity(level_of(*b))),
{
    a < b
}

/// Whether `a` is more verbose than `b` in tracing's order of levels.
pub fn more_verbose(a: tracing::Level, b: tracing::Level) -> (r: bool)
    ensures
        r == (slot_of(level_of(a)) > slot_of(level_of(b))),
{
    level_lt(&b, &a)
}

/// The toggles follow tracing's order of levels: one level's toggle sits left of another's
/// exactly when it is the less verbose of the two, and two levels share a toggle only when
/// they are the same level.
pub proof fn lemma_slots_follow_level_order(a: LogLevel, b: LogLevel)
    ensures
        verbosity(a) < verbosity(b) <==> slot_of(a) < slot_of(b),
        a == b <==> slot_of(a) == slot_of(b),
{
}

/// `needle` occurs in `haystack` as a contiguous run.
pub open spec fn occurs_in(haystack: Seq<char>, needle: Seq<char>) -> bool {
    exists|i: int| 0 <= i <= haystack.len() - needle.len() && #[trigger] haystack.subrange(i, i + needle.len()) == needle
}

/// Calls `str::contains` with a string pattern: whether `needle` occurs in `haystack`.
#[verifier::external_body]
pub(crate) fn str_contains(haystack: &str, needle: &str) -> (r: bool)
    ensures
        r == occurs_in(haystack@, needle@),
{
    haystack.contains(needle)
}

/// A line passes the filter when its level is shown and the lower-cased filter text is empty
/// or occurs in the line's filter key.
pub open spec fn accepts(levels: Seq<bool>, lower: Seq<char>, entry: LogEntry) -> bool {
    &&& levels[slot_of(level_of(entry.level))]
    &&& (lower.len() == 0 || occurs_in(entry.filter_key@, lower))
}

/// The numbers of the lines of `lines` that pass the filter, in order.
pub open spec fn scan(levels: Seq<bool>, lower: Seq<char>, lines: Seq<LogEntry>) -> Seq<u64>
    decreases lines.len(),
{
    if lines.len() == 0 {
        seq![]
    } else {
        let earlier = scan(levels, lower, lines.drop_last());
        if accepts(levels, lower, lines.last()) {
            earlier.push(lines.last().seq)
        } else {
            earlier
        }
    }
}

/// The index of the first number in `s` that is at least `cutoff`, or the length of `s`.
pub open spec fn first_at_least(s: Seq<u64>, cutoff: u64) -> int
    decreases s.len(),
{
    if s.len() == 0 {
        0
    } else if s[0] >= cutoff {
        0
    } else {
        1 + first_at_least(s.drop_first(), cutoff)
    }
}

/// The larger of two numbers.
pub open spec fn max_u64(a: u64, b: u64) -> u64 {
    if a >= b {
        a
    } else {
        b
    }
}

/// The console's filter state and the line numbers it shows.
pub struct Console {
    filtered: Vec<u64>,
    scanned_to: u64,
    min_seq: u64,
    filter_text: String,
    filter_lower: String,
    show_level: [bool; 5],
    autoscroll: bool,
    context_seq: Option<u64>,
}

impl Console {
    /// The numbers of the lines shown, in order.
    pub closed spec fn shown(&self) -> Seq<u64> {
        self.filtered@
    }

    /// Lines numbered below this have been looked at.
    pub closed spec fn scanned(&self) -> u64 {
        self.scanned_to
    }

    /// Lines numbered below this were cleared away.
    pub closed spec fn floor(&self) -> u64 {
        self.min_seq
    }

    /// The filter text as typed.
    pub closed spec fn text(&self) -> Seq<char> {
        self.filter_text@
    }

    /// The lower-cased filter text the lines were filtered with.
    pub closed spec fn lower(&self) -> Seq<char> {
        self.filter_lower@
    }

    /// The level toggles, by slot.
    pub closed spec fn levels(&self) -> Seq<bool> {
        self.show_level@
    }

    /// Whether the view follows new lines.
    pub closed spec fn follows(&self) -> bool {
        self.autoscroll
    }

    /// The line whose context menu is open, if any.
    pub closed spec fn context_line(&self) -> Option<u64> {
        self.context_seq
    }

    /// `self` is what syncing `before` against `inner` makes of it, with the filter text
    /// changed or not: the lines now cut off (evicted, or cleared away) are dropped from
    /// the front, the lines not yet looked at are scanned, and everything up to the
    /// buffer's next number counts as looked at. A changed filter starts over from the
    /// cutoff.
    pub open spec fn synced(&self, before: Console, inner: LogBufferInner, filter_changed: bool) -> bool {
        let cutoff = max_u64(inner.head() as u64, before.floor());
        let base = if filter_changed {
            Seq::<u64>::empty()
        } else {
            before.shown()
        };
        let scanned = if filter_changed {
            cutoff
        } else {
            before.scanned()
        };
        let from = max_u64(scanned, cutoff);
        &&& self.lower() == if filter_changed {
            lowercase(before.text())
        } else {
            before.lower()
        }
        &&& self.shown() == base.skip(first_at_least(base, cutoff)) + scan(
            self.levels(),
            self.lower(),
            inner.lines().skip(skipped(inner.head(), inner.lines().len(), from)),
        )
        &&& self.scanned() == inner.next()
        &&& self.floor() == before.floor()
        &&& self.text() == before.text()
        &&& self.levels() == before.levels()
        &&& self.follows() == before.follows()
        &&& self.context_line() == before.context_line()
    }

    /// A console showing nothing yet, with every level but trace shown, no filter text,
    /// and following new lines.
    pub fn new() -> (r: Console)
        ensures
            r.shown().len() == 0,
            r.scanned() == 0,
            r.floor() == 0,
            r.text().len() == 0,
            r.lower().len() == 0,
            r.levels() == seq![true, true, true, true, false],
            r.follows(),
            r.context_line() is None,
    {
        Console {
            filtered: Vec::new(),
            scanned_to: 0,
            min_seq: 0,
            filter_text: String::new(),
            filter_lower: String::new(),
            show_level: [true, true, true, true, false],
            autoscroll: true,
            context_seq: None,
        }
    }

    /// Whether a line passes the filter.
    pub fn matches(&self, entry: &LogEntry) -> (r: bool)
        ensures
            r == accepts(self.levels(), self.lower(), *entry),
    {
        let slot = level_slot(entry.level);
        if !self.show_level[slot] {
            return false;
        }
        self.filter_lower.as_str().is_empty() || str_contains(entry.filter_key.as_str(), self.filter_lower.as_str())
    }

    /// Brings the shown lines up to date with `inner`; see `synced`.
    pub fn sync_filtered(&mut self, inner: &LogBufferInner, filter_changed: bool)
        requires
            inner.wf(),
        ensures
            final(self).synced(*old(self), *inner, filter_changed),
    {
        let head = inner.head_seq();
        let cutoff = if head >= self.min_seq {
            head
        } else {
            self.min_seq
        };
        if filter_changed {
            self.filter_lower = to_lowercase(self.filter_text.as_str());
            self.filtered = Vec::new();
            self.scanned_to = cutoff;
        }
        let ghost base = self.filtered@;
        let mut stale: usize = 0;
        proof {
            assert(base.skip(0) == base);
        }
        while stale < self.filtered.len() && self.filtered[stale] < cutoff
            invariant
                stale <= self.filtered@.len(),
                self.filtered@ == base,
                first_at_least(base, cutoff) == stale + first_at_least(base.skip(stale as int), cutoff),
            decreases self.filtered@.len() - stale,
        {
            proof {
                assert(base.skip(stale as int).drop_first() == base.skip(stale + 1));
            }
            stale = stale + 1;
        }
        proof {
            if stale < base.len() {
                assert(base.skip(stale as int)[0] == base[stale as int]);
            }
            assert(first_at_least(base.skip(stale as int), cutoff) == 0);
        }
        let mut kept: Vec<u64> = Vec::new();
        let mut i: usize = stale;
        while i < self.filtered.len()
            invariant
                stale <= i <= self.filtered@.len(),
                self.filtered@ == base,
                kept@ == base.subrange(stale as int, i as int),
            decreases self.filtered@.len() - i,
        {
            kept.push(self.filtered[i]);
            i = i + 1;
        }
        proof {
            assert(kept@ == base.skip(first_at_least(base, cutoff)));
        }
        let from = if self.scanned_to >= cutoff {
            self.scanned_to
        } else {
            cutoff
        };
        let fresh = inner.entries_from(from);
        let ghost lines = inner.lines().skip(skipped(inner.head(), inner.lines().len(), from));
        proof {
            assert(fresh@.len() == lines.len());
        }
        let ghost prefix_len = kept@.len();
        let mut j: usize = 0;
        while j < fresh.len()
            invariant
                j <= fresh@.len(),
                fresh@.len() == lines.len(),
                forall|k: int| 0 <= k < fresh@.len() ==> *(#[trigger] fresh@[k]) == lines[k],
                kept@ == base.skip(first_at_least(base, cutoff)) + scan(
                    self.levels(),
                    self.lower(),
                    lines.subrange(0, j as int),
                ),
            decreases fresh@.len() - j,
        {
            let entry = fresh[j];
            proof {
                assert(lines.subrange(0, j + 1).drop_last() == lines.subrange(0, j as int));
                assert(lines.subrange(0, j + 1).last() == *entry);
            }
            if self.matches(entry) {
                kept.push(entry.seq);
            }
            j = j + 1;
        }
        proof {
            assert(lines.subrange(0, j as int) == lines);
        }
        self.filtered = kept;
        self.scanned_to = inner.next_seq();
    }

    /// Clears the view: lines numbered below the buffer's next number are no longer shown.
    pub fn clear(&mut self, inner: &LogBufferInner)
        ensures
            final(self).floor() == inner.next(),
            final(self).scanned() == inner.next(),
            final(self).shown().len() == 0,
            final(self).lower() == old(self).lower(),
            final(self).text() == old(self).text(),
            final(self).levels() == old(self).levels(),
            final(self).follows() == old(self).follows(),
            final(self).context_line() == old(self).context_line(),
    {
        self.min_seq = inner.next_seq();
        self.filtered = Vec::new();
        self.scanned_to = self.min_seq;
    }

    /// The numbers of the lines shown, in order.
    pub fn filtered(&self) -> (r: &Vec<u64>)
        ensures
            r@ == self.shown(),
    {
        &self.filtered
    }

    /// Whether the level toggle at `slot` is on.
    pub fn level_shown(&self, slot: usize) -> (r: bool)
        requires
            slot < 5,
        ensures
            r == self.levels()[slot as int],
    {
        self.show_level[slot]
    }

    /// Turns the level toggle at `slot` on or off. The shown lines follow at the next sync
    /// with the filter marked changed.
    pub fn set_level_shown(&mut self, slot: usize, shown: bool)
        requires
            slot < 5,
        ensures
            final(self).levels() == old(self).levels().update(slot as int, shown),
            final(self).shown() == old(self).shown(),
            final(self).scanned() == old(self).scanned(),
            final(self).floor() == old(self).floor(),
            final(self).text() == old(self).text(),
            final(self).lower() == old(self).lower(),
            final(self).follows() == old(self).follows(),
            final(self).context_line() == old(self).context_line(),
    {
        self.show_level[slot] = shown;
    }

    /// The filter text as typed.
    pub fn filter_text(&self) -> (r: &String)
        ensures
            r@ == self.text(),
    {
        &self.filter_text
    }

    /// Replaces the filter text. The shown lines follow at the next sync with the filter
    /// marked changed.
    pub fn set_filter_text(&mut self, text: String)
        ensures
            final(self).text() == text@,
            final(self).shown() == old(self).shown(),
            final(self).scanned() == old(self).scanned(),
            final(self).floor() == old(self).floor(),
            final(self).levels() == old(self).levels(),
            final(self).lower() == old(self).lower(),
            final(self).follows() == old(self).follows(),
            final(self).context_line() == old(self).context_line(),
    {
        self.filter_text = text;
    }

    /// Whether the view follows new lines.
    pub fn autoscroll(&self) -> (r: bool)
        ensures
            r == self.follows(),
    {
        self.autoscroll
    }

    /// Makes the view follow new lines, or not.
    pub fn set_autoscroll(&mut self, follow: bool)
        ensures
            final(self).follows() == follow,
            final(self).shown() == old(self).shown(),
            final(self).scanned() == old(self).scanned(),
            final(self).floor() == old(self).floor(),
            final(self).text() == old(self).text(),
            final(self).levels() == old(self).levels(),
            final(self).lower() == old(self).lower(),
            final(self).context_line() == old(self).context_line(),
    {
        self.autoscroll = follow;
    }

    /// The line whose context menu is open, if any.
    pub fn context_seq(&self) -> (r: Option<u64>)
        ensures
            r == self.context_line(),
    {
        self.context_seq
    }

    /// Records the line whose context menu is open.
    pub fn set_context_seq(&mut self, seq: Option<u64>)
        ensures
            final(self).context_line() == seq,
            final(self).shown() == old(self).shown(),
            final(self).scanned() == old(self).scanned(),
            final(self).floor() == old(self).floor(),
            final(self).text() == old(self).text(),
            final(self).levels() == old(self).levels(),
            final(self).lower() == old(self).lower(),
            final(self).follows() == old(self).follows(),
    {
        self.context_seq = seq;
    }
}


// --- incremental filtering ---------------------------------------------------------------------

/// Every line of `history` is numbered by its position: the whole log as it arrived.
pub open spec fn numbered(history: Seq<LogEntry>) -> bool {
    forall|i: int| 0 <= i < history.len() ==> (#[trigger] history[i]).seq == i
}

/// Scanning two runs of lines one after the other gives the two scans one after the other.
pub proof fn lemma_scan_concat(levels: Seq<bool>, lower: Seq<char>, a: Seq<LogEntry>, b: Seq<LogEntry>)
    ensures
        scan(levels, lower, a + b) == scan(levels, lower, a) + scan(levels, lower, b),
    decreases b.len(),
{
    if b.len() == 0 {
        assert(a + b == a);
        assert(scan(levels, lower, a) + scan(levels, lower, b) == scan(levels, lower, a));
    } else {
        lemma_scan_concat(levels, lower, a, b.drop_last());
        assert((a + b).drop_last() == a + b.drop_last());
        assert((a + b).last() == b.last());
    }
}

/// A scan of lines numbered within `[lo, hi)` yields numbers within `[lo, hi)`.
proof fn lemma_scan_bounds(levels: Seq<bool>, lower: Seq<char>, lines: Seq<LogEntry>, lo: int, hi: int)
    requires
        forall|i: int| 0 <= i < lines.len() ==> lo <= #[trigger] lines[i].seq < hi,
    ensures
        forall|j: int| 0 <= j < scan(levels, lower, lines).len() ==> lo <= #[trigger] scan(levels, lower, lines)[j] < hi,
    decreases lines.len(),
{
    if lines.len() > 0 {
        let shorter = lines.drop_last();
        assert forall|i: int| 0 <= i < shorter.len() implies lo <= #[trigger] shorter[i].seq < hi by {
            assert(shorter[i] == lines[i]);
        }
        lemma_scan_bounds(levels, lower, shorter, lo, hi);
        assert(lines.last() == lines[lines.len() - 1]);
        let earlier = scan(levels, lower, shorter);
        let all = scan(levels, lower, lines);
        if accepts(levels, lower, lines.last()) {
            assert(all == earlier.push(lines.last().seq));
            assert forall|j: int| 0 <= j < all.len() implies lo <= #[trigger] all[j] < hi by {
                if j < earlier.len() {
                    assert(all[j] == earlier[j]);
                }
            }
        } else {
            assert(all == earlier);
        }
    }
}

/// When everything in `a` is below `cutoff` and `b` starts at or above it, the first number
/// at or above `cutoff` in `a + b` is the first of `b`.
proof fn lemma_first_at_least_split(a: Seq<u64>, b: Seq<u64>, cutoff: u64)
    requires
        forall|i: int| 0 <= i < a.len() ==> #[trigger] a[i] < cutoff,
        b.len() > 0 ==> b[0] >= cutoff,
    ensures
        first_at_least(a + b, cutoff) == a.len(),
    decreases a.len(),
{
    if a.len() == 0 {
        assert(a + b == b);
    } else {
        assert((a + b)[0] == a[0]);
        assert((a + b).drop_first() == a.drop_first() + b);
        assert forall|i: int| 0 <= i < a.drop_first().len() implies #[trigger] a.drop_first()[i] < cutoff by {
            assert(a.drop_first()[i] == a[i + 1]);
        }
        lemma_first_at_least_split(a.drop_first(), b, cutoff);
    }
}

/// Incremental filtering agrees with filtering from scratch. Say the console showed the
/// matching lines of the log numbered from `lo` up to what it had looked at, `lo` is no
/// later than the new cutoff (the later of the buffer's oldest line and the clear point),
/// and the buffer holds the log's lines from its oldest to its newest. Then after a sync
/// the console shows exactly the matching lines from the cutoff to the newest. With the
/// filter changed, it does so whatever it showed before.
pub proof fn lemma_sync_matches_rescan(
    before: Console,
    after: Console,
    inner: LogBufferInner,
    history: Seq<LogEntry>,
    lo: u64,
    filter_changed: bool,
)
    requires
        inner.wf(),
        numbered(history),
        inner.next() <= history.len(),
        inner.lines() == history.subrange(inner.head(), inner.next() as int),
        before.floor() <= inner.next(),
        !filter_changed ==> {
            &&& lo <= max_u64(inner.head() as u64, before.floor())
            &&& lo <= before.scanned() <= inner.next()
            &&& before.shown() == scan(
                before.levels(),
                before.lower(),
                history.subrange(lo as int, before.scanned() as int),
            )
        },
        after.synced(before, inner, filter_changed),
    ensures
        after.shown() == scan(
            after.levels(),
            after.lower(),
            history.subrange(max_u64(inner.head() as u64, before.floor()) as int, inner.next() as int),
        ),
{
    inner.lemma_wf();
    let head = inner.head();
    let next = inner.next() as int;
    let cutoff = max_u64(head as u64, before.floor());
    let levels = after.levels();
    let lower = after.lower();
    let scanned = if filter_changed {
        cutoff
    } else {
        before.scanned()
    };
    let from = max_u64(scanned, cutoff);
    assert(head <= cutoff <= from <= next);
    let skip = skipped(head, inner.lines().len(), from);
    assert(inner.lines().skip(skip) == history.subrange(from as int, next));
    let fresh = scan(levels, lower, history.subrange(from as int, next));
    if filter_changed {
        let empty = Seq::<u64>::empty();
        assert(empty.skip(first_at_least(empty, cutoff)) == empty);
        assert(after.shown() == empty + fresh);
        assert(empty + fresh == fresh);
    } else {
        let sc = before.scanned() as int;
        if cutoff as int <= sc {
            let left = history.subrange(lo as int, cutoff as int);
            let mid = history.subrange(cutoff as int, sc);
            assert(history.subrange(lo as int, sc) == left + mid);
            lemma_scan_concat(levels, lower, left, mid);
            let s1 = scan(levels, lower, left);
            let s2 = scan(levels, lower, mid);
            assert forall|i: int| 0 <= i < left.len() implies lo <= #[trigger] left[i].seq < cutoff by {
                assert(left[i] == history[lo + i]);
            }
            assert forall|i: int| 0 <= i < mid.len() implies cutoff <= #[trigger] mid[i].seq < sc by {
                assert(mid[i] == history[cutoff + i]);
            }
            lemma_scan_bounds(levels, lower, left, lo as int, cutoff as int);
            lemma_scan_bounds(levels, lower, mid, cutoff as int, sc);
            lemma_first_at_least_split(s1, s2, cutoff);
            assert((s1 + s2).skip(s1.len() as int) == s2);
            assert(history.subrange(cutoff as int, next) == mid + history.subrange(sc, next));
            lemma_scan_concat(levels, lower, mid, history.subrange(sc, next));
        } else {
            let run = history.subrange(lo as int, sc);
            let s1 = scan(levels, lower, run);
            assert forall|i: int| 0 <= i < run.len() implies lo <= #[trigger] run[i].seq < sc by {
                assert(run[i] == history[lo + i]);
            }
            lemma_scan_bounds(levels, lower, run, lo as int, sc);
            assert forall|i: int| 0 <= i < s1.len() implies #[trigger] s1[i] < cutoff by {}
            lemma_first_at_least_split(s1, Seq::<u64>::empty(), cutoff);
            assert(s1 + Seq::<u64>::empty() == s1);
            assert(s1.skip(s1.len() as int) == Seq::<u64>::empty());
            assert(Seq::<u64>::empty() + fresh == fresh);
        }
    }
}


/// Every number of `s` is below every later one.
pub open spec fn increasing(s: Seq<u64>) -> bool {
    forall|i: int, j: int| 0 <= i < j < s.len() ==> #[trigger] s[i] < #[trigger] s[j]
}

/// A scan of lines numbered consecutively from `lo` is increasing and lies within the
/// numbers of those lines.
proof fn lemma_scan_increasing(levels: Seq<bool>, lower: Seq<char>, lines: Seq<LogEntry>, lo: int)
    requires
        forall|i: int| 0 <= i < lines.len() ==> #[trigger] lines[i].seq == lo + i,
    ensures
        increasing(scan(levels, lower, lines)),
        forall|j: int| 0 <= j < scan(levels, lower, lines).len() ==> lo <= #[trigger] scan(levels, lower, lines)[j]
            < lo + lines.len(),
    decreases lines.len(),
{
    if lines.len() > 0 {
        let shorter = lines.drop_last();
        assert forall|i: int| 0 <= i < shorter.len() implies #[trigger] shorter[i].seq == lo + i by {
            assert(shorter[i] == lines[i]);
        }
        lemma_scan_increasing(levels, lower, shorter, lo);
        assert(lines.last() == lines[lines.len() - 1]);
        let earlier = scan(levels, lower, shorter);
        let all = scan(levels, lower, lines);
        if accepts(levels, lower, lines.last()) {
            assert(all == earlier.push(lines.last().seq));
            assert forall|j: int| 0 <= j < all.len() implies lo <= #[trigger] all[j] < lo + lines.len() by {
                if j < earlier.len() {
                    assert(all[j] == earlier[j]);
                }
            }
            assert forall|a: int, b: int| 0 <= a < b < all.len() implies #[trigger] all[a] < #[trigger] all[b] by {
                assert(all[a] == earlier[a]);
                if b < earlier.len() {
                    assert(all[b] == earlier[b]);
                }
            }
        } else {
            assert(all == earlier);
        }
    }
}

/// In an increasing sequence, everything from the first number at or above `cutoff` on is
/// at or above it.
proof fn lemma_first_at_least_rest(s: Seq<u64>, cutoff: u64)
    requires
        increasing(s),
    ensures
        0 <= first_at_least(s, cutoff) <= s.len(),
        forall|i: int| first_at_least(s, cutoff) <= i < s.len() ==> #[trigger] s[i] >= cutoff,
    decreases s.len(),
{
    if s.len() > 0 {
        if s[0] >= cutoff {
            assert forall|i: int| 0 <= i < s.len() implies #[trigger] s[i] >= cutoff by {
                if i > 0 {
                    assert(s[0] < s[i]);
                }
            }
        } else {
            let rest = s.drop_first();
            assert forall|a: int, b: int| 0 <= a < b < rest.len() implies #[trigger] rest[a] < #[trigger] rest[b] by {
                assert(s[a + 1] < s[b + 1]);
            }
            lemma_first_at_least_rest(rest, cutoff);
            assert forall|i: int| first_at_least(s, cutoff) <= i < s.len() implies #[trigger] s[i] >= cutoff by {
                assert(rest[i - 1] == s[i]);
            }
        }
    }
}

/// The shown lines stay in order across a sync: when the console showed an increasing
/// list of lines it had looked at, it shows an increasing list afterwards, and only lines
/// the buffer still holds, numbered at or above both its oldest line and the clear point.
/// So once the view is cleared at `m`, no line numbered below `m` is shown again.
pub proof fn lemma_sync_increasing(before: Console, after: Console, inner: LogBufferInner, filter_changed: bool)
    requires
        inner.wf(),
        !filter_changed ==> {
            &&& increasing(before.shown())
            &&& forall|i: int| 0 <= i < before.shown().len() ==> #[trigger] before.shown()[i] < before.scanned()
            &&& before.scanned() <= inner.next()
        },
        after.synced(before, inner, filter_changed),
    ensures
        increasing(after.shown()),
        forall|i: int| 0 <= i < after.shown().len() ==> {
            &&& max_u64(inner.head() as u64, before.floor()) <= #[trigger] after.shown()[i]
            &&& after.shown()[i] < after.scanned()
            &&& inner.line(after.shown()[i]) is Some
        },
        after.scanned() == inner.next(),
{
    inner.lemma_wf();
    let head = inner.head();
    let len = inner.lines().len();
    let cutoff = max_u64(head as u64, before.floor());
    let base = if filter_changed {
        Seq::<u64>::empty()
    } else {
        before.shown()
    };
    let scanned = if filter_changed {
        cutoff
    } else {
        before.scanned()
    };
    let from = max_u64(scanned, cutoff);
    let skip = skipped(head, len, from);
    let lines = inner.lines().skip(skip);
    let lo = head + skip;
    assert forall|i: int| 0 <= i < lines.len() implies #[trigger] lines[i].seq == lo + i by {
        assert(lines[i] == inner.lines()[skip + i]);
    }
    lemma_scan_increasing(after.levels(), after.lower(), lines, lo);
    let tail = scan(after.levels(), after.lower(), lines);
    lemma_first_at_least_rest(base, cutoff);
    let f = first_at_least(base, cutoff);
    let front = base.skip(f);
    assert(after.shown() == front + tail);
    assert forall|i: int| 0 <= i < front.len() implies cutoff <= #[trigger] front[i] && front[i] < scanned
        && front[i] < from by {
        assert(front[i] == base[f + i]);
    }
    assert forall|j: int| 0 <= j < tail.len() implies from <= #[trigger] tail[j] && tail[j] < inner.next() by {
        assert(lines.len() > 0);
        assert(skip == from - head);
    }
    let all = after.shown();
    assert forall|a: int, b: int| 0 <= a < b < all.len() implies #[trigger] all[a] < #[trigger] all[b] by {
        if b < front.len() {
            assert(all[a] == base[f + a]);
            assert(all[b] == base[f + b]);
        } else if a < front.len() {
            assert(all[a] == front[a]);
            assert(all[b] == tail[b - front.len()]);
        } else {
            assert(all[a] == tail[a - front.len()]);
            assert(all[b] == tail[b - front.len()]);
        }
    }
    assert forall|i: int| 0 <= i < all.len() implies {
        &&& cutoff <= #[trigger] all[i]
        &&& all[i] < after.scanned()
        &&& inner.line(all[i]) is Some
    } by {
        if i < front.len() {
            assert(all[i] == front[i]);
        } else {
            assert(all[i] == tail[i - front.len()]);
        }
    }
}


/// The text filter is a substring search over the whole filter key. With its level shown,
/// a line passes exactly when the lower-cased filter text is empty or equals the key's
/// characters from some position `i` on, for any `i` the key's length allows; so a filter
/// text the key starts with (the start of the lower-cased target) always matches, and a
/// line whose level is hidden never does.
pub proof fn lemma_filter_is_substring_search(levels: Seq<bool>, lower: Seq<char>, entry: LogEntry)
    ensures
        accepts(levels, lower, entry) <==> {
            &&& levels[slot_of(level_of(entry.level))]
            &&& (lower.len() == 0 || exists|i: int|
                0 <= i && i + lower.len() <= entry.filter_key@.len() && #[trigger] entry.filter_key@.subrange(
                    i,
                    i + lower.len(),
                ) == lower)
        },
        levels[slot_of(level_of(entry.level))] && lower.len() <= entry.filter_key@.len()
            && entry.filter_key@.subrange(0, lower.len() as int) == lower ==> accepts(levels, lower, entry),
        !levels[slot_of(level_of(entry.level))] ==> !accepts(levels, lower, entry),
{
    let key = entry.filter_key@;
    if levels[slot_of(level_of(entry.level))] && lower.len() <= key.len() && key.subrange(0, lower.len() as int)
        == lower {
        assert(key.subrange(0, 0 + lower.len() as int) == lower);
        assert(occurs_in(key, lower));
    }
}

} // verus!
