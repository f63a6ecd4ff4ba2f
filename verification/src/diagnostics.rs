//! The diagnostics log: a bounded buffer of the most recent log lines, each numbered in
//! the order it arrived, that the editor's console reads from.
use std::collections::VecDeque;
use vstd::prelude::*;
use vstd::string::StrSliceExecFns;

verus! {

#[verifier::external_type_specification]
#[verifier::external_body]
pub struct ExLevel(tracing::Level);

/// The verbosity of a log line, most severe first.
#[derive(Clone, Copy, Debug, PartialEq, Eq, Structural)]
pub enum LogLevel {
    Error,
    Warn,
    Info,
    Debug,
    Trace,
}

/// Which of tracing's five levels a `Level` is.
pub uninterp spec fn level_of(level: tracing::Level) -> LogLevel;

/// Tells tracing's levels apart: `ERROR`, `WARN`, `INFO`, `DEBUG`, and `TRACE` for the one
/// level left. The result is named.
#[verifier::external_body]
pub(crate) fn level_kind(level: &tracing::Level) -> (r: LogLevel)
    ensures
        r == level_of(*level),
{
    match *level {
        tracing::Level::ERROR => LogLevel::Error,
        tracing::Level::WARN => LogLevel::Warn,
        tracing::Level::INFO => LogLevel::Info,
        tracing::Level::DEBUG => LogLevel::Debug,
        _ => LogLevel::Trace,
    }
}

/// How `Level`'s `Display` writes a level in a field five wide: its upper-case name, padded
/// on the right with spaces.
pub open spec fn padded_level_name(level: LogLevel) -> Seq<char> {
    match level {
        LogLevel::Error => seq!['E', 'R', 'R', 'O', 'R'],
        LogLevel::Warn => seq!['W', 'A', 'R', 'N', ' '],
        LogLevel::Info => seq!['I', 'N', 'F', 'O', ' '],
        LogLevel::Debug => seq!['D', 'E', 'B', 'U', 'G'],
        LogLevel::Trace => seq!['T', 'R', 'A', 'C', 'E'],
    }
}

/// The line the console shows: `[LEVEL] target [span]: message`, or without the span part
/// when there is no span.
pub open spec fn display_line(level: LogLevel, target: Seq<char>, span: Option<Seq<char>>, message: Seq<char>) -> Seq<char> {
    match span {
        Some(s) => seq!['['] + padded_level_name(level) + seq![']', ' '] + target + seq![' ', '['] + s
            + seq![']', ':', ' '] + message,
        None => seq!['['] + padded_level_name(level) + seq![']', ' '] + target + seq![':', ' '] + message,
    }
}

/// What `str::to_lowercase` makes of a string.
pub uninterp spec fn lowercase(s: Seq<char>) -> Seq<char>;

/// Calls `str::to_lowercase`. Unicode case mapping is long to state; the result is named.
#[verifier::external_body]
pub(crate) fn to_lowercase(s: &str) -> (r: String)
    ensures
        r@ == lowercase(s@),
{
    s.to_lowercase()
}

/// `String::push`: appends one character.
#[verifier::external_body]
pub(crate) fn string_push(s: &mut String, c: char)
    ensures
        final(s)@ == old(s)@.push(c),
{
    s.push(c)
}

/// `String::push_str`: appends a string.
#[verifier::external_body]
pub(crate) fn string_push_str(s: &mut String, tail: &str)
    ensures
        final(s)@ == old(s)@ + tail@,
{
    s.push_str(tail)
}

/// A run of `n` spaces.
pub open spec fn spaces(n: nat) -> Seq<char> {
    Seq::new(n, |i: int| ' ')
}

/// The line `display_line` describes, built from the level's name as `Level` writes it.
pub fn display_text(level: &tracing::Level, target: &str, span: Option<&str>, message: &str) -> (r: String)
    ensures
        r@ == display_line(
            level_of(*level),
            target@,
            match span {
                Some(s) => Some(s@),
                None => None,
            },
            message@,
        ),
{
    let name = level_to_string(level);
    let mut line = String::new();
    string_push(&mut line, '[');
    string_push_str(&mut line, name.as_str());
    let mut width: usize = name.as_str().unicode_len();
    let ghost head = line@;
    proof {
        assert(head =~= seq!['['] + name@);
        assert(spaces(0) =~= Seq::<char>::empty());
        assert(line@ =~= head + spaces(0));
    }
    while width < 5
        invariant
            name@.len() <= width,
            width <= 5 || width == name@.len(),
            line@ == head + spaces((width - name@.len()) as nat),
        decreases 5 - width,
    {
        let ghost prev = line@;
        string_push(&mut line, ' ');
        width = width + 1;
        proof {
            assert(spaces((width - name@.len()) as nat) =~= spaces((width - 1 - name@.len()) as nat).push(' '));
            assert(line@ =~= head + spaces((width - name@.len()) as nat));
        }
    }
    proof {
        assert(name@ == level_name(level_of(*level)));
        assert(name@ + spaces((width - name@.len()) as nat) =~= padded_level_name(level_of(*level)));
        assert(line@ =~= seq!['['] + padded_level_name(level_of(*level)));
    }
    string_push(&mut line, ']');
    string_push(&mut line, ' ');
    string_push_str(&mut line, target);
    match span {
        Some(s) => {
            string_push(&mut line, ' ');
            string_push(&mut line, '[');
            string_push_str(&mut line, s);
            string_push(&mut line, ']');
        },
        None => {},
    }
    string_push(&mut line, ':');
    string_push(&mut line, ' ');
    string_push_str(&mut line, message);
    proof {
        assert(line@ =~= display_line(
            level_of(*level),
            target@,
            match span {
                Some(s) => Some(s@),
                None => None,
            },
            message@,
        ));
    }
    line
}

/// The separator between the parts of a filter key.
pub open spec fn key_separator() -> char {
    '\u{1}'
}

/// The text the console filter searches: the lower-cased target, span (when there is one)
/// and message, separated by `\u{1}` so that no match spans two parts.
pub open spec fn filter_key_text(target: Seq<char>, span: Option<Seq<char>>, message: Seq<char>) -> Seq<char> {
    match span {
        Some(s) => lowercase(target) + seq![key_separator()] + lowercase(s) + seq![key_separator()] + lowercase(message),
        None => lowercase(target) + seq![key_separator()] + lowercase(message),
    }
}

/// Span names joined root first, separated by `:`.
pub open spec fn joined(names: Seq<Seq<char>>) -> Seq<char>
    decreases names.len(),
{
    if names.len() == 0 {
        Seq::empty()
    } else if names.len() == 1 {
        names[0]
    } else {
        joined(names.drop_last()) + seq![':'] + names.last()
    }
}

/// The texts of `names`.
pub open spec fn texts(names: Seq<&str>) -> Seq<Seq<char>> {
    names.map_values(|n: &str| n@)
}

/// The span a line was logged in: the names of the spans it was logged in, root first,
/// joined with `:`; `None` when that comes out empty.
pub fn span_path(names: &[&str]) -> (r: Option<String>)
    ensures
        r is Some <==> joined(texts(names@)).len() > 0,
        r matches Some(s) ==> s@ == joined(texts(names@)),
{
    let mut path = String::new();
    let mut i: usize = 0;
    while i < names.len()
        invariant
            i <= names@.len(),
            path@ == joined(texts(names@.subrange(0, i as int))),
        decreases names@.len() - i,
    {
        let ghost before = names@.subrange(0, i as int);
        let ghost after = names@.subrange(0, i + 1);
        proof {
            assert(texts(after).drop_last() =~= texts(before));
            assert(texts(after).last() == names@[i as int]@);
        }
        if i > 0 {
            string_push(&mut path, ':');
        }
        string_push_str(&mut path, names[i]);
        proof {
            assert(path@ =~= joined(texts(after)));
        }
        i = i + 1;
    }
    proof {
        assert(names@.subrange(0, names@.len() as int) =~= names@);
    }
    if path.as_str().unicode_len() == 0 {
        None
    } else {
        Some(path)
    }
}

/// One line of the log.
pub struct LogEntry {
    pub seq: u64,
    pub level: tracing::Level,
    pub display: String,
    pub filter_key: String,
}

/// The most recent log lines, oldest first, numbered consecutively. Once `capacity`
/// lines are held, each new line evicts the oldest.
pub struct LogBufferInner {
    entries: VecDeque<LogEntry>,
    capacity: usize,
    next_seq: u64,
}

/// The line numbered `seq` among `entries`, whose numbers run consecutively up to `next`
/// (exclusive).
pub open spec fn line_at(entries: Seq<LogEntry>, next: u64, seq: u64) -> Option<LogEntry> {
    let head = next - entries.len();
    if head <= seq < next {
        Some(entries[seq - head])
    } else {
        None
    }
}

impl LogBufferInner {
    /// Lines are numbered consecutively up to `next`, and there are no more of them than
    /// the capacity (or than one, for capacity zero).
    pub closed spec fn wf(&self) -> bool {
        &&& self.entries@.len() <= self.next_seq
        &&& (self.entries@.len() <= self.capacity || self.entries@.len() <= 1)
        &&& forall|i: int| 0 <= i < self.entries@.len() ==> (#[trigger] self.entries@[i]).seq
            == self.next_seq - self.entries@.len() + i
    }

    /// The lines held, oldest first.
    pub closed spec fn lines(&self) -> Seq<LogEntry> {
        self.entries@
    }

    /// The number the next line will get.
    pub closed spec fn next(&self) -> u64 {
        self.next_seq
    }

    /// How many lines the buffer keeps.
    pub closed spec fn cap(&self) -> usize {
        self.capacity
    }

    /// The number of the oldest line held (or of the next line, when none is held).
    pub open spec fn head(&self) -> int {
        self.next() - self.lines().len()
    }

    /// The held line numbered `seq`, if any.
    pub open spec fn line(&self, seq: u64) -> Option<LogEntry> {
        line_at(self.lines(), self.next(), seq)
    }

    /// What a well-formed buffer keeps.
    pub proof fn lemma_wf(&self)
        requires
            self.wf(),
        ensures
            self.lines().len() <= self.next(),
            self.lines().len() <= self.cap() || self.lines().len() <= 1,
            forall|i: int| 0 <= i < self.lines().len() ==> (#[trigger] self.lines()[i]).seq == self.head() + i,
    {
    }

    /// An empty buffer that keeps the `capacity` most recent lines.
    pub fn new(capacity: usize) -> (r: Self)
        ensures
            r.wf(),
            r.lines().len() == 0,
            r.next() == 0,
            r.cap() == capacity,
    {
        LogBufferInner { entries: VecDeque::with_capacity(capacity), capacity, next_seq: 0 }
    }

    /// The number the next line will get.
    pub fn next_seq(&self) -> (r: u64)
        ensures
            r == self.next(),
    {
        self.next_seq
    }

    /// The number of the oldest line held.
    pub fn head_seq(&self) -> (r: u64)
        requires
            self.wf(),
        ensures
            r == self.head(),
    {
        self.next_seq - self.entries.len() as u64
    }

    /// The held line numbered `seq`, or `None` when it was evicted or has not arrived.
    pub fn get(&self, seq: u64) -> (r: Option<&LogEntry>)
        requires
            self.wf(),
        ensures
            r is Some <==> self.line(seq) is Some,
            r matches Some(e) ==> *e == self.line(seq)->0,
            r matches Some(e) ==> e.seq == seq,
    {
        let head_seq = self.head_seq();
        if seq < head_seq {
            return None;
        }
        let offset = seq - head_seq;
        if offset >= self.entries.len() as u64 {
            return None;
        }
        Some(&self.entries[offset as usize])
    }

    /// The held lines numbered `from` or later, oldest first.
    pub fn entries_from(&self, from: u64) -> (r: Vec<&LogEntry>)
        requires
            self.wf(),
        ensures
            r@.len() == self.lines().len() - skipped(self.head(), self.lines().len(), from),
            forall|j: int| 0 <= j < r@.len() ==> *(#[trigger] r@[j]) == self.lines()[skipped(
                self.head(),
                self.lines().len(),
                from,
            ) + j],
    {
        let head_seq = self.head_seq();
        let skip: u64 = if from > head_seq {
            from - head_seq
        } else {
            0
        };
        let len = self.entries.len();
        let start: usize = if skip >= len as u64 {
            len
        } else {
            skip as usize
        };
        let mut out: Vec<&LogEntry> = Vec::new();
        let mut i: usize = start;
        while i < len
            invariant
                len == self.entries@.len(),
                start <= i <= len,
                start == skipped(self.head(), self.lines().len(), from),
                out@.len() == i - start,
                forall|j: int| 0 <= j < out@.len() ==> *(#[trigger] out@[j]) == self.entries@[start + j],
            decreases len - i,
        {
            out.push(&self.entries[i]);
            i = i + 1;
        }
        out
    }

    /// Appends a line of `level` from `target`, in `span` if any, with `message`; the oldest
    /// line is evicted first when the buffer is full. The line gets the next number.
    pub fn push(&mut self, level: tracing::Level, target: &str, span: Option<String>, message: &str)
        requires
            old(self).wf(),
            old(self).next() < u64::MAX,
        ensures
            final(self).wf(),
            final(self).next() == old(self).next() + 1,
            final(self).cap() == old(self).cap(),
            final(self).lines() == kept(old(self).lines(), old(self).cap()).push(final(self).lines().last()),
            final(self).lines().last().seq == old(self).next(),
            final(self).lines().last().level == level,
            final(self).lines().last().display@ == display_line(
                level_of(level),
                target@,
                match span {
                    Some(s) => Some(s@),
                    None => None,
                },
                message@,
            ),
            final(self).lines().last().filter_key@ == filter_key_text(
                target@,
                match span {
                    Some(s) => Some(s@),
                    None => None,
                },
                message@,
            ),
    {
        if self.entries.len() >= self.capacity {
            let _ = self.entries.pop_front();
        }
        let seq = self.next_seq;
        let display = match &span {
            Some(s) => display_text(&level, target, Some(s.as_str()), message),
            None => display_text(&level, target, None, message),
        };
        let mut filter_key = to_lowercase(target);
        match &span {
            Some(s) => {
                string_push(&mut filter_key, '\u{1}');
                let lowered = to_lowercase(s.as_str());
                string_push_str(&mut filter_key, lowered.as_str());
            },
            None => {},
        }
        string_push(&mut filter_key, '\u{1}');
        let lowered = to_lowercase(message);
        string_push_str(&mut filter_key, lowered.as_str());
        proof {
            match span {
                Some(s) => {
                    assert(filter_key@ =~= filter_key_text(target@, Some(s@), message@));
                },
                None => {
                    assert(filter_key@ =~= filter_key_text(target@, None, message@));
                },
            }
        }
        self.entries.push_back(LogEntry { seq, level, display, filter_key });
        self.next_seq = seq + 1;
    }
}

/// How many of `len` lines starting at number `head` come before number `from`.
pub open spec fn skipped(head: int, len: nat, from: u64) -> int {
    if from <= head {
        0
    } else if from - head >= len {
        len as int
    } else {
        from - head
    }
}

/// The lines a full buffer of `capacity` keeps before taking one more: all of them, or all
/// but the oldest once there are `capacity` or more.
pub open spec fn kept(lines: Seq<LogEntry>, capacity: usize) -> Seq<LogEntry> {
    if lines.len() >= capacity && lines.len() > 0 {
        lines.drop_first()
    } else {
        lines
    }
}

/// What a push leaves behind: the pushed line reads back under the number it was given,
/// every other line still held reads back as before, no line that was gone comes back, the
/// buffer stays within its capacity (one line, for capacity zero), and the oldest number
/// held never goes down.
pub proof fn lemma_push_read_back(before: LogBufferInner, after: LogBufferInner, entry: LogEntry)
    requires
        before.wf(),
        after.next() == before.next() + 1,
        after.cap() == before.cap(),
        after.lines() == kept(before.lines(), before.cap()).push(entry),
    ensures
        after.line(before.next()) == Some(entry),
        forall|s: u64| s != before.next() && (#[trigger] after.line(s)) is Some ==> after.line(s) == before.line(s),
        after.lines().len() <= before.cap() || after.lines().len() <= 1,
        after.head() >= before.head(),
{
    let old_lines = before.lines();
    let k = kept(old_lines, before.cap());
    assert(after.lines().len() == k.len() + 1);
    assert(after.lines()[k.len() as int] == entry);
    assert forall|s: u64| s != before.next() && (#[trigger] after.line(s)) is Some implies after.line(s) == before.line(s) by {
        let i = s - after.head();
        assert(after.lines()[i] == k[i]);
        if old_lines.len() >= before.cap() && old_lines.len() > 0 {
            assert(k[i] == old_lines[i + 1]);
        }
    }
}

/// `after` is `before` with one line of `level` pushed, as `push` leaves it.
pub open spec fn pushed(before: LogBufferInner, after: LogBufferInner, level: tracing::Level) -> bool {
    &&& after.wf()
    &&& after.next() == before.next() + 1
    &&& after.cap() == before.cap()
    &&& after.lines() == kept(before.lines(), before.cap()).push(after.lines().last())
    &&& after.lines().last().seq == before.next()
    &&& after.lines().last().level == level
}

/// The smaller of two numbers.
pub open spec fn min_nat(a: nat, b: nat) -> nat {
    if a <= b {
        a
    } else {
        b
    }
}

/// After `n` pushes onto an empty buffer that keeps `c >= 1` lines (`states` holds the
/// buffer before and after each push, `levels` the level of each), the buffer holds the
/// last `min(n, c)` lines: numbered `n - min(n, c)` up to `n`, oldest first, each with the
/// level it was pushed with. The oldest are evicted first.
pub proof fn lemma_pushes(states: Seq<LogBufferInner>, levels: Seq<tracing::Level>)
    requires
        states.len() == levels.len() + 1,
        states[0].wf(),
        states[0].lines().len() == 0,
        states[0].next() == 0,
        states[0].cap() >= 1,
        forall|j: int| 0 <= j < levels.len() ==> pushed(states[j], #[trigger] states[j + 1], levels[j]),
    ensures
        states.last().next() == levels.len(),
        states.last().cap() == states[0].cap(),
        states.last().lines().len() == min_nat(levels.len(), states[0].cap() as nat),
        states.last().head() == levels.len() - min_nat(levels.len(), states[0].cap() as nat),
        forall|i: int| 0 <= i < states.last().lines().len() ==> {
            &&& (#[trigger] states.last().lines()[i]).seq == states.last().head() + i
            &&& states.last().lines()[i].level == levels[states.last().head() + i]
        },
    decreases levels.len(),
{
    let n = levels.len();
    let c = states[0].cap() as nat;
    if n > 0 {
        let earlier = states.drop_last();
        let fewer = levels.drop_last();
        assert forall|j: int| 0 <= j < fewer.len() implies pushed(earlier[j], #[trigger] earlier[j + 1], fewer[j]) by {
            assert(pushed(states[j], states[j + 1], levels[j]));
        }
        lemma_pushes(earlier, fewer);
        let j = n - 1;
        assert(pushed(states[j], states[j + 1], levels[j]));
        let prev = states[j];
        let last = states[j + 1];
        assert(earlier.last() == prev);
        assert(states.last() == last);
        prev.lemma_wf();
        last.lemma_wf();
        let k = kept(prev.lines(), prev.cap());
        assert(last.lines().len() == k.len() + 1);
        assert forall|i: int| 0 <= i < last.lines().len() implies {
            &&& (#[trigger] last.lines()[i]).seq == last.head() + i
            &&& last.lines()[i].level == levels[last.head() + i]
        } by {
            if i < k.len() {
                assert(last.lines()[i] == k[i]);
                if prev.lines().len() >= prev.cap() && prev.lines().len() > 0 {
                    assert(k[i] == prev.lines()[i + 1]);
                    assert(fewer[prev.head() + i + 1] == levels[prev.head() + i + 1]);
                } else {
                    assert(fewer[prev.head() + i] == levels[prev.head() + i]);
                }
            } else {
                assert(last.lines()[i] == last.lines().last());
            }
        }
    } else {
        assert(states.last() == states[0]);
    }
}

// --- the tag some crates bake into their messages -----------------------------------------------

/// How `Level`'s `Display` writes a level without a width: its upper-case name.
pub open spec fn level_name(level: LogLevel) -> Seq<char> {
    match level {
        LogLevel::Error => seq!['E', 'R', 'R', 'O', 'R'],
        LogLevel::Warn => seq!['W', 'A', 'R', 'N'],
        LogLevel::Info => seq!['I', 'N', 'F', 'O'],
        LogLevel::Debug => seq!['D', 'E', 'B', 'U', 'G'],
        LogLevel::Trace => seq!['T', 'R', 'A', 'C', 'E'],
    }
}

/// `level.to_string()`: the level's upper-case name.
#[verifier::external_body]
pub(crate) fn level_to_string(level: &tracing::Level) -> (r: String)
    ensures
        r@ == level_name(level_of(*level)),
{
    level.to_string()
}

/// The tag `[target][level] ` that some crates put at the start of their messages, with
/// the level lower-cased.
pub open spec fn self_tag_text(target: Seq<char>, level: LogLevel) -> Seq<char> {
    seq!['['] + target + seq![']', '['] + lowercase(level_name(level)) + seq![']', ' ']
}

/// The tag `[target][level] ` a message from `target` at `level` may start with.
pub fn self_tag(target: &str, level: tracing::Level) -> (r: String)
    ensures
        r@ == self_tag_text(target@, level_of(level)),
{
    let name = level_to_string(&level);
    let lowered = to_lowercase(name.as_str());
    let mut tag = String::new();
    string_push(&mut tag, '[');
    string_push_str(&mut tag, target);
    string_push(&mut tag, ']');
    string_push(&mut tag, '[');
    string_push_str(&mut tag, lowered.as_str());
    string_push(&mut tag, ']');
    string_push(&mut tag, ' ');
    proof {
        assert(tag@ =~= self_tag_text(target@, level_of(level)));
    }
    tag
}

/// `prefix` is a prefix of `s`.
pub open spec fn starts_with(s: Seq<char>, prefix: Seq<char>) -> bool {
    prefix.len() <= s.len() && s.subrange(0, prefix.len() as int) == prefix
}

/// Calls `str::strip_prefix` with a string prefix: the rest of `s` after `prefix`, when `s`
/// starts with it.
#[verifier::external_body]
pub(crate) fn str_strip_prefix<'a>(s: &'a str, prefix: &str) -> (r: Option<&'a str>)
    ensures
        r is Some <==> starts_with(s@, prefix@),
        r matches Some(rest) ==> rest@ == s@.skip(prefix@.len() as int),
{
    s.strip_prefix(prefix)
}

/// A message without the `[target][level] ` tag it may start with.
pub fn strip_self_tag<'a>(message: &'a str, target: &str, level: tracing::Level) -> (r: &'a str)
    ensures
        starts_with(message@, self_tag_text(target@, level_of(level))) ==> r@ == message@.skip(
            self_tag_text(target@, level_of(level)).len() as int,
        ),
        !starts_with(message@, self_tag_text(target@, level_of(level))) ==> r@ == message@,
{
    let tag = self_tag(target, level);
    match str_strip_prefix(message, tag.as_str()) {
        Some(rest) => rest,
        None => message,
    }
}

/// `tag` occurs in `s` starting at index `i`.
pub open spec fn occurs_at(s: Seq<char>, tag: Seq<char>, i: int) -> bool {
    0 <= i && i + tag.len() <= s.len() && s.subrange(i, i + tag.len()) == tag
}

/// Calls `str::split_once` with a string delimiter: the parts before and after the first
/// occurrence of `tag` in `s`, when there is one.
#[verifier::external_body]
pub(crate) fn str_split_once<'a>(s: &'a str, tag: &str) -> (r: Option<(&'a str, &'a str)>)
    ensures
        r is Some <==> exists|i: int| occurs_at(s@, tag@, i),
        r matches Some((before, after)) ==> {
            &&& occurs_at(s@, tag@, before@.len() as int)
            &&& forall|j: int| 0 <= j < before@.len() ==> !occurs_at(s@, tag@, j)
            &&& before@ == s@.subrange(0, before@.len() as int)
            &&& after@ == s@.skip((before@.len() + tag@.len()) as int)
        },
{
    s.split_once(tag)
}

/// `s` with the first occurrence of `tag` cut out, or `s` unchanged when `tag` does not
/// occur in it.
pub fn remove_first(s: &str, tag: &str) -> (r: String)
    ensures
        (exists|i: int| occurs_at(s@, tag@, i)) ==> exists|i: int| {
            &&& occurs_at(s@, tag@, i)
            &&& forall|j: int| 0 <= j < i ==> !occurs_at(s@, tag@, j)
            &&& r@ == s@.subrange(0, i) + s@.skip(i + tag@.len())
        },
        !(exists|i: int| occurs_at(s@, tag@, i)) ==> r@ == s@,
{
    match str_split_once(s, tag) {
        Some((before, after)) => {
            let mut out = before.to_owned();
            string_push_str(&mut out, after);
            proof {
                let i = before@.len() as int;
                assert(occurs_at(s@, tag@, i));
                assert(out@ == s@.subrange(0, i) + s@.skip(i + tag@.len()));
            }
            out
        },
        None => s.to_owned(),
    }
}


/// The characters of `names` together.
pub open spec fn total_len(names: Seq<Seq<char>>) -> int
    decreases names.len(),
{
    if names.len() == 0 {
        0
    } else {
        total_len(names.drop_last()) + names.last().len()
    }
}

/// A span path splits where the runs of spans split: the path of two non-empty runs of
/// names, one after the other, is the path of the first, one `:`, and the path of the
/// second.
pub proof fn lemma_joined_concat(a: Seq<Seq<char>>, b: Seq<Seq<char>>)
    requires
        a.len() > 0,
        b.len() > 0,
    ensures
        joined(a + b) == joined(a) + seq![':'] + joined(b),
    decreases b.len(),
{
    assert((a + b).drop_last() =~= a + b.drop_last());
    assert((a + b).last() == b.last());
    if b.len() == 1 {
        assert(b.drop_last() =~= Seq::<Seq<char>>::empty());
        assert(a + b.drop_last() =~= a);
        assert(joined(b) == b[0]);
    } else {
        lemma_joined_concat(a, b.drop_last());
        assert(joined(a + b) =~= joined(a) + seq![':'] + joined(b));
    }
}

/// A span path of `n >= 1` names holds their characters and `n - 1` separators: its
/// length is the names' lengths together plus `n - 1`, the path of one name is that name,
/// and each name but the first follows a `:` right after the path of the names before it.
pub proof fn lemma_joined_len(names: Seq<Seq<char>>)
    requires
        names.len() > 0,
    ensures
        joined(names).len() == total_len(names) + names.len() - 1,
        names.len() == 1 ==> joined(names) == names[0],
        names.len() > 1 ==> {
            let before = joined(names.drop_last());
            &&& joined(names).subrange(0, before.len() as int) == before
            &&& joined(names)[before.len() as int] == ':'
            &&& joined(names).subrange(before.len() as int + 1, joined(names).len() as int) == names.last()
        },
    decreases names.len(),
{
    if names.len() > 1 {
        lemma_joined_len(names.drop_last());
        let before = joined(names.drop_last());
        let all = joined(names);
        assert(all == before + seq![':'] + names.last());
        assert(all.subrange(0, before.len() as int) =~= before);
        assert(all.subrange(before.len() as int + 1, all.len() as int) =~= names.last());
    } else {
        assert(names.drop_last().len() == 0);
        assert(total_len(names.drop_last()) == 0);
        assert(names.last() == names[0]);
    }
}

} // verus!
