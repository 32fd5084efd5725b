//! The logger's decisions: which log file to continue at start-up, when to
//! move on to a new file, and how each record is written.
use vstd::prelude::*;
use crate::numbers::{decimal_spec, is_digit, law_decimal_round_trip, lemma_decimal_digits, parse_bounded, parse_unsigned_spec, push_signed_decimal, signed_decimal_spec, IntErrorKind};
use crate::text::{chars_of, ends_with_spec, push_str, starts_with_spec, string_push};

verus! {

/// The levels a record can have, from the most to the least severe.
#[derive(Debug, Clone, Copy, PartialEq, Eq, Structural)]
pub enum LogLevel {
    /// Very serious errors.
    Error,
    /// Hazardous situations.
    Warn,
    /// Useful information.
    Info,
    /// Lower priority information.
    Debug,
    /// Very low priority, often extremely verbose, information.
    Trace,
}

/// The name the `log` crate gives each level.
pub open spec fn level_name_spec(level: LogLevel) -> Seq<char> {
    match level {
        LogLevel::Error => "ERROR"@,
        LogLevel::Warn => "WARN"@,
        LogLevel::Info => "INFO"@,
        LogLevel::Debug => "DEBUG"@,
        LogLevel::Trace => "TRACE"@,
    }
}

/// The name of a level, from `log::Level::as_str`, which returns the entry
/// of the level in the crate's table of names ("ERROR", "WARN", "INFO",
/// "DEBUG", "TRACE"). The contract states that table.
#[verifier::external_body]
fn level_name(level: LogLevel) -> (res: &'static str)
    ensures
        res@ == level_name_spec(level),
{
    let l = match level {
        LogLevel::Error => log::Level::Error,
        LogLevel::Warn => log::Level::Warn,
        LogLevel::Info => log::Level::Info,
        LogLevel::Debug => log::Level::Debug,
        LogLevel::Trace => log::Level::Trace,
    };
    l.as_str()
}

/// The escape sequence that starts the colour of a level on a terminal
/// (none for traces).
pub open spec fn level_colour_spec(level: LogLevel) -> Seq<char> {
    match level {
        LogLevel::Error => "\u{001b}[0;31m"@,
        LogLevel::Warn => "\u{001b}[0;33m"@,
        LogLevel::Info => "\u{001b}[0;36m"@,
        LogLevel::Debug => "\u{001b}[0;35m"@,
        LogLevel::Trace => Seq::empty(),
    }
}

/// The label of a level in a record: its name, coloured for the terminal
/// (red errors, yellow warnings, cyan information, magenta debugging, plain
/// traces).
pub open spec fn level_label_spec(level: LogLevel) -> Seq<char> {
    match level {
        LogLevel::Trace => level_name_spec(level),
        _ => level_colour_spec(level) + level_name_spec(level) + "\u{001b}[0m"@,
    }
}

/// The label of a level in a record (see `level_label_spec`).
pub fn level_label(level: LogLevel) -> (res: String)
    ensures
        res@ == level_label_spec(level),
{
    let name = level_name(level);
    let mut res = match level {
        LogLevel::Error => String::from_str("\u{001b}[0;31m"),
        LogLevel::Warn => String::from_str("\u{001b}[0;33m"),
        LogLevel::Info => String::from_str("\u{001b}[0;36m"),
        LogLevel::Debug => String::from_str("\u{001b}[0;35m"),
        LogLevel::Trace => String::new(),
    };
    push_str(&mut res, name);
    match level {
        LogLevel::Trace => {},
        _ => push_str(&mut res, "\u{001b}[0m"),
    }
    proof {
        if level == LogLevel::Trace {
            assert(res@ =~= level_label_spec(level));
        }
    }
    res
}

/// Whether records of a level are written: all are.
pub fn enabled(level: LogLevel) -> (res: bool)
    ensures
        res,
{
    true
}

/// `s` preceded by spaces up to `width` characters, as `{:>width}` writes it.
pub open spec fn pad_left_spec(s: Seq<char>, width: nat) -> Seq<char> {
    if s.len() >= width {
        s
    } else {
        Seq::new((width - s.len()) as nat, |i: int| ' ') + s
    }
}

/// A record as it is printed and written: the time, the logger's name, the
/// level label right-aligned in sixteen characters between brackets, and the
/// message.
pub open spec fn registry_spec(
    time: Seq<char>,
    logger_id: Seq<char>,
    label: Seq<char>,
    message: Seq<char>,
) -> Seq<char> {
    time + " "@ + logger_id + "["@ + pad_left_spec(label, 16) + "]: "@ + message
}

/// A record as it is printed and written (see `registry_spec`).
pub fn format_registry(time: &str, logger_id: &str, level: LogLevel, message: &str) -> (res: String)
    ensures
        res@ == registry_spec(time@, logger_id@, level_label_spec(level), message@),
{
    let label = level_label(level);
    let lc = chars_of(label.as_str());
    let mut res = String::from_str(time);
    push_str(&mut res, " ");
    push_str(&mut res, logger_id);
    push_str(&mut res, "[");
    let ghost before = res@;
    if lc.len() < 16 {
        let pad = 16 - lc.len();
        for i in 0..pad
            invariant
                res@ == before + Seq::new(i as nat, |j: int| ' '),
        {
            string_push(&mut res, ' ');
            assert(res@ =~= before + Seq::new((i + 1) as nat, |j: int| ' '));
        }
    }
    push_str(&mut res, label.as_str());
    push_str(&mut res, "]: ");
    push_str(&mut res, message);
    assert(res@ =~= registry_spec(time@, logger_id@, level_label_spec(level), message@));
    res
}

/// What the named group `name` of the regular expression `pattern` captures
/// in `haystack` (none when the expression does not match, the group does
/// not take part, or the pattern is not a valid expression).
pub uninterp spec fn regex_named_capture(
    pattern: Seq<char>,
    name: Seq<char>,
    haystack: Seq<char>,
) -> Option<Seq<char>>;

/// What the group `number` of the log file pattern
/// `(?x)^trace-(?P<number>[0-9]+)\.log$` captures in a text: the text must
/// be `trace-`, one or more ASCII digits and `.log`, from its start (`^`) to
/// its end (`$`); the group holds the digits.
pub open spec fn trace_capture_spec(h: Seq<char>) -> Option<Seq<char>> {
    if h.len() >= 11 && starts_with_spec(h, "trace-"@) && ends_with_spec(h, ".log"@) && (forall|
        i: int,
    | 6 <= i < h.len() - 4 ==> #[trigger] is_digit(h[i])) {
        Some(h.subrange(6, h.len() - 4))
    } else {
        None
    }
}

/// Runs `regex::Regex::new(pattern)` and, if it builds, `captures(haystack)`
/// and `name(name)` on the result, returning the captured text. In general
/// the regex engine's matching is not restated: the result is the named
/// function `regex_named_capture` of the three arguments. For the log file
/// pattern and its group `number`, the regex syntax documentation gives the
/// result in a few lines (`^` and `$` anchor at the ends of the text,
/// `[0-9]+` is one or more ASCII digits, `\.` a dot), stated by
/// `trace_capture_spec`.
#[verifier::external_body]
fn named_capture(pattern: &str, name: &str, haystack: &str) -> (res: Option<String>)
    ensures
        match res {
            Some(s) => regex_named_capture(pattern@, name@, haystack@) == Some(s@),
            None => regex_named_capture(pattern@, name@, haystack@) is None,
        },
        pattern@ == trace_pattern() && name@ == "number"@ ==> match res {
            Some(s) => trace_capture_spec(haystack@) == Some(s@),
            None => trace_capture_spec(haystack@) is None,
        },
{
    let re = match regex::Regex::new(pattern) {
        Ok(re) => re,
        Err(_) => return None,
    };
    let caps = re.captures(haystack)?;
    let m = caps.name(name)?;
    Some(m.as_str().to_string())
}

/// The pattern log file names follow: `trace-<number>.log`.
pub open spec fn trace_pattern() -> Seq<char> {
    "(?x)^trace-(?P<number>[0-9]+)\\.log$"@
}

/// What a file name in the log folder says about the log files.
#[derive(Debug, Clone, Copy, PartialEq, Eq, Structural)]
pub enum TraceName {
    /// A log file with this number.
    Number(i64),
    /// Not a log file.
    NoMatch,
    /// A log file whose number cannot be read as an `i64`.
    Unreadable(IntErrorKind),
}

/// What a file name says about the log files: the number captured by the
/// log file pattern, read as an `i64`.
pub open spec fn trace_name_spec(filename: Seq<char>) -> TraceName {
    match trace_capture_spec(filename) {
        None => TraceName::NoMatch,
        Some(digits) => match parse_unsigned_spec(digits, i64::MAX as int) {
            Ok(v) => TraceName::Number(v as i64),
            Err(k) => TraceName::Unreadable(k),
        },
    }
}

/// What a file name says about the log files (see `trace_name_spec`).
pub fn trace_name(filename: &str) -> (res: TraceName)
    ensures
        res == trace_name_spec(filename@),
{
    match named_capture("(?x)^trace-(?P<number>[0-9]+)\\.log$", "number", filename) {
        None => TraceName::NoMatch,
        Some(digits) => {
            let d = chars_of(digits.as_str());
            match parse_bounded(d.as_slice(), 0x7fff_ffff_ffff_ffffu64) {
                Ok(v) => TraceName::Number(v as i64),
                Err(k) => TraceName::Unreadable(k),
            }
        },
    }
}

/// The highest log file number among `names`, or -1 when there is none;
/// none when a log file's number cannot be read.
pub open spec fn latest_number_spec(names: Seq<Seq<char>>) -> Option<int>
    decreases names.len(),
{
    if names.len() == 0 {
        Some(-1)
    } else {
        match latest_number_spec(names.drop_last()) {
            None => None,
            Some(m) => match trace_name_spec(names.last()) {
                TraceName::Number(v) => Some(if v > m { v as int } else { m }),
                TraceName::NoMatch => Some(m),
                TraceName::Unreadable(_) => None,
            },
        }
    }
}

/// The number of the latest log file among the names of a folder's files
/// (see `latest_number_spec`).
pub fn latest_log_number(names: &Vec<String>) -> (res: Option<i64>)
    ensures
        match res {
            Some(n) => latest_number_spec(names@.map_values(|s: String| s@)) == Some(n as int),
            None => latest_number_spec(names@.map_values(|s: String| s@)) is None,
        },
        res matches Some(n) ==> n >= -1,
{
    let ghost all = names@.map_values(|s: String| s@);
    let mut best: i64 = -1;
    for i in 0..names.len()
        invariant
            all == names@.map_values(|s: String| s@),
            latest_number_spec(all.take(i as int)) == Some(best as int),
            best >= -1,
    {
        assert(all.take(i + 1).drop_last() =~= all.take(i as int));
        assert(all.take(i + 1).last() == names@[i as int]@);
        match trace_name(names[i].as_str()) {
            TraceName::Number(v) => {
                if v > best {
                    best = v;
                }
            },
            TraceName::NoMatch => {},
            TraceName::Unreadable(_) => {
                proof {
                    lemma_latest_prefix_none(all, i + 1);
                }
                return None;
            },
        }
    }
    assert(all.take(names.len() as int) =~= all);
    Some(best)
}

proof fn lemma_latest_prefix_none(names: Seq<Seq<char>>, n: int)
    requires
        0 <= n <= names.len(),
        latest_number_spec(names.take(n)) is None,
    ensures
        latest_number_spec(names) is None,
    decreases names.len() - n,
{
    if n < names.len() {
        assert(names.take(n + 1).drop_last() =~= names.take(n));
        lemma_latest_prefix_none(names, n + 1);
    } else {
        assert(names.take(n) =~= names);
    }
}

/// A name that is not a log file name changes nothing: the latest number of
/// a listing with such a name added is that of the listing without it.
pub proof fn law_non_log_names_ignored(names: Seq<Seq<char>>, f: Seq<char>)
    requires
        trace_name_spec(f) == TraceName::NoMatch,
    ensures
        latest_number_spec(names.push(f)) == latest_number_spec(names),
{
    assert(names.push(f).drop_last() =~= names);
}

/// The latest number of a listing whose log file numbers all read is the
/// largest of them, or -1 when there is none: it is at least -1 and every
/// log file number, and it is -1 or the number of one of the log files,
/// whatever the order of the listing and the other names in it.
pub proof fn law_latest_is_maximum(names: Seq<Seq<char>>)
    requires
        forall|i: int| 0 <= i < names.len() ==> !(trace_name_spec(#[trigger] names[i]) is Unreadable),
    ensures
        latest_number_spec(names) matches Some(m) && m >= -1 && (forall|i: int|
            0 <= i < names.len() ==> (#[trigger] trace_name_spec(names[i]) matches TraceName::Number(
                v,
            ) ==> v <= m)) && (m == -1 || exists|i: int|
            0 <= i < names.len() && trace_name_spec(names[i]) == TraceName::Number(m as i64)),
    decreases names.len(),
{
    if names.len() > 0 {
        let init = names.drop_last();
        assert forall|i: int| 0 <= i < init.len() implies !(trace_name_spec(
            #[trigger] init[i],
        ) is Unreadable) by {
            assert(init[i] == names[i]);
        }
        law_latest_is_maximum(init);
        let m0 = latest_number_spec(init)->Some_0;
        let last = names.last();
        assert(!(trace_name_spec(names[names.len() - 1]) is Unreadable));
        let m = latest_number_spec(names)->Some_0;
        assert forall|i: int| 0 <= i < names.len() implies (#[trigger] trace_name_spec(
            names[i],
        ) matches TraceName::Number(v) ==> v <= m) by {
            if i < init.len() {
                assert(init[i] == names[i]);
                assert(trace_name_spec(init[i]) matches TraceName::Number(v) ==> v <= m0);
            }
        }
        if m != -1 {
            if m == m0 {
                let j = choose|j: int|
                    0 <= j < init.len() && trace_name_spec(init[j]) == TraceName::Number(m0 as i64);
                assert(names[j] == init[j]);
            } else {
                assert(trace_name_spec(names[names.len() - 1]) == TraceName::Number(m as i64));
            }
        }
    }
}

/// The name of the log file with a given number: `trace-<number>.log`.
pub open spec fn log_file_name_spec(n: int) -> Seq<char> {
    "trace-"@ + signed_decimal_spec(n) + ".log"@
}

/// The name of the log file with a given number.
pub fn log_file_name(n: i64) -> (res: String)
    ensures
        res@ == log_file_name_spec(n as int),
{
    let mut res = String::from_str("trace-");
    push_signed_decimal(&mut res, n);
    push_str(&mut res, ".log");
    res
}

/// A log file is recognised by the number it was named with: for every
/// number a log file can have, reading the name `log_file_name` gives it back
/// yields that number.
pub proof fn law_log_file_name_read_back(n: int)
    requires
        0 <= n <= i64::MAX,
    ensures
        trace_name_spec(log_file_name_spec(n)) == TraceName::Number(n as i64),
{
    let d = decimal_spec(n as nat);
    let h = log_file_name_spec(n);
    reveal_strlit("trace-");
    reveal_strlit(".log");
    lemma_decimal_digits(n as nat);
    law_decimal_round_trip(n as nat, i64::MAX as int);
    assert(signed_decimal_spec(n) == d);
    assert(h =~= "trace-"@ + d + ".log"@);
    assert(h.len() == d.len() + 10);
    assert(h.subrange(0, 6) =~= "trace-"@);
    assert(h.subrange(h.len() - 4, h.len() as int) =~= ".log"@);
    assert(h.subrange(6, h.len() - 4) =~= d);
    assert forall|i: int| 6 <= i < h.len() - 4 implies #[trigger] is_digit(h[i]) by {
        assert(h[i] == d[i - 6]);
    }
}

/// Where the logger writes: the number of the current file, how many lines
/// it holds and how many it may hold.
pub struct LogFiles {
    line_count: u64,
    line_maximum: u64,
    current_log_file_number: i64,
}

impl LogFiles {
    /// Lines written to the current file.
    pub closed spec fn line_count_spec(&self) -> nat {
        self.line_count as nat
    }

    /// The most lines a file may hold.
    pub closed spec fn line_maximum_spec(&self) -> nat {
        self.line_maximum as nat
    }

    /// The number of the current file.
    pub closed spec fn number_spec(&self) -> int {
        self.current_log_file_number as int
    }

    /// The current file has room left: it holds fewer lines than the most
    /// it may hold.
    pub open spec fn wf(&self) -> bool {
        self.line_count_spec() < self.line_maximum_spec()
    }

    /// Where the logger starts writing, given the latest log file number in
    /// the folder (-1 for none) and the number of lines of that file (looked
    /// at only when there is one). A folder without log files starts file 0;
    /// a full latest file is followed by the next one; otherwise the latest
    /// file is continued.
    pub fn resume(latest: i64, latest_lines: u64, line_maximum: u64) -> (res: LogFiles)
        requires
            latest >= -1,
            latest < i64::MAX || latest_lines < line_maximum,
        ensures
            res.line_maximum_spec() == line_maximum,
            line_maximum > 0 ==> res.wf(),
            latest == -1 ==> res.number_spec() == 0 && res.line_count_spec() == 0,
            latest != -1 && latest_lines < line_maximum ==> res.number_spec() == latest
                && res.line_count_spec() == latest_lines,
            latest != -1 && latest_lines >= line_maximum ==> res.number_spec() == latest + 1
                && res.line_count_spec() == 0,
    {
        if latest == -1 {
            LogFiles { line_count: 0, line_maximum, current_log_file_number: 0 }
        } else if latest_lines < line_maximum {
            LogFiles { line_count: latest_lines, line_maximum, current_log_file_number: latest }
        } else {
            LogFiles { line_count: 0, line_maximum, current_log_file_number: latest + 1 }
        }
    }

    /// The name of the current file.
    pub fn current_file_name(&self) -> (res: String)
        ensures
            res@ == log_file_name_spec(self.number_spec()),
    {
        log_file_name(self.current_log_file_number)
    }

    /// The number of the current file.
    pub fn current_number(&self) -> (res: i64)
        ensures
            res == self.number_spec(),
    {
        self.current_log_file_number
    }

    /// Lines written to the current file.
    pub fn line_count(&self) -> (res: u64)
        ensures
            res == self.line_count_spec(),
    {
        self.line_count
    }

    /// The most lines a file may hold.
    pub fn line_maximum(&self) -> (res: u64)
        ensures
            res == self.line_maximum_spec(),
    {
        self.line_maximum
    }

    /// Counts one line written; when the current file is full, the logger
    /// moves on to the next file (and the result is true).
    pub fn record_written(&mut self) -> (rotated: bool)
        requires
            old(self).wf(),
            old(self).number_spec() < i64::MAX,
        ensures
            final(self).wf(),
            final(self).line_maximum_spec() == old(self).line_maximum_spec(),
            rotated == (old(self).line_count_spec() + 1 == old(self).line_maximum_spec()),
            rotated ==> final(self).line_count_spec() == 0 && final(self).number_spec()
                == old(self).number_spec() + 1,
            !rotated ==> final(self).line_count_spec() == old(self).line_count_spec() + 1
                && final(self).number_spec() == old(self).number_spec(),
    {
        let next = self.line_count + 1;
        let m = self.line_maximum;
        assert(next < m ==> next % m == next) by (nonlinear_arith)
            requires
                0 < next <= m,
        ;
        assert(next == m ==> next % m == 0) by (nonlinear_arith)
            requires
                0 < next <= m,
        ;
        self.line_count = next % m;
        if self.line_count == 0 {
            self.current_log_file_number = self.current_log_file_number + 1;
            true
        } else {
            false
        }
    }
}

} // verus!
