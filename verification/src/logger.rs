//! The log: line format, value quoting, rotation.
//!
//! A line is `[<timestamp> <LEVEL>  seq=<n>] <message> <key>=<value> ...`. The logger decides
//! what a line holds and when the files are rotated; the program around it moves the files and
//! appends the line.

use vstd::prelude::*;
use vstd::utf8::*;
use crate::path;
use crate::record::LogRecord;
use crate::text;

verus! {

/// A sequence of key and value pairs.
pub type Pairs = Seq<(Seq<char>, Seq<char>)>;

/// The key and value pairs of a slice.
pub open spec fn pairs(kv: Seq<(&str, &str)>) -> Pairs {
    Seq::new(kv.len(), |i: int| (kv[i].0@, kv[i].1@))
}

/// Whether two digits stand at `i`.
pub open spec fn two_digits(s: Seq<char>, i: int) -> bool {
    text::is_digit(s[i]) && text::is_digit(s[i + 1])
}

/// Whether `s` is a timestamp such as `2026-06-28T11:40:46+08:00`: a year of four digits, or of
/// more digits behind a plus sign, then the fields down to the second in two digits each, then
/// the offset from UTC.
pub open spec fn is_timestamp(s: Seq<char>) -> bool {
    let n = s.len() - 21;
    &&& n >= 4
    &&& forall|i: int| 0 < i < n ==> text::is_digit(#[trigger] s[i])
    &&& if n == 4 {
        text::is_digit(s[0])
    } else {
        n >= 6 && s[0] == '+'
    }
    &&& s[n] == '-' && two_digits(s, n + 1)
    &&& s[n + 3] == '-' && two_digits(s, n + 4)
    &&& s[n + 6] == 'T' && two_digits(s, n + 7)
    &&& s[n + 9] == ':' && two_digits(s, n + 10)
    &&& s[n + 12] == ':' && two_digits(s, n + 13)
    &&& (s[n + 15] == '+' || s[n + 15] == '-') && two_digits(s, n + 16)
    &&& s[n + 18] == ':' && two_digits(s, n + 19)
}

/// `chrono::Local::now`, formatted by `DateTime::format` as `%Y-%m-%dT%H:%M:%S%:z`: the current
/// time in the device's time zone. Which time that is rests on the clock and the time zone; the
/// contract states the form alone, which every time from 1970 on has. chrono panics where the
/// system clock is set before that year, and where the system's time zone data gives no offset
/// for the current time or one of a whole day or more.
#[verifier::external_body]
fn local_timestamp() -> (s: String)
    ensures
        is_timestamp(s@),
{
    chrono::Local::now().format("%Y-%m-%dT%H:%M:%S%:z").to_string()
}

/// Whether `c` is a control character: in Unicode's category `Cc`.
pub open spec fn is_control(c: char) -> bool {
    c as u32 <= 0x1f || 0x7f <= c as u32 <= 0x9f
}

/// Whether a value that holds `c` has to be quoted.
pub open spec fn forces_quotes(c: char) -> bool {
    c == ' ' || c == '=' || c == '"' || c == '\\' || is_control(c)
}

/// Whether a value has to be quoted.
pub open spec fn needs_quotes(v: Seq<char>) -> bool {
    v.len() == 0 || exists|i: int| 0 <= i < v.len() && forces_quotes(#[trigger] v[i])
}

/// How `c` is written between quotes.
pub open spec fn escape_char(c: char) -> Seq<char> {
    if c == '\\' || c == '"' {
        seq!['\\', c]
    } else {
        seq![c]
    }
}

/// How `v` is written between quotes.
pub open spec fn escape(v: Seq<char>) -> Seq<char>
    decreases v.len(),
{
    if v.len() == 0 {
        Seq::empty()
    } else {
        escape_char(v.first()) + escape(v.drop_first())
    }
}

/// How a value is written in the log: as it is, or between quotes.
pub open spec fn logfmt_value(v: Seq<char>) -> Seq<char> {
    if needs_quotes(v) {
        seq!['"'] + escape(v) + seq!['"']
    } else {
        v
    }
}

/// The inverse of `escape`.
pub open spec fn unescape(s: Seq<char>) -> Seq<char>
    decreases s.len(),
{
    if s.len() == 0 {
        Seq::empty()
    } else if s[0] == '\\' && s.len() > 1 {
        seq![s[1]] + unescape(s.skip(2))
    } else {
        seq![s[0]] + unescape(s.skip(1))
    }
}

/// The value that a logged value stands for.
pub open spec fn logged_value(s: Seq<char>) -> Seq<char> {
    if s.len() >= 2 && s[0] == '"' {
        unescape(s.subrange(1, s.len() - 1))
    } else {
        s
    }
}

proof fn unescape_inverts_escape(v: Seq<char>)
    ensures
        unescape(escape(v)) == v,
    decreases v.len(),
{
    if v.len() > 0 {
        let c = v.first();
        let rest = v.drop_first();
        unescape_inverts_escape(rest);
        let s = escape(v);
        if c == '\\' || c == '"' {
            assert(s.skip(2) =~= escape(rest));
        } else {
            assert(s.skip(1) =~= escape(rest));
        }
        assert(seq![c] + rest =~= v);
    }
}

/// What is logged for a value reads back as the value: quoting loses nothing.
pub proof fn logged_value_reads_back(v: Seq<char>)
    ensures
        logged_value(logfmt_value(v)) == v,
{
    let s = logfmt_value(v);
    if needs_quotes(v) {
        unescape_inverts_escape(v);
        assert(s.subrange(1, s.len() - 1) =~= escape(v));
    } else {
        assert(!forces_quotes(v[0]));
    }
}

/// A value is logged as it is exactly when it is not empty and holds no space, `=`, `"`, `\`
/// or control character; otherwise it stands between double quotes.
pub proof fn plain_values_stay_plain(v: Seq<char>)
    ensures
        !needs_quotes(v) ==> logfmt_value(v) == v,
        needs_quotes(v) ==> {
            &&& logfmt_value(v).len() >= 2
            &&& logfmt_value(v).first() == '"'
            &&& logfmt_value(v).last() == '"'
        },
        !needs_quotes(v) <==> v.len() > 0 && forall|i: int|
            0 <= i < v.len() ==> !forces_quotes(#[trigger] v[i]),
{
}

fn value_needs_quotes(v: &Vec<char>) -> (r: bool)
    ensures
        r == needs_quotes(v@),
{
    if v.len() == 0 {
        return true;
    }
    let mut i: usize = 0;
    while i < v.len()
        invariant
            i <= v.len(),
            forall|k: int| 0 <= k < i ==> !forces_quotes(#[trigger] v@[k]),
        decreases v.len() - i,
    {
        let c = v[i];
        let u: u32 = c as u32;
        if c == ' ' || c == '=' || c == '"' || c == '\\' || u <= 0x1f || (0x7f <= u && u <= 0x9f) {
            assert(forces_quotes(v@[i as int]));
            return true;
        }
        i = i + 1;
    }
    false
}

/// Quotes a value for the log where it has to be.
pub fn logfmt_escape(v: &str) -> (s: String)
    ensures
        s@ == logfmt_value(v@),
{
    let chars = text::to_chars(v);
    if !value_needs_quotes(&chars) {
        return v.to_string();
    }
    let mut s = String::new();
    s.push('"');
    let mut i: usize = 0;
    assert(chars@.skip(0) =~= chars@);
    assert(s@ + escape(chars@) =~= seq!['"'] + escape(chars@));
    while i < chars.len()
        invariant
            i <= chars.len(),
            s@ + escape(chars@.skip(i as int)) == seq!['"'] + escape(chars@),
        decreases chars.len() - i,
    {
        let c = chars[i];
        let ghost before = s@;
        let ghost rest = chars@.skip(i as int);
        if c == '\\' {
            s.append("\\\\");
        } else if c == '"' {
            s.append("\\\"");
        } else {
            s.push(c);
        }
        proof {
            reveal_strlit("\\\\");
            reveal_strlit("\\\"");
            assert(s@ =~= before + escape_char(c));
            assert(rest.drop_first() =~= chars@.skip(i + 1));
            assert(before + escape(rest) =~= s@ + escape(chars@.skip(i + 1)));
        }
        i = i + 1;
    }
    assert(chars@.skip(chars@.len() as int) =~= Seq::empty());
    assert(s@ =~= seq!['"'] + escape(chars@));
    s.push('"');
    assert(s@ =~= logfmt_value(v@));
    s
}

/// How one pair is written behind the message.
pub open spec fn field(key: Seq<char>, value: Seq<char>) -> Seq<char> {
    seq![' '] + key + seq!['='] + logfmt_value(value)
}

/// How the pairs are written behind the message.
pub open spec fn fields(kv: Pairs) -> Seq<char>
    decreases kv.len(),
{
    if kv.len() == 0 {
        Seq::empty()
    } else {
        fields(kv.drop_last()) + field(kv.last().0, kv.last().1)
    }
}

/// `n` spaces.
pub open spec fn spaces(n: nat) -> Seq<char> {
    Seq::new(n, |i: int| ' ')
}

/// A level, padded on the right to five characters. One that takes five bytes or more is left
/// as it is.
pub open spec fn padded_level(level: Seq<char>) -> Seq<char> {
    if encode_utf8(level).len() >= 5 {
        level
    } else {
        level + spaces((5 - level.len()) as nat)
    }
}

/// One line of the log.
pub open spec fn line_text(
    timestamp: Seq<char>,
    level: Seq<char>,
    seq: u64,
    message: Seq<char>,
    kv: Pairs,
) -> Seq<char> {
    "["@ + timestamp + " "@ + padded_level(level) + "  seq="@ + text::decimal(seq as nat) + "] "@
        + message + fields(kv) + seq!['\n']
}

pub(crate) proof fn encoding_is_no_shorter(s: Seq<char>)
    ensures
        encode_utf8(s).len() >= s.len(),
    decreases s.len(),
{
    if s.len() > 0 {
        encoding_is_no_shorter(s.drop_first());
    }
}

fn pad_level(level: &str) -> (s: String)
    ensures
        s@ == padded_level(level@),
{
    let mut s = level.to_string();
    if level.as_bytes().len() >= 5 {
        return s;
    }
    let mut n = level.unicode_len();
    let ghost start = n;
    proof {
        encoding_is_no_shorter(level@);
    }
    assert(s@ =~= level@ + spaces(0));
    while n < 5
        invariant
            start <= n <= 5,
            start == level@.len(),
            s@ == level@ + spaces((n - start) as nat),
        decreases 5 - n,
    {
        s.push(' ');
        n = n + 1;
        assert(s@ =~= level@ + spaces((n - start) as nat));
    }
    s
}

/// Writes one line of the log.
pub fn format_line(timestamp: &str, level: &str, seq: u64, message: &str, kv: &[(&str, &str)]) -> (s:
    String)
    ensures
        s@ == line_text(timestamp@, level@, seq, message@, pairs(kv@)),
        s@ == "["@ + timestamp@ + " "@ + padded_level(level@) + "  seq="@ + text::decimal(
            seq as nat,
        ) + "] "@ + message@ + fields(pairs(kv@)) + seq!['\n'],
{
    let mut s = "[".to_string();
    s.append(timestamp);
    s.append(" ");
    s.append(pad_level(level).as_str());
    s.append("  seq=");
    s.append(text::decimal_text(seq).as_str());
    s.append("] ");
    s.append(message);
    let ghost head = s@;
    let ghost all = pairs(kv@);
    let mut i: usize = 0;
    assert(fields(all.take(0)) =~= Seq::empty());
    assert(s@ =~= head + fields(all.take(0)));
    while i < kv.len()
        invariant
            i <= kv@.len(),
            all == pairs(kv@),
            s@ == head + fields(all.take(i as int)),
        decreases kv@.len() - i,
    {
        let (key, value) = kv[i];
        s.push(' ');
        s.append(key);
        s.push('=');
        s.append(logfmt_escape(value).as_str());
        proof {
            let more = all.take(i + 1);
            assert(more.drop_last() =~= all.take(i as int));
            assert(more.last() == (key@, value@));
            assert(s@ =~= head + fields(more));
        }
        i = i + 1;
    }
    assert(all.take(kv@.len() as int) =~= all);
    s.push('\n');
    assert(s@ =~= line_text(timestamp@, level@, seq, message@, pairs(kv@)));
    s
}

/// One file operation of a rotation.
#[derive(Debug)]
pub enum RotateOp {
    /// Remove the file, if it exists.
    Remove { path: String },
    /// Rename the file, if it exists, replacing the target.
    Rename { from: String, to: String },
}

/// One file operation, as a mathematical value.
pub enum FileMove {
    /// The file is gone.
    Remove { path: Seq<char> },
    /// The file has another name.
    Rename { from: Seq<char>, to: Seq<char> },
}

impl View for RotateOp {
    type V = FileMove;

    open spec fn view(&self) -> FileMove {
        match self {
            RotateOp::Remove { path } => FileMove::Remove { path: path@ },
            RotateOp::Rename { from, to } => FileMove::Rename { from: from@, to: to@ },
        }
    }
}

/// What has to be done to log one line.
#[derive(Debug)]
pub struct LogWrite {
    /// The time of the line.
    pub timestamp: String,
    /// Whether the files have to be rotated first, see [`FileLogger::rotate`].
    pub rotate: bool,
    /// The line to append to the log.
    pub line: String,
}

/// The log: where it is, how far it may grow, what was counted so far.
#[derive(Debug)]
pub struct FileLogger {
    /// The active file.
    pub path: String,
    /// The size that the active file has to exceed for the files to be rotated.
    pub max_bytes: u64,
    /// How many rotated files are kept.
    pub keep: u32,
    /// The bytes in the active file, as far as this logger has counted them.
    pub bytes_written: u64,
    /// The sequence number of the last line.
    pub seq: u64,
}

/// `n` plus one, where zero follows the largest number.
pub open spec fn successor(n: u64) -> u64 {
    if n == u64::MAX {
        0
    } else {
        (n + 1) as u64
    }
}

/// Whether `w` logs one line at the given time: it carries the next sequence number, and the
/// files are rotated first exactly if the active one exceeds its limit.
pub open spec fn logs_line_at(
    before: FileLogger,
    after: FileLogger,
    w: LogWrite,
    timestamp: Seq<char>,
    level: Seq<char>,
    message: Seq<char>,
    kv: Pairs,
) -> bool {
    &&& after.path == before.path
    &&& after.max_bytes == before.max_bytes
    &&& after.keep == before.keep
    &&& after.seq == successor(before.seq)
    &&& w.timestamp@ == timestamp
    &&& w.line@ == line_text(timestamp, level, after.seq, message, kv)
    &&& w.rotate <==> before.bytes_written > before.max_bytes
    &&& after.bytes_written == if w.rotate {
        0
    } else {
        before.bytes_written
    }
}

/// Whether `w` logs one line at the time it names.
pub open spec fn logs_line(
    before: FileLogger,
    after: FileLogger,
    w: LogWrite,
    level: Seq<char>,
    message: Seq<char>,
    kv: Pairs,
) -> bool {
    is_timestamp(w.timestamp@) && logs_line_at(
        before,
        after,
        w,
        w.timestamp@,
        level,
        message,
        kv,
    )
}

/// The file name of the `n`th rotated file of the log at `path`.
pub open spec fn rotated_name(path: Seq<char>, n: nat) -> Seq<char> {
    let name = match path::file_name(path) {
        Some(name) => name,
        None => "rsc.log"@,
    };
    name + "."@ + text::decimal(n)
}

/// The `n`th rotated file of the log at `path`: beside it, with `.n` appended to its file name.
pub open spec fn rotated(path: Seq<char>, n: nat) -> Seq<char> {
    path::with_file_name(path, rotated_name(path, n))
}

impl FileLogger {
    /// Whether at least one rotated file is kept.
    pub open spec fn well_formed(self) -> bool {
        self.keep >= 1
    }

    /// The operations of a rotation, by their index: the oldest file goes, each other one moves
    /// up by one from the oldest to the newest, and the active file becomes the first.
    pub open spec fn rotation(self, step: int) -> Option<FileMove> {
        let keep = self.keep as int;
        if step == 0 {
            Some(FileMove::Remove { path: rotated(self.path@, keep as nat) })
        } else if 0 < step < keep {
            Some(
                FileMove::Rename {
                    from: rotated(self.path@, (keep - step) as nat),
                    to: rotated(self.path@, (keep - step + 1) as nat),
                },
            )
        } else if step == keep || (keep == 0 && step == 1) {
            Some(FileMove::Rename { from: self.path@, to: rotated(self.path@, 1) })
        } else {
            None
        }
    }

    /// A logger for the file at `path`, which has `initial_bytes` bytes now. It rotates
    /// above `max_kb` KiB and keeps `keep` rotated files, at least one.
    pub fn new(path: &str, max_kb: u64, keep: u32, initial_bytes: u64) -> (l: FileLogger)
        ensures
            l.path@ == path@,
            l.max_bytes == if max_kb * 1024 <= u64::MAX {
                max_kb * 1024
            } else {
                u64::MAX as int
            },
            l.keep == if keep == 0 {
                1
            } else {
                keep
            },
            l.bytes_written == initial_bytes,
            l.seq == 0,
            l.well_formed(),
    {
        let max_bytes: u64 = match max_kb.checked_mul(1024) {
            Some(n) => n,
            None => u64::MAX,
        };
        FileLogger {
            path: path.to_string(),
            max_bytes,
            keep: if keep == 0 {
                1
            } else {
                keep
            },
            bytes_written: initial_bytes,
            seq: 0,
        }
    }

    /// Logs a message with pairs, at the given time.
    pub fn log_kv_at(&mut self, timestamp: &str, level: &str, msg: &str, kv: &[(&str, &str)]) -> (w:
        LogWrite)
        ensures
            logs_line_at(*old(self), *final(self), w, timestamp@, level@, msg@, pairs(kv@)),
            w.timestamp@ == timestamp@,
            w.line@ == line_text(timestamp@, level@, final(self).seq, msg@, pairs(kv@)),
            w.rotate <==> old(self).bytes_written > old(self).max_bytes,
            final(self).seq == if old(self).seq == u64::MAX {
                0
            } else {
                old(self).seq + 1
            },
            final(self).bytes_written == if old(self).bytes_written > old(self).max_bytes {
                0
            } else {
                old(self).bytes_written
            },
            final(self).path == old(self).path,
            final(self).max_bytes == old(self).max_bytes,
            final(self).keep == old(self).keep,
    {
        self.seq = self.seq.wrapping_add(1);
        let line = format_line(timestamp, level, self.seq, msg, kv);
        let rotate = self.bytes_written > self.max_bytes;
        if rotate {
            self.bytes_written = 0;
        }
        LogWrite { timestamp: timestamp.to_string(), rotate, line }
    }

    /// Logs a message with pairs, now.
    pub fn log_kv(&mut self, level: &str, msg: &str, kv: &[(&str, &str)]) -> (w: LogWrite)
        ensures
            logs_line(*old(self), *final(self), w, level@, msg@, pairs(kv@)),
            is_timestamp(w.timestamp@),
            w.line@ == line_text(w.timestamp@, level@, final(self).seq, msg@, pairs(kv@)),
            w.rotate <==> old(self).bytes_written > old(self).max_bytes,
    {
        let timestamp = local_timestamp();
        self.log_kv_at(timestamp.as_str(), level, msg, kv)
    }

    /// Counts the bytes of a line that was appended.
    pub fn wrote(&mut self, line: &str)
        ensures
            final(self).bytes_written == old(self).bytes_written.wrapping_add(
                encode_utf8(line@).len() as u64,
            ),
            final(self).path == old(self).path,
            final(self).max_bytes == old(self).max_bytes,
            final(self).keep == old(self).keep,
            final(self).seq == old(self).seq,
    {
        self.bytes_written = self.bytes_written.wrapping_add(line.as_bytes().len() as u64);
    }

    /// The operation of a rotation at index `step`. The operations are performed in order until
    /// there is none left; one that fails is passed over.
    pub fn rotate(&self, step: u64) -> (op: Option<RotateOp>)
        ensures
            match op {
                Some(op) => self.rotation(step as int) == Some(op@),
                None => self.rotation(step as int) is None,
            },
    {
        let keep: u64 = self.keep as u64;
        if step == 0 {
            Some(RotateOp::Remove { path: self.rotated_path(self.keep) })
        } else if step < keep {
            let i: u32 = (keep - step) as u32;
            Some(
                RotateOp::Rename { from: self.rotated_path(i), to: self.rotated_path(i + 1) },
            )
        } else if step == keep || (keep == 0 && step == 1) {
            Some(RotateOp::Rename { from: self.path.clone(), to: self.rotated_path(1) })
        } else {
            None
        }
    }

    /// The name of the `n`th rotated file.
    pub fn rotated_path(&self, n: u32) -> (p: String)
        ensures
            p@ == rotated(self.path@, n as nat),
    {
        let mut name = match path::file_name_of(self.path.as_str()) {
            Some(name) => name,
            None => "rsc.log".to_string(),
        };
        name.append(".");
        name.append(text::decimal_text(n as u64).as_str());
        path::replaced(self.path.as_str(), name.as_str())
    }

    /// Logs a record, now.
    pub fn log_record(&mut self, record: &LogRecord) -> (w: LogWrite)
        ensures
            logs_line(
                *old(self),
                *final(self),
                w,
                record@.level,
                record@.message,
                record@.kv,
            ),
            is_timestamp(w.timestamp@),
            w.line@ == line_text(
                w.timestamp@,
                record.level@,
                final(self).seq,
                record.message@,
                Seq::new(record.kv@.len(), |i: int| (record.kv@[i].0@, record.kv@[i].1@)),
            ),
            w.rotate <==> old(self).bytes_written > old(self).max_bytes,
            final(self).seq == successor(old(self).seq),
    {
        let mut kv: Vec<(&str, &str)> = Vec::new();
        let mut i: usize = 0;
        while i < record.kv.len()
            invariant
                i <= record.kv@.len(),
                kv@.len() == i,
                forall|k: int|
                    0 <= k < i ==> (#[trigger] kv@[k]).0@ == record.kv@[k].0@ && kv@[k].1@
                        == record.kv@[k].1@,
            decreases record.kv@.len() - i,
        {
            kv.push((record.kv[i].0, record.kv[i].1.as_str()));
            i = i + 1;
        }
        assert(pairs(kv@) =~= record@.kv);
        self.log_kv(record.level, record.message, kv.as_slice())
    }

    /// Logs a message without pairs.
    pub fn log(&mut self, level: &str, msg: &str) -> (w: LogWrite)
        ensures
            logs_line(*old(self), *final(self), w, level@, msg@, Seq::empty()),
            is_timestamp(w.timestamp@),
            w.line@ == line_text(w.timestamp@, level@, final(self).seq, msg@, Seq::empty()),
            w.rotate <==> old(self).bytes_written > old(self).max_bytes,
            final(self).seq == successor(old(self).seq),
    {
        let none: Vec<(&str, &str)> = Vec::new();
        assert(pairs(none@) =~= Seq::empty());
        self.log_kv(level, msg, none.as_slice())
    }

    /// Logs a message at level `INFO`.
    pub fn info(&mut self, msg: &str) -> (w: LogWrite)
        ensures
            logs_line(*old(self), *final(self), w, "INFO"@, msg@, Seq::empty()),
            is_timestamp(w.timestamp@),
            w.line@ == line_text(w.timestamp@, "INFO"@, final(self).seq, msg@, Seq::empty()),
            w.rotate <==> old(self).bytes_written > old(self).max_bytes,
            final(self).seq == successor(old(self).seq),
    {
        self.log("INFO", msg)
    }

    /// Logs a message at level `WARN`.
    pub fn warn(&mut self, msg: &str) -> (w: LogWrite)
        ensures
            logs_line(*old(self), *final(self), w, "WARN"@, msg@, Seq::empty()),
            is_timestamp(w.timestamp@),
            w.line@ == line_text(w.timestamp@, "WARN"@, final(self).seq, msg@, Seq::empty()),
            w.rotate <==> old(self).bytes_written > old(self).max_bytes,
            final(self).seq == successor(old(self).seq),
    {
        self.log("WARN", msg)
    }

    /// Logs a message at level `ERROR`.
    pub fn error(&mut self, msg: &str) -> (w: LogWrite)
        ensures
            logs_line(*old(self), *final(self), w, "ERROR"@, msg@, Seq::empty()),
            is_timestamp(w.timestamp@),
            w.line@ == line_text(w.timestamp@, "ERROR"@, final(self).seq, msg@, Seq::empty()),
            w.rotate <==> old(self).bytes_written > old(self).max_bytes,
            final(self).seq == successor(old(self).seq),
    {
        self.log("ERROR", msg)
    }

    /// Logs a message at level `DEBUG` if that is enabled; otherwise does nothing.
    pub fn debug_if(&mut self, enabled: bool, msg: &str) -> (w: Option<LogWrite>)
        ensures
            match w {
                Some(w) => enabled && logs_line(
                    *old(self),
                    *final(self),
                    w,
                    "DEBUG"@,
                    msg@,
                    Seq::empty(),
                ),
                None => !enabled && *final(self) == *old(self),
            },
            w is Some <==> enabled,
            w matches Some(w) ==> w.line@ == line_text(
                w.timestamp@,
                "DEBUG"@,
                final(self).seq,
                msg@,
                Seq::empty(),
            ) && (w.rotate <==> old(self).bytes_written > old(self).max_bytes) && final(self).seq
                == successor(old(self).seq),
    {
        if enabled {
            Some(self.log("DEBUG", msg))
        } else {
            None
        }
    }

    /// Logs a message with pairs at level `DEBUG` if that is enabled; otherwise does nothing.
    pub fn debug_if_kv(&mut self, enabled: bool, msg: &str, kv: &[(&str, &str)]) -> (w: Option<
        LogWrite,
    >)
        ensures
            match w {
                Some(w) => enabled && logs_line(
                    *old(self),
                    *final(self),
                    w,
                    "DEBUG"@,
                    msg@,
                    pairs(kv@),
                ),
                None => !enabled && *final(self) == *old(self),
            },
            w is Some <==> enabled,
            w matches Some(w) ==> w.line@ == line_text(
                w.timestamp@,
                "DEBUG"@,
                final(self).seq,
                msg@,
                pairs(kv@),
            ) && (w.rotate <==> old(self).bytes_written > old(self).max_bytes) && final(self).seq
                == successor(old(self).seq),
    {
        if enabled {
            Some(self.log_kv("DEBUG", msg, kv))
        } else {
            None
        }
    }
}

proof fn numbered_name_is_plain(base: Seq<char>, n: nat)
    requires
        path::is_plain_name(base),
    ensures
        path::is_plain_name(base + "."@ + text::decimal(n)),
{
    let name = base + "."@ + text::decimal(n);
    let digits = text::decimal(n);
    text::decimal_reads_back(n);
    reveal_strlit(".");
    assert forall|i: int| 0 <= i < base.len() implies base[i] != '/' by {
        assert(base.contains(base[i]));
    }
    assert forall|i: int| 0 <= i < name.len() implies name[i] != '/' by {
        if i > base.len() {
            assert(name[i] == digits[i - base.len() - 1]);
        }
    }
    assert(name.last() == digits.last());
    assert(text::is_digit(name.last()));
    assert(name != seq!['.']) by {
        assert(seq!['.'].last() == '.');
    }
    assert(name != seq!['.', '.']) by {
        assert(seq!['.', '.'].last() == '.');
    }
}

proof fn fallback_name_is_plain()
    ensures
        path::is_plain_name("rsc.log"@),
{
    reveal_strlit("rsc.log");
    assert forall|i: int| 0 <= i < "rsc.log"@.len() implies "rsc.log"@[i] != '/' by {}
}

/// The `n`th rotated file is named as the log, with `.n` behind it.
pub proof fn rotated_file_name(path: Seq<char>, n: nat)
    ensures
        path::file_name(rotated(path, n)) == Some(rotated_name(path, n)),
        rotated(path, n) == path::with_file_name(path, rotated_name(path, n)),
        path::file_name(path) matches Some(name) ==> rotated_name(path, n) == name + "."@
            + text::decimal(n),
        path::file_name(path) is None ==> rotated_name(path, n) == "rsc.log"@ + "."@
            + text::decimal(n),
{
    path::file_name_is_plain(path);
    fallback_name_is_plain();
    let base = match path::file_name(path) {
        Some(name) => name,
        None => "rsc.log"@,
    };
    numbered_name_is_plain(base, n);
    path::replaced_name_is_file_name(path, rotated_name(path, n));
}

/// The rotated files stand beside the log: the path of the `n`th is that of the log with `.n`
/// behind it. A path without a file name gets one.
pub proof fn rotated_files_stand_beside_the_log(dir: Seq<char>, name: Seq<char>, n: nat)
    requires
        path::is_plain_name(name),
    ensures
        rotated(name, n) == name + "."@ + text::decimal(n),
        rotated(seq!['/'] + name, n) == seq!['/'] + name + "."@ + text::decimal(n),
        dir.len() > 0 && dir.last() != '/' && (dir.last() == '.' && dir.len() > 1 ==> dir[dir.len()
            - 2] != '/') ==> rotated(dir + seq!['/'] + name, n) == dir + seq!['/'] + name + "."@
            + text::decimal(n),
        path::file_name(dir) is None ==> rotated(dir, n) == path::join(
            dir,
            "rsc.log"@ + "."@ + text::decimal(n),
        ),
{
    let new = name + "."@ + text::decimal(n);
    numbered_name_is_plain(name, n);
    path::replacing_keeps_the_directory(dir, name, new);
    path::joined_name_is_file_name(Seq::empty(), name);
    path::joined_name_is_file_name(seq!['/'], name);
    path::joined_name_is_file_name(dir, name);
    path::names_are_joined_by_one_separator(Seq::empty(), name);
    path::names_are_joined_by_one_separator(seq!['/'], name);
    path::names_are_joined_by_one_separator(dir, name);
    assert(name[0] != '/') by {
        assert(name.contains(name[0]));
    }
    assert(seq!['/'] + new =~= seq!['/'] + name + "."@ + text::decimal(n));
    assert(dir + seq!['/'] + new =~= dir + seq!['/'] + name + "."@ + text::decimal(n));
    fallback_name_is_plain();
    numbered_name_is_plain("rsc.log"@, n);
    path::replacing_keeps_the_directory(dir, name, "rsc.log"@ + "."@ + text::decimal(n));
}

/// A rotation goes from the oldest file to the newest: first the oldest is removed, then each
/// other one takes the next higher number, and at last the active file becomes the first.
pub proof fn rotation_goes_from_old_to_new(l: FileLogger, step: int)
    requires
        l.well_formed(),
    ensures
        l.rotation(0) == Some(FileMove::Remove { path: rotated(l.path@, l.keep as nat) }),
        1 <= step < l.keep ==> l.rotation(step) == Some(
            FileMove::Rename {
                from: rotated(l.path@, (l.keep - step) as nat),
                to: rotated(l.path@, (l.keep - step + 1) as nat),
            },
        ),
        l.rotation(l.keep as int) == Some(
            FileMove::Rename { from: l.path@, to: rotated(l.path@, 1) },
        ),
        step < 0 || step > l.keep ==> l.rotation(step) is None,
{
}

/// The pairs of a slice are those of its elements, in order.
pub proof fn pairs_are_those_of_the_slice(kv: Seq<(&str, &str)>)
    ensures
        pairs(kv).len() == kv.len(),
        forall|i: int|
            0 <= i < kv.len() ==> (#[trigger] pairs(kv)[i]).0 == kv[i].0@ && pairs(kv)[i].1
                == kv[i].1@,
{
}

/// No two rotated files share a name, and none has the name of the active file.
pub proof fn rotated_names_are_distinct(path: Seq<char>, a: nat, b: nat)
    ensures
        rotated(path, a) != path,
        rotated(path, a) == rotated(path, b) ==> a == b,
{
    rotated_file_name(path, a);
    rotated_file_name(path, b);
    reveal_strlit(".");
    let base = match path::file_name(path) {
        Some(name) => name,
        None => "rsc.log"@,
    };
    let prefix = base + "."@;
    if rotated(path, a) == path {
        assert(rotated_name(path, a).len() > base.len());
    }
    if rotated(path, a) == rotated(path, b) {
        assert(rotated_name(path, a) == rotated_name(path, b));
        assert(rotated_name(path, a).skip(prefix.len() as int) =~= text::decimal(a));
        assert(rotated_name(path, b).skip(prefix.len() as int) =~= text::decimal(b));
        text::decimal_is_injective(a, b);
    }
}

/// The files, by name, after one operation has been performed.
pub open spec fn after_move(files: Map<Seq<char>, Seq<u8>>, op: FileMove) -> Map<
    Seq<char>,
    Seq<u8>,
> {
    match op {
        FileMove::Remove { path } => files.remove(path),
        FileMove::Rename { from, to } => if files.dom().contains(from) {
            files.remove(from).insert(to, files[from])
        } else {
            files
        },
    }
}

/// The files, by name, after the first `steps` operations of a rotation.
pub open spec fn after_moves(l: FileLogger, files: Map<Seq<char>, Seq<u8>>, steps: nat) -> Map<
    Seq<char>,
    Seq<u8>,
>
    decreases steps,
{
    if steps == 0 {
        files
    } else {
        let before = after_moves(l, files, (steps - 1) as nat);
        match l.rotation(steps - 1) {
            Some(op) => after_move(before, op),
            None => before,
        }
    }
}

/// Whether the file `p` of `after` is the file `q` of `before`: both are missing, or both hold
/// the same.
pub open spec fn is_file(
    after: Map<Seq<char>, Seq<u8>>,
    p: Seq<char>,
    before: Map<Seq<char>, Seq<u8>>,
    q: Seq<char>,
) -> bool {
    &&& after.dom().contains(p) <==> before.dom().contains(q)
    &&& after.dom().contains(p) ==> after[p] == before[q]
}

/// Whether `p` is neither the active file nor one of the rotated ones.
pub open spec fn is_foreign(l: FileLogger, p: Seq<char>) -> bool {
    p != l.path@ && forall|n: nat| 1 <= n <= l.keep ==> p != #[trigger] rotated(l.path@, n)
}

proof fn partly_rotated(l: FileLogger, files: Map<Seq<char>, Seq<u8>>, steps: nat)
    requires
        1 <= steps <= l.keep,
    ensures
        ({
            let after = after_moves(l, files, steps);
            let free = (l.keep - steps + 1) as nat;
            &&& !after.dom().contains(rotated(l.path@, free))
            &&& is_file(after, l.path@, files, l.path@)
            &&& forall|n: nat|
                1 <= n < free ==> is_file(
                    after,
                    #[trigger] rotated(l.path@, n),
                    files,
                    rotated(l.path@, n),
                )
            &&& forall|n: nat|
                free <= n < l.keep ==> is_file(
                    after,
                    rotated(l.path@, n + 1),
                    files,
                    #[trigger] rotated(l.path@, n),
                )
            &&& forall|p: Seq<char>| is_foreign(l, p) ==> #[trigger] is_file(after, p, files, p)
        }),
    decreases steps,
{
    let path = l.path@;
    let keep = l.keep as nat;
    let after = after_moves(l, files, steps);
    let free = (keep - steps + 1) as nat;
    let before = after_moves(l, files, (steps - 1) as nat);
    assert forall|a: nat, b: nat| a != b implies #[trigger] rotated(path, a) != #[trigger] rotated(
        path,
        b,
    ) by {
        rotated_names_are_distinct(path, a, b);
    }
    assert forall|a: nat| #[trigger] rotated(path, a) != path by {
        rotated_names_are_distinct(path, a, a);
    }
    if steps > 1 {
        partly_rotated(l, files, (steps - 1) as nat);
        assert(rotated(path, free) != rotated(path, free + 1));
        assert forall|n: nat| free <= n < keep implies is_file(
            after,
            rotated(path, n + 1),
            files,
            #[trigger] rotated(path, n),
        ) by {
            if n > free {
                assert(is_file(before, rotated(path, n + 1), files, rotated(path, n)));
                assert(rotated(path, n + 1) != rotated(path, free));
                assert(rotated(path, n + 1) != rotated(path, free + 1));
            } else {
                assert(is_file(before, rotated(path, free), files, rotated(path, free)));
            }
        }
        assert forall|n: nat| 1 <= n < free implies is_file(
            after,
            #[trigger] rotated(path, n),
            files,
            rotated(path, n),
        ) by {
            assert(is_file(before, rotated(path, n), files, rotated(path, n)));
        }
    }
    assert forall|p: Seq<char>| is_foreign(l, p) implies #[trigger] is_file(
        after,
        p,
        files,
        p,
    ) by {
        if steps > 1 {
            assert(is_file(before, p, files, p));
            assert(p != rotated(path, free));
            assert(p != rotated(path, free + 1));
        } else {
            assert(p != rotated(path, keep));
        }
    }
}

/// A rotation whose operations succeed gives each rotated file the content of the one before
/// it, the first that of the active file, and drops the oldest. The active file is gone, and no
/// other file changed.
pub proof fn rotation_shifts_the_files(l: FileLogger, files: Map<Seq<char>, Seq<u8>>)
    requires
        l.well_formed(),
    ensures
        l.rotation(l.keep + 1) is None,
        ({
            let after = after_moves(l, files, (l.keep + 1) as nat);
            &&& !after.dom().contains(l.path@)
            &&& is_file(after, rotated(l.path@, 1), files, l.path@)
            &&& forall|n: nat|
                1 <= n < l.keep ==> is_file(
                    after,
                    rotated(l.path@, n + 1),
                    files,
                    #[trigger] rotated(l.path@, n),
                )
            &&& forall|p: Seq<char>| is_foreign(l, p) ==> #[trigger] is_file(after, p, files, p)
        }),
{
    let path = l.path@;
    let before = after_moves(l, files, l.keep as nat);
    let after = after_moves(l, files, (l.keep + 1) as nat);
    partly_rotated(l, files, l.keep as nat);
    rotated_names_are_distinct(path, 1, 1);
    assert forall|n: nat| 1 <= n < l.keep implies is_file(
        after,
        rotated(path, n + 1),
        files,
        #[trigger] rotated(path, n),
    ) by {
        assert(is_file(before, rotated(path, n + 1), files, rotated(path, n)));
        rotated_names_are_distinct(path, n + 1, 1);
    }
    assert forall|p: Seq<char>| is_foreign(l, p) implies #[trigger] is_file(
        after,
        p,
        files,
        p,
    ) by {
        assert(is_file(before, p, files, p));
        assert(p != rotated(path, 1));
    }
}

} // verus!
