//! Reading the log back: what a line holds can be told from its text.

use vstd::prelude::*;
use vstd::utf8::*;
use crate::logger;
use crate::logger::FileLogger;
use crate::logger::LogWrite;
use crate::logger::Pairs;
use crate::text;

verus! {

/// Where `c` first stands in `s`, or the length of `s` where it does not.
pub open spec fn first_index(s: Seq<char>, c: char) -> nat
    decreases s.len(),
{
    if s.len() == 0 || s.first() == c {
        0
    } else {
        1 + first_index(s.drop_first(), c)
    }
}

/// Where the first quote stands in `s` that no backslash escapes, or the length of `s`.
pub open spec fn closing_quote(s: Seq<char>) -> nat
    decreases s.len(),
{
    if s.len() == 0 || s[0] == '"' {
        0
    } else if s[0] == '\\' && s.len() > 1 {
        2 + closing_quote(s.skip(2))
    } else {
        1 + closing_quote(s.skip(1))
    }
}

/// How far the value reaches that `s` begins with: to its closing quote where it is quoted, to
/// the next space otherwise.
pub open spec fn value_length(s: Seq<char>) -> nat {
    if s.len() > 0 && s[0] == '"' {
        closing_quote(s.skip(1)) + 2
    } else {
        first_index(s, ' ')
    }
}

/// The pairs that a text holds: each begins with a space and a key, which reaches to the next
/// `=`; then comes the value.
pub open spec fn read_fields(s: Seq<char>) -> Pairs
    decreases s.len(),
{
    let mark = first_index(s, '=') as int;
    let rest = s.skip(mark + 1);
    let n = value_length(rest) as int;
    if 0 < mark < s.len() && n <= rest.len() {
        seq![(s.subrange(1, mark), logger::logged_value(rest.take(n)))] + read_fields(rest.skip(n))
    } else {
        Seq::empty()
    }
}

proof fn first_index_found(s: Seq<char>, c: char, t: Seq<char>)
    requires
        !s.contains(c),
        t.len() == 0 || t.first() == c,
    ensures
        first_index(s + t, c) == s.len(),
    decreases s.len(),
{
    if s.len() == 0 {
        assert(s + t =~= t);
    } else {
        let rest = s.drop_first();
        assert(s.contains(s[0]));
        assert forall|i: int| 0 <= i < rest.len() implies rest[i] != c by {
            assert(rest[i] == s[i + 1]);
            assert(s.contains(s[i + 1]));
        }
        first_index_found(rest, c, t);
        assert((s + t).drop_first() =~= rest + t);
    }
}

proof fn closing_quote_found(v: Seq<char>, t: Seq<char>)
    requires
        t.len() > 0,
        t.first() == '"',
    ensures
        closing_quote(logger::escape(v) + t) == logger::escape(v).len(),
    decreases v.len(),
{
    let s = logger::escape(v) + t;
    if v.len() == 0 {
        assert(s =~= t);
    } else {
        let c = v.first();
        let rest = v.drop_first();
        closing_quote_found(rest, t);
        if c == '\\' || c == '"' {
            assert(s.skip(2) =~= logger::escape(rest) + t);
        } else {
            assert(s.skip(1) =~= logger::escape(rest) + t);
        }
    }
}

proof fn value_is_delimited(v: Seq<char>, t: Seq<char>)
    requires
        t.len() == 0 || t.first() == ' ',
    ensures
        value_length(logger::logfmt_value(v) + t) == logger::logfmt_value(v).len(),
{
    let w = logger::logfmt_value(v);
    let s = w + t;
    if logger::needs_quotes(v) {
        let tail = seq!['"'] + t;
        closing_quote_found(v, tail);
        assert(s.skip(1) =~= logger::escape(v) + tail);
    } else {
        assert(!logger::forces_quotes(v[0]));
        assert forall|i: int| 0 <= i < v.len() implies v[i] != ' ' by {
            assert(!logger::forces_quotes(v[i]));
        }
        assert(s[0] == v[0]);
        first_index_found(v, ' ', t);
    }
}

proof fn fields_from_the_first(kv: Pairs)
    requires
        kv.len() > 0,
    ensures
        logger::fields(kv) == logger::field(kv.first().0, kv.first().1) + logger::fields(
            kv.drop_first(),
        ),
    decreases kv.len(),
{
    if kv.len() == 1 {
        assert(kv.drop_last() =~= Seq::empty());
        assert(kv.drop_first() =~= Seq::empty());
        assert(logger::fields(kv) =~= logger::field(kv.first().0, kv.first().1) + logger::fields(
            kv.drop_first(),
        ));
    } else {
        fields_from_the_first(kv.drop_last());
        assert(kv.drop_last().drop_first() =~= kv.drop_first().drop_last());
        assert(logger::fields(kv) =~= logger::field(kv.first().0, kv.first().1) + logger::fields(
            kv.drop_first(),
        ));
    }
}

/// Whether no key holds a `=`.
pub open spec fn keys_are_plain(kv: Pairs) -> bool {
    forall|i: int| 0 <= i < kv.len() ==> !(#[trigger] kv[i]).0.contains('=')
}

proof fn first_pair_reads_back(key: Seq<char>, value: Seq<char>, more: Seq<char>)
    requires
        !key.contains('='),
        more.len() == 0 || more.first() == ' ',
    ensures
        read_fields(logger::field(key, value) + more) == seq![(key, value)] + read_fields(more),
{
    let s = logger::field(key, value) + more;
    let head = seq![' '] + key;
    let w = logger::logfmt_value(value);
    assert(!head.contains('=')) by {
        assert forall|i: int| 0 <= i < head.len() implies head[i] != '=' by {
            if i > 0 {
                assert(head[i] == key[i - 1]);
                assert(key.contains(key[i - 1]));
            }
        }
    }
    assert(s =~= head + (seq!['='] + (w + more)));
    first_index_found(head, '=', seq!['='] + (w + more));
    let mark = head.len() as int;
    assert(s.subrange(1, mark) =~= key);
    let rest = s.skip(mark + 1);
    assert(rest =~= w + more);
    value_is_delimited(value, more);
    assert(rest.take(w.len() as int) =~= w);
    assert(rest.skip(w.len() as int) =~= more);
    logger::logged_value_reads_back(value);
}

/// The pairs of a line read back as they are, whatever their values hold.
pub proof fn logged_pairs_read_back(kv: Pairs)
    requires
        keys_are_plain(kv),
    ensures
        read_fields(logger::fields(kv)) == kv,
    decreases kv.len(),
{
    if kv.len() > 0 {
        let rest = kv.drop_first();
        assert forall|i: int| 0 <= i < rest.len() implies !(#[trigger] rest[i]).0.contains('=') by {
            assert(rest[i] == kv[i + 1]);
        }
        logged_pairs_read_back(rest);
        if rest.len() > 0 {
            fields_from_the_first(rest);
        }
        fields_from_the_first(kv);
        assert(!kv[0].0.contains('='));
        first_pair_reads_back(kv[0].0, kv[0].1, logger::fields(rest));
        assert(seq![(kv[0].0, kv[0].1)] + rest =~= kv);
    }
}

proof fn number_has_no_bracket(n: nat)
    ensures
        !text::decimal(n).contains(']'),
{
    text::decimal_reads_back(n);
    assert forall|i: int| 0 <= i < text::decimal(n).len() implies text::decimal(n)[i] != ']' by {
        assert(text::is_digit(text::decimal(n)[i]));
    }
}

/// Two lines of one time and level with different sequence numbers are different lines, whatever
/// else they hold.
pub proof fn lines_are_told_apart(
    timestamp: Seq<char>,
    level: Seq<char>,
    a: u64,
    b: u64,
    first: Seq<char>,
    second: Seq<char>,
    first_kv: Pairs,
    second_kv: Pairs,
)
    ensures
        logger::line_text(timestamp, level, a, first, first_kv) == logger::line_text(
            timestamp,
            level,
            b,
            second,
            second_kv,
        ) ==> a == b,
{
    let x = logger::line_text(timestamp, level, a, first, first_kv);
    let y = logger::line_text(timestamp, level, b, second, second_kv);
    if x == y {
        let head = "["@ + timestamp + " "@ + logger::padded_level(level) + "  seq="@;
        let da = text::decimal(a as nat);
        let db = text::decimal(b as nat);
        let ta = "] "@ + first + logger::fields(first_kv) + seq!['\n'];
        let tb = "] "@ + second + logger::fields(second_kv) + seq!['\n'];
        reveal_strlit("] ");
        assert(ta.first() == ']' && tb.first() == ']');
        assert(x =~= head + (da + ta));
        assert(y =~= head + (db + tb));
        assert(x.skip(head.len() as int) =~= da + ta);
        assert(y.skip(head.len() as int) =~= db + tb);
        number_has_no_bracket(a as nat);
        number_has_no_bracket(b as nat);
        first_index_found(da, ']', ta);
        first_index_found(db, ']', tb);
        assert((da + ta).take(da.len() as int) =~= da);
        assert((db + tb).take(db.len() as int) =~= db);
        text::decimal_is_injective(a as nat, b as nat);
    }
}

/// A line is its head, the whole message, the pairs and a line break, and nothing else. So the
/// message stands in it uncut, right behind the closing bracket, and the time right behind the
/// opening one.
pub proof fn line_is_head_message_and_pairs(
    timestamp: Seq<char>,
    level: Seq<char>,
    seq: u64,
    message: Seq<char>,
    kv: Pairs,
)
    ensures
        ({
            let line = logger::line_text(timestamp, level, seq, message, kv);
            let head = "["@ + timestamp + " "@ + logger::padded_level(level) + "  seq="@
                + text::decimal(seq as nat) + "] "@;
            &&& line == head + message + logger::fields(kv) + seq!['\n']
            &&& line.len() == head.len() + message.len() + logger::fields(kv).len() + 1
            &&& line.subrange(head.len() as int, (head.len() + message.len()) as int) == message
            &&& line.subrange(1, 1 + timestamp.len() as int) == timestamp
            &&& line.subrange(
                (head.len() + message.len()) as int,
                line.len() - 1,
            ) == logger::fields(kv)
            &&& line.last() == '\n'
        }),
{
    let line = logger::line_text(timestamp, level, seq, message, kv);
    let head = "["@ + timestamp + " "@ + logger::padded_level(level) + "  seq="@ + text::decimal(
        seq as nat,
    ) + "] "@;
    reveal_strlit("[");
    assert(line =~= head + message + logger::fields(kv) + seq!['\n']);
    assert(line.subrange(head.len() as int, (head.len() + message.len()) as int) =~= message);
    assert(line.subrange(1, 1 + timestamp.len() as int) =~= timestamp);
    assert(line.subrange((head.len() + message.len()) as int, line.len() - 1) =~= logger::fields(
        kv,
    ));
}

/// Two lines of one time, level, number and pairs are equal only if their messages are; two that
/// differ in their pairs alone only if those are equal, as long as no key holds a `=`; and two
/// that differ in their time alone only if that is equal.
pub proof fn messages_are_told_apart(
    timestamp: Seq<char>,
    other_timestamp: Seq<char>,
    level: Seq<char>,
    seq: u64,
    first: Seq<char>,
    second: Seq<char>,
    kv: Pairs,
    other_kv: Pairs,
)
    ensures
        logger::line_text(timestamp, level, seq, first, kv) == logger::line_text(
            timestamp,
            level,
            seq,
            second,
            kv,
        ) ==> first == second,
        keys_are_plain(kv) && keys_are_plain(other_kv) && logger::line_text(
            timestamp,
            level,
            seq,
            first,
            kv,
        ) == logger::line_text(timestamp, level, seq, first, other_kv) ==> kv == other_kv,
        logger::line_text(timestamp, level, seq, first, kv) == logger::line_text(
            other_timestamp,
            level,
            seq,
            first,
            kv,
        ) ==> timestamp == other_timestamp,
{
    line_is_head_message_and_pairs(timestamp, level, seq, first, kv);
    line_is_head_message_and_pairs(timestamp, level, seq, second, kv);
    line_is_head_message_and_pairs(timestamp, level, seq, first, other_kv);
    line_is_head_message_and_pairs(other_timestamp, level, seq, first, kv);
    if keys_are_plain(kv) && keys_are_plain(other_kv) {
        logged_pairs_read_back(kv);
        logged_pairs_read_back(other_kv);
    }
}

/// A level is padded with spaces behind it to five characters; one of five bytes or more stays as
/// it is. The four usual levels take five characters each.
pub proof fn levels_are_padded_to_five(level: Seq<char>)
    ensures
        encode_utf8(level).len() >= 5 ==> logger::padded_level(level) == level,
        encode_utf8(level).len() < 5 ==> {
            let padded = logger::padded_level(level);
            &&& padded.len() == 5
            &&& level.len() < 5
            &&& padded.take(level.len() as int) == level
            &&& forall|i: int| level.len() <= i < 5 ==> #[trigger] padded[i] == ' '
        },
{
    if encode_utf8(level).len() < 5 {
        logger::encoding_is_no_shorter(level);
        assert(logger::padded_level(level).take(level.len() as int) =~= level);
    }
}

/// Between quotes each character stands for itself, but for the backslash and the quote, which
/// have a backslash before them.
pub proof fn quoting_goes_by_characters(a: Seq<char>, b: Seq<char>, c: char)
    ensures
        logger::escape(Seq::empty()) == Seq::<char>::empty(),
        c == '\\' || c == '"' ==> logger::escape(seq![c]) == seq!['\\', c],
        c != '\\' && c != '"' ==> logger::escape(seq![c]) == seq![c],
        logger::escape(a + b) == logger::escape(a) + logger::escape(b),
    decreases a.len(),
{
    reveal_with_fuel(logger::escape, 2);
    assert(seq![c].drop_first() =~= Seq::empty());
    assert(logger::escape(seq![c]) =~= logger::escape_char(c));
    if a.len() == 0 {
        assert(a + b =~= b);
        assert(logger::escape(a) + logger::escape(b) =~= logger::escape(b));
    } else {
        quoting_goes_by_characters(a.drop_first(), b, c);
        assert((a + b).drop_first() =~= a.drop_first() + b);
        assert(logger::escape(a + b) =~= logger::escape(a) + logger::escape(b));
    }
}

/// A value is quoted exactly if it is empty or holds a space, a `=`, a quote, a backslash or a
/// control character. Then it stands escaped between two quotes; otherwise it is logged as it is.
pub proof fn values_are_quoted_when_needed(v: Seq<char>)
    ensures
        logger::logfmt_value(v) == if v.len() == 0 || exists|i: int|
            0 <= i < v.len() && {
                let c = #[trigger] v[i];
                c == ' ' || c == '=' || c == '"' || c == '\\' || c as u32 <= 0x1f || (0x7f <= c as u32
                    && c as u32 <= 0x9f)
            } {
            seq!['"'] + logger::escape(v) + seq!['"']
        } else {
            v
        },
{
    if logger::needs_quotes(v) && v.len() > 0 {
        let i = choose|i: int| 0 <= i < v.len() && logger::forces_quotes(#[trigger] v[i]);
        let c = v[i];
        assert(c == ' ' || c == '=' || c == '"' || c == '\\' || c as u32 <= 0x1f || (0x7f <= c as u32
            && c as u32 <= 0x9f));
    }
    if !logger::needs_quotes(v) {
        assert forall|i: int| 0 <= i < v.len() implies !({
            let c = #[trigger] v[i];
            c == ' ' || c == '=' || c == '"' || c == '\\' || c as u32 <= 0x1f || (0x7f <= c as u32
                && c as u32 <= 0x9f)
        }) by {
            assert(!logger::forces_quotes(v[i]));
        }
    }
}

/// Each pair is written behind those before it: a space, the key, a `=` and the value.
pub proof fn pairs_are_written_in_turn(kv: Pairs, key: Seq<char>, value: Seq<char>)
    ensures
        logger::fields(Seq::empty()) == Seq::<char>::empty(),
        logger::fields(kv.push((key, value))) == logger::fields(kv) + seq![' '] + key + seq!['=']
            + logger::logfmt_value(value),
{
    assert(kv.push((key, value)).drop_last() =~= kv);
    assert(logger::fields(kv.push((key, value))) =~= logger::fields(kv) + seq![' '] + key + seq![
        '=',
    ] + logger::logfmt_value(value));
}

/// The next number is one more, and zero behind the largest.
pub proof fn numbers_count_up(n: u64)
    ensures
        n < u64::MAX ==> logger::successor(n) == n + 1,
        logger::successor(u64::MAX) == 0,
{
}

/// Whether the number of each logger follows that of the one before it. Logging a line makes it
/// so; counting the bytes that were written leaves it so.
pub open spec fn is_history(loggers: Seq<FileLogger>) -> bool {
    forall|i: int|
        0 <= i < loggers.len() - 1 ==> (#[trigger] loggers[i + 1]).seq == logger::successor(
            loggers[i].seq,
        )
}

/// The lines of one logger are numbered one by one; a fresh logger begins at 1. So no two of
/// them share a number, and the numbers tell their order.
pub proof fn lines_are_numbered_in_order(loggers: Seq<FileLogger>, i: int)
    requires
        is_history(loggers),
        0 <= i < loggers.len(),
        loggers[0].seq + i <= u64::MAX,
    ensures
        loggers[i].seq == loggers[0].seq + i,
    decreases i,
{
    if i > 0 {
        lines_are_numbered_in_order(loggers, i - 1);
        assert(loggers[i - 1 + 1] == loggers[i]);
    }
}

/// The active file, as far as the logger has counted it, does not exceed its limit when a line is
/// appended: one line at most goes past the limit. The line has the number after that of the line
/// before.
pub proof fn one_line_passes_the_limit(
    before: FileLogger,
    after: FileLogger,
    w: LogWrite,
    timestamp: Seq<char>,
    level: Seq<char>,
    message: Seq<char>,
    kv: Pairs,
)
    requires
        logger::logs_line_at(before, after, w, timestamp, level, message, kv),
    ensures
        after.bytes_written <= after.max_bytes,
        after.seq == logger::successor(before.seq),
{
}

} // verus!
