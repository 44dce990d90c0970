//! Kernel events: NUL-separated `KEY=VALUE` fields.

use vstd::prelude::*;
use vstd::utf8::*;
use crate::text;

verus! {

/// Whether a field begins at `i`.
pub open spec fn field_begins(m: Seq<u8>, i: int) -> bool {
    0 <= i <= m.len() && (i == 0 || m[i - 1] == 0)
}

/// Where the field that begins at `i` ends: at the next NUL, or with the message.
pub open spec fn field_end(m: Seq<u8>, i: int) -> int
    decreases m.len() - i,
{
    if 0 <= i < m.len() && m[i] != 0 {
        field_end(m, i + 1)
    } else {
        i
    }
}

/// The field that begins at `i`.
pub open spec fn field(m: Seq<u8>, i: int) -> Seq<u8> {
    m.subrange(i, field_end(m, i))
}

/// Whether `part` stands in `s` at `i`.
pub open spec fn stands_at(s: Seq<u8>, i: int, part: Seq<u8>) -> bool {
    0 <= i && i + part.len() <= s.len() && s.subrange(i, i + part.len()) == part
}

/// Whether `part` stands somewhere in `s`, at `from` or later.
pub open spec fn stands_behind(s: Seq<u8>, from: int, part: Seq<u8>) -> bool {
    exists|i: int| from <= i && #[trigger] stands_at(s, i, part)
}

/// Whether a field says that the event comes from a power supply.
pub open spec fn is_power_supply(f: Seq<u8>) -> bool {
    f == encode_utf8("SUBSYSTEM=power_supply"@)
}

/// Whether a field says that the event's device is the battery.
pub open spec fn is_battery_path(f: Seq<u8>) -> bool {
    let key = encode_utf8("DEVPATH="@);
    stands_at(f, 0, key) && stands_behind(
        f,
        key.len() as int,
        encode_utf8("/power_supply/battery"@),
    )
}

/// Whether an event is about the battery: its subsystem is `power_supply`, and its device path
/// contains `/power_supply/battery`.
pub open spec fn relevant(m: Seq<u8>) -> bool {
    &&& exists|i: int| #[trigger] field_begins(m, i) && is_power_supply(field(m, i))
    &&& exists|i: int| #[trigger] field_begins(m, i) && is_battery_path(field(m, i))
}

fn find_field_end(m: &[u8], i: usize) -> (n: usize)
    requires
        i <= m@.len(),
    ensures
        n == field_end(m@, i as int),
        i <= n <= m@.len(),
{
    let mut n: usize = i;
    while n < m.len() && m[n] != 0
        invariant
            i <= n <= m@.len(),
            field_end(m@, n as int) == field_end(m@, i as int),
        decreases m@.len() - n,
    {
        n = n + 1;
    }
    n
}

fn part_at(m: &[u8], from: usize, to: usize, i: usize, part: &[u8]) -> (r: bool)
    requires
        from <= i <= to <= m@.len(),
    ensures
        r == stands_at(m@.subrange(from as int, to as int), i - from, part@),
{
    if to - i < part.len() {
        return false;
    }
    let ghost s = m@.subrange(from as int, to as int);
    let mut k: usize = 0;
    while k < part.len()
        invariant
            k <= part@.len(),
            from <= i <= to <= m@.len(),
            part@.len() <= to - i,
            s == m@.subrange(from as int, to as int),
            forall|j: int| 0 <= j < k ==> m@[i + j] == #[trigger] part@[j],
        decreases part@.len() - k,
    {
        if m[i + k] != part[k] {
            assert(s.subrange(i - from, i - from + part@.len())[k as int] != part@[k as int]);
            return false;
        }
        k = k + 1;
    }
    assert(s.subrange(i - from, i - from + part@.len()) =~= part@);
    true
}

fn field_is_power_supply(m: &[u8], from: usize, to: usize) -> (r: bool)
    requires
        from <= to <= m@.len(),
    ensures
        r == is_power_supply(m@.subrange(from as int, to as int)),
{
    let word = "SUBSYSTEM=power_supply".as_bytes();
    let ghost f = m@.subrange(from as int, to as int);
    assert(f.subrange(0, f.len() as int) =~= f);
    to - from == word.len() && part_at(m, from, to, from, word)
}

fn field_is_battery_path(m: &[u8], from: usize, to: usize) -> (r: bool)
    requires
        from <= to <= m@.len(),
    ensures
        r == is_battery_path(m@.subrange(from as int, to as int)),
{
    let key = "DEVPATH=".as_bytes();
    let part = "/power_supply/battery".as_bytes();
    let ghost f = m@.subrange(from as int, to as int);
    if !part_at(m, from, to, from, key) {
        return false;
    }
    let mut i: usize = from + key.len();
    while i < to
        invariant
            from + key@.len() <= i <= to <= m@.len(),
            f == m@.subrange(from as int, to as int),
            key@ == encode_utf8("DEVPATH="@),
            part@ == encode_utf8("/power_supply/battery"@),
            stands_at(f, 0, key@),
            forall|k: int| key@.len() <= k < i - from ==> !#[trigger] stands_at(f, k, part@),
        decreases to - i,
    {
        if part_at(m, from, to, i, part) {
            assert(stands_at(f, i - from, part@));
            return true;
        }
        i = i + 1;
    }
    proof {
        reveal_strlit("/power_supply/battery");
        is_ascii_chars_encode_utf8("/power_supply/battery"@);
        assert(part@.len() > 0);
        assert(!stands_behind(f, key@.len() as int, part@));
    }
    false
}

/// True if the message is an event about the battery.
pub fn is_relevant(m: &[u8]) -> (r: bool)
    ensures
        r == relevant(m@),
{
    let mut power_supply = false;
    let mut battery = false;
    let mut i: usize = 0;
    while i < m.len()
        invariant
            i <= m@.len(),
            power_supply <==> exists|k: int|
                k < i && #[trigger] field_begins(m@, k) && is_power_supply(field(m@, k)),
            battery <==> exists|k: int|
                k < i && #[trigger] field_begins(m@, k) && is_battery_path(field(m@, k)),
        decreases m@.len() - i,
    {
        if i == 0 || m[i - 1] == 0 {
            let end = find_field_end(m, i);
            assert(field_begins(m@, i as int));
            if field_is_power_supply(m, i, end) {
                power_supply = true;
            }
            if field_is_battery_path(m, i, end) {
                battery = true;
            }
        }
        i = i + 1;
    }
    proof {
        // A field that begins behind the last byte is empty, and says nothing.
        let last = field(m@, m@.len() as int);
        reveal_strlit("SUBSYSTEM=power_supply");
        reveal_strlit("DEVPATH=");
        is_ascii_chars_encode_utf8("SUBSYSTEM=power_supply"@);
        is_ascii_chars_encode_utf8("DEVPATH="@);
        assert(last.len() == 0);
    }
    power_supply && battery
}

/// Whether `m` is `f` as one complete field, with `a` before it and `b` behind it: the field holds
/// no NUL, and a NUL or an end of the message is on either side of it.
pub open spec fn is_framed(m: Seq<u8>, a: Seq<u8>, f: Seq<u8>, b: Seq<u8>) -> bool {
    &&& m == a + f + b
    &&& !f.contains(0u8)
    &&& a.len() == 0 || a.last() == 0
    &&& b.len() == 0 || b.first() == 0
}

/// Whether `f` is one of the fields of `m`.
pub open spec fn has_field(m: Seq<u8>, f: Seq<u8>) -> bool {
    exists|a: Seq<u8>, b: Seq<u8>| #[trigger] is_framed(m, a, f, b)
}

proof fn field_end_bounds(m: Seq<u8>, i: int)
    requires
        0 <= i <= m.len(),
    ensures
        i <= field_end(m, i) <= m.len(),
        forall|j: int| i <= j < field_end(m, i) ==> #[trigger] m[j] != 0,
        field_end(m, i) == m.len() || m[field_end(m, i)] == 0,
    decreases m.len() - i,
{
    if i < m.len() && m[i] != 0 {
        field_end_bounds(m, i + 1);
    }
}

proof fn field_end_found(m: Seq<u8>, i: int, n: int)
    requires
        0 <= i <= n <= m.len(),
        forall|j: int| i <= j < n ==> #[trigger] m[j] != 0,
        n == m.len() || m[n] == 0,
    ensures
        field_end(m, i) == n,
    decreases n - i,
{
    if i < n {
        field_end_found(m, i + 1, n);
    }
}

proof fn framed_field_is_found(m: Seq<u8>, a: Seq<u8>, f: Seq<u8>, b: Seq<u8>)
    requires
        is_framed(m, a, f, b),
    ensures
        field_begins(m, a.len() as int),
        field(m, a.len() as int) == f,
{
    let i = a.len() as int;
    let n = i + f.len();
    assert forall|j: int| i <= j < n implies #[trigger] m[j] != 0 by {
        assert(m[j] == f[j - i]);
        assert(f.contains(f[j - i]));
    }
    if i > 0 {
        assert(m[i - 1] == a.last());
    }
    if n < m.len() {
        assert(m[n] == b.first());
    }
    field_end_found(m, i, n);
    assert(m.subrange(i, n) =~= f);
}

proof fn found_field_is_framed(m: Seq<u8>, i: int)
    requires
        field_begins(m, i),
    ensures
        has_field(m, field(m, i)),
{
    field_end_bounds(m, i);
    let n = field_end(m, i);
    let a = m.take(i);
    let f = field(m, i);
    let b = m.skip(n);
    assert(m =~= a + f + b);
    assert forall|j: int| 0 <= j < f.len() implies f[j] != 0 by {
        assert(f[j] == m[i + j]);
    }
    assert(is_framed(m, a, f, b));
}

proof fn battery_path_is_key_and_part(f: Seq<u8>, x: Seq<u8>, y: Seq<u8>)
    ensures
        f == encode_utf8("DEVPATH="@) + x + encode_utf8("/power_supply/battery"@) + y
            ==> is_battery_path(f),
        is_battery_path(f) ==> exists|p: Seq<u8>, q: Seq<u8>|
            f == #[trigger] (encode_utf8("DEVPATH="@) + p + encode_utf8("/power_supply/battery"@)
                + q),
{
    let key = encode_utf8("DEVPATH="@);
    let part = encode_utf8("/power_supply/battery"@);
    if f == key + x + part + y {
        let i = (key.len() + x.len()) as int;
        assert(f.subrange(0, key.len() as int) =~= key);
        assert(f.subrange(i, i + part.len()) =~= part);
        assert(stands_at(f, i, part));
    }
    if is_battery_path(f) {
        let i = choose|i: int| key.len() <= i && #[trigger] stands_at(f, i, part);
        let p = f.subrange(key.len() as int, i);
        let q = f.skip(i + part.len());
        assert(f.subrange(0, key.len() as int) == key);
        assert(f =~= f.subrange(0, key.len() as int) + p + f.subrange(i, i + part.len()) + q);
        assert(f == key + p + part + q);
    }
}

/// A message is about the battery exactly if one of its fields is `SUBSYSTEM=power_supply`, and
/// one is `DEVPATH=` with a text behind it that contains `/power_supply/battery`. Nothing else
/// counts: neither how long the message is, nor what other fields it has, nor where the two
/// stand.
pub proof fn two_fields_make_a_message_relevant(m: Seq<u8>)
    ensures
        relevant(m) <==> {
            &&& has_field(m, encode_utf8("SUBSYSTEM=power_supply"@))
            &&& exists|x: Seq<u8>, y: Seq<u8>|
                has_field(
                    m,
                    #[trigger] (encode_utf8("DEVPATH="@) + x + encode_utf8(
                        "/power_supply/battery"@,
                    ) + y),
                )
        },
{
    let word = encode_utf8("SUBSYSTEM=power_supply"@);
    let key = encode_utf8("DEVPATH="@);
    let part = encode_utf8("/power_supply/battery"@);
    if relevant(m) {
        let i = choose|i: int| #[trigger] field_begins(m, i) && is_power_supply(field(m, i));
        found_field_is_framed(m, i);
        let j = choose|j: int| #[trigger] field_begins(m, j) && is_battery_path(field(m, j));
        found_field_is_framed(m, j);
        battery_path_is_key_and_part(field(m, j), Seq::empty(), Seq::empty());
        let (x, y) = choose|x: Seq<u8>, y: Seq<u8>|
            field(m, j) == #[trigger] (key + x + part + y);
        assert(has_field(m, key + x + part + y));
    }
    if has_field(m, word) && exists|x: Seq<u8>, y: Seq<u8>|
        has_field(m, #[trigger] (key + x + part + y)) {
        let (a, b) = choose|a: Seq<u8>, b: Seq<u8>| #[trigger] is_framed(m, a, word, b);
        framed_field_is_found(m, a, word, b);
        let (x, y) = choose|x: Seq<u8>, y: Seq<u8>| has_field(m, #[trigger] (key + x + part + y));
        let f = key + x + part + y;
        let (c, d) = choose|c: Seq<u8>, d: Seq<u8>| #[trigger] is_framed(m, c, f, d);
        framed_field_is_found(m, c, f, d);
        battery_path_is_key_and_part(f, x, y);
        assert(field_begins(m, a.len() as int) && is_power_supply(field(m, a.len() as int)));
        assert(field_begins(m, c.len() as int) && is_battery_path(field(m, c.len() as int)));
    }
}

proof fn field_stays_in_a_longer_message(front: Seq<u8>, m: Seq<u8>, back: Seq<u8>, f: Seq<u8>)
    requires
        front.len() == 0 || front.last() == 0,
        back.len() == 0 || back.first() == 0,
        has_field(m, f),
    ensures
        has_field(front + m + back, f),
{
    let (a, b) = choose|a: Seq<u8>, b: Seq<u8>| #[trigger] is_framed(m, a, f, b);
    assert(front + m + back =~= (front + a) + f + (b + back));
    assert(is_framed(front + m + back, front + a, f, b + back));
}

/// Further fields before or behind a message about the battery leave it one.
pub proof fn further_fields_keep_a_message_relevant(front: Seq<u8>, m: Seq<u8>, back: Seq<u8>)
    requires
        front.len() == 0 || front.last() == 0,
        back.len() == 0 || back.first() == 0,
        relevant(m),
    ensures
        relevant(front + m + back),
{
    let word = encode_utf8("SUBSYSTEM=power_supply"@);
    let key = encode_utf8("DEVPATH="@);
    let part = encode_utf8("/power_supply/battery"@);
    two_fields_make_a_message_relevant(m);
    two_fields_make_a_message_relevant(front + m + back);
    field_stays_in_a_longer_message(front, m, back, word);
    let (x, y) = choose|x: Seq<u8>, y: Seq<u8>| has_field(m, #[trigger] (key + x + part + y));
    field_stays_in_a_longer_message(front, m, back, key + x + part + y);
}

/// A text without the NULs at its end.
pub open spec fn without_last_nuls(s: Seq<char>) -> Seq<char>
    decreases s.len(),
{
    if s.len() > 0 && s.last() == '\0' {
        without_last_nuls(s.drop_last())
    } else {
        s
    }
}

/// A text with a bar in place of each NUL.
pub open spec fn with_bars(s: Seq<char>) -> Seq<char>
    decreases s.len(),
{
    if s.len() == 0 {
        Seq::empty()
    } else {
        with_bars(s.drop_last()) + if s.last() == '\0' {
            " | "@
        } else {
            seq![s.last()]
        }
    }
}

/// The fields of an event in one line, from the text of its message.
pub open spec fn one_line(message: Seq<char>) -> Seq<char> {
    with_bars(without_last_nuls(message))
}

/// Replacing NULs by bars goes from character to character: a NUL becomes a bar between spaces,
/// and every other character stays.
pub proof fn bars_replace_nuls(a: Seq<char>, b: Seq<char>, c: char)
    ensures
        with_bars(Seq::empty()) == Seq::<char>::empty(),
        with_bars(seq!['\0']) == " | "@,
        c != '\0' ==> with_bars(seq![c]) == seq![c],
        with_bars(a + b) == with_bars(a) + with_bars(b),
    decreases b.len(),
{
    reveal_with_fuel(with_bars, 2);
    assert(seq![c].drop_last() =~= Seq::empty());
    assert(seq!['\0'].drop_last() =~= Seq::empty());
    assert(with_bars(seq!['\0']) =~= " | "@);
    assert(c != '\0' ==> with_bars(seq![c]) =~= seq![c]);
    if b.len() == 0 {
        assert(a + b =~= a);
        assert(with_bars(a) + with_bars(b) =~= with_bars(a));
    } else {
        bars_replace_nuls(a, b.drop_last(), c);
        assert((a + b).drop_last() =~= a + b.drop_last());
        assert(with_bars(a + b) =~= with_bars(a) + with_bars(b));
    }
}

/// NULs at the end of a message leave no trace in its line; all others become bars.
pub proof fn line_of_an_event(s: Seq<char>)
    ensures
        one_line(s.push('\0')) == one_line(s),
        s.len() == 0 || s.last() != '\0' ==> one_line(s) == with_bars(s),
{
    assert(s.push('\0').drop_last() =~= s);
}

/// The fields of an event in one line, from the text of its message.
pub fn summary(message: &str) -> (s: String)
    ensures
        s@ == one_line(message@),
{
    let v = text::to_chars(message);
    let mut n: usize = v.len();
    assert(v@.take(n as int) =~= v@);
    while n > 0 && v[n - 1] == '\0'
        invariant
            n <= v.len(),
            without_last_nuls(v@.take(n as int)) == without_last_nuls(v@),
        decreases n,
    {
        assert(v@.take(n as int).drop_last() =~= v@.take(n - 1));
        n = n - 1;
    }
    let mut s = String::new();
    let mut i: usize = 0;
    assert(s@ =~= with_bars(v@.take(0)));
    while i < n
        invariant
            i <= n <= v.len(),
            s@ == with_bars(v@.take(i as int)),
        decreases n - i,
    {
        assert(v@.take(i + 1).drop_last() =~= v@.take(i as int));
        let ghost before = s@;
        if v[i] == '\0' {
            s.append(" | ");
        } else {
            s.push(v[i]);
            assert(s@ =~= before + seq![v@[i as int]]);
        }
        i = i + 1;
    }
    s
}

} // verus!
