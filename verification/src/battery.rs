//! The battery's capacity and charge state, as the kernel reports them in sysfs.

use vstd::prelude::*;
use vstd::utf8::*;
use crate::text;

verus! {

/// The sysfs node that holds the capacity in percent.
pub const CAPACITY_PATH: &'static str = "/sys/class/power_supply/battery/capacity";

/// The sysfs node that holds the charge status as a word.
pub const STATUS_PATH: &'static str = "/sys/class/power_supply/battery/status";

/// How many bytes of either node are read.
pub const READ_LIMIT: usize = 16;

/// The nodes are those of the battery's power supply, and a capacity or a status fits into what
/// is read of them.
pub proof fn nodes_are_the_batterys()
    ensures
        CAPACITY_PATH@ == "/sys/class/power_supply/battery/capacity"@,
        STATUS_PATH@ == "/sys/class/power_supply/battery/status"@,
        READ_LIMIT == 16,
{
}

/// What the kernel says the battery is doing.
#[derive(Debug, Clone, Copy, PartialEq, Eq, Structural)]
pub enum ChargeState {
    /// Current flows into the battery.
    Charging,
    /// The battery feeds the device.
    Discharging,
    /// The battery is full.
    Full,
    /// A charger feeds the device and the battery is idle.
    NotCharging,
    /// Any other status.
    Unknown,
}

impl ChargeState {
    /// Whether current flows into the battery.
    pub open spec fn charging(self) -> bool {
        self is Charging
    }

    /// True when an external power source is actively pushing current into the battery. `Full`
    /// is excluded: the charger path is closed by then.
    pub fn is_charging(&self) -> (r: bool)
        ensures
            r == self.charging(),
            r <==> self is Charging,
    {
        matches!(self, ChargeState::Charging)
    }

    /// The state's name.
    pub open spec fn name(self) -> Seq<char> {
        match self {
            ChargeState::Charging => "Charging"@,
            ChargeState::Discharging => "Discharging"@,
            ChargeState::Full => "Full"@,
            ChargeState::NotCharging => "NotCharging"@,
            ChargeState::Unknown => "Unknown"@,
        }
    }

    /// The state's name.
    pub fn to_string(&self) -> (s: String)
        ensures
            s@ == self.name(),
            match self {
                ChargeState::Charging => s@ == "Charging"@,
                ChargeState::Discharging => s@ == "Discharging"@,
                ChargeState::Full => s@ == "Full"@,
                ChargeState::NotCharging => s@ == "NotCharging"@,
                ChargeState::Unknown => s@ == "Unknown"@,
            },
    {
        match self {
            ChargeState::Charging => "Charging".to_string(),
            ChargeState::Discharging => "Discharging".to_string(),
            ChargeState::Full => "Full".to_string(),
            ChargeState::NotCharging => "NotCharging".to_string(),
            ChargeState::Unknown => "Unknown".to_string(),
        }
    }
}

/// Why a text is not a number between 0 and 255.
#[derive(Debug, Clone, Copy, PartialEq, Eq, Structural)]
pub enum NumberError {
    /// The text is empty.
    Empty,
    /// The text holds something other than a digit.
    InvalidDigit,
    /// The number is above 255.
    TooLarge,
}

impl NumberError {
    /// The error in words.
    pub open spec fn words(self) -> Seq<char> {
        match self {
            NumberError::Empty => "cannot parse integer from empty string"@,
            NumberError::InvalidDigit => "invalid digit found in string"@,
            NumberError::TooLarge => "number too large to fit in target type"@,
        }
    }

    /// The error in words.
    pub fn to_string(&self) -> (s: String)
        ensures
            s@ == self.words(),
            match self {
                NumberError::Empty => s@ == "cannot parse integer from empty string"@,
                NumberError::InvalidDigit => s@ == "invalid digit found in string"@,
                NumberError::TooLarge => s@ == "number too large to fit in target type"@,
            },
    {
        match self {
            NumberError::Empty => "cannot parse integer from empty string".to_string(),
            NumberError::InvalidDigit => "invalid digit found in string".to_string(),
            NumberError::TooLarge => "number too large to fit in target type".to_string(),
        }
    }
}

/// How many digits `s` begins with.
pub open spec fn digit_run(s: Seq<char>) -> nat
    decreases s.len(),
{
    if s.len() > 0 && text::is_digit(s.first()) {
        1 + digit_run(s.drop_first())
    } else {
        0
    }
}

/// `s` without the plus sign that may stand before a number.
pub open spec fn unsigned_part(s: Seq<char>) -> Seq<char> {
    if s.len() > 1 && s.first() == '+' {
        s.drop_first()
    } else {
        s
    }
}

/// The number between 0 and 255 that `s` writes in decimal, with an optional leading `+`. Where
/// the digits that come first are already too large, that is the error, whatever follows them.
pub open spec fn number(s: Seq<char>) -> Result<u8, NumberError> {
    let digits = unsigned_part(s);
    let run = digit_run(digits);
    let value = text::digits_value(digits.take(run as int));
    if s.len() == 0 {
        Err(NumberError::Empty)
    } else if value > 255 {
        Err(NumberError::TooLarge)
    } else if run < digits.len() {
        Err(NumberError::InvalidDigit)
    } else {
        Ok(value as u8)
    }
}

proof fn digit_run_bounds(s: Seq<char>)
    ensures
        digit_run(s) <= s.len(),
        forall|i: int| 0 <= i < digit_run(s) ==> text::is_digit(#[trigger] s[i]),
        digit_run(s) < s.len() ==> !text::is_digit(s[digit_run(s) as int]),
    decreases s.len(),
{
    if s.len() > 0 && text::is_digit(s.first()) {
        let rest = s.drop_first();
        digit_run_bounds(rest);
        assert forall|i: int| 0 <= i < digit_run(s) implies text::is_digit(#[trigger] s[i]) by {
            if i > 0 {
                assert(s[i] == rest[i - 1]);
            }
        }
        if digit_run(s) < s.len() {
            assert(s[digit_run(s) as int] == rest[digit_run(rest) as int]);
        }
    }
}

proof fn longer_prefix_is_no_smaller(s: Seq<char>, i: int, j: int)
    requires
        0 <= i <= j <= s.len(),
    ensures
        text::digits_value(s.take(i)) <= text::digits_value(s.take(j)),
    decreases j - i,
{
    if i < j {
        longer_prefix_is_no_smaller(s, i, j - 1);
        assert(s.take(j).drop_last() =~= s.take(j - 1));
    }
}

/// Reads a number between 0 and 255.
pub fn parse_number(s: &str) -> (r: Result<u8, NumberError>)
    ensures
        r == number(s@),
{
    let v = text::to_chars(s);
    if v.len() == 0 {
        return Err(NumberError::Empty);
    }
    let start: usize = if v.len() > 1 && v[0] == '+' {
        1
    } else {
        0
    };
    let ghost digits = unsigned_part(s@);
    let ghost run = digit_run(digits);
    let mut i: usize = start;
    let mut value: u32 = 0;
    proof {
        digit_run_bounds(digits);
        assert(digits =~= v@.skip(start as int));
        assert(digits.take(0) =~= Seq::<char>::empty());
    }
    while i < v.len()
        invariant
            start <= i <= v.len(),
            start <= 1,
            v@ == s@,
            s@.len() > 0,
            digits == unsigned_part(s@),
            digits == v@.skip(start as int),
            run == digit_run(digits),
            run <= digits.len(),
            forall|k: int| 0 <= k < run ==> text::is_digit(#[trigger] digits[k]),
            run < digits.len() ==> !text::is_digit(digits[run as int]),
            i - start <= run,
            value <= 255,
            value == text::digits_value(digits.take(i - start)),
        decreases v.len() - i,
    {
        let c = v[i];
        assert(c == digits[i - start]);
        if c < '0' || c > '9' {
            assert(run == i - start);
            return Err(NumberError::InvalidDigit);
        }
        assert(i - start < run);
        proof {
            assert(digits.take(i - start + 1).drop_last() =~= digits.take(i - start));
            longer_prefix_is_no_smaller(digits, i - start + 1, run as int);
        }
        value = value * 10 + (c as u32 - 48);
        i = i + 1;
        if value > 255 {
            return Err(NumberError::TooLarge);
        }
    }
    assert(run == digits.len());
    Ok(value as u8)
}

/// What the content of the capacity node says: the trimmed text must be a number between 0 and
/// 255. An error is given as its text.
pub open spec fn capacity(content: Seq<u8>) -> Result<u8, Seq<char>> {
    if !valid_utf8(content) {
        Err(text::utf8_error_text(content))
    } else {
        match number(text::trimmed(decode_utf8(content))) {
            Ok(n) => Ok(n),
            Err(e) => Err(e.words()),
        }
    }
}

/// The capacity in percent, from what came of reading [`CAPACITY_PATH`]: its content, or the
/// text of the error.
pub fn read_capacity(content: Result<Vec<u8>, String>) -> (r: Result<u8, String>)
    ensures
        match (content, r) {
            (Err(e), Err(text)) => text@ == e@,
            (Err(e), Ok(_)) => false,
            (Ok(bytes), Ok(n)) => capacity(bytes@) == Ok::<u8, Seq<char>>(n),
            (Ok(bytes), Err(text)) => capacity(bytes@) == Err::<u8, Seq<char>>(text@),
        },
{
    match content {
        Err(e) => Err(e),
        Ok(bytes) => match text::decode_utf8_text(bytes.as_slice()) {
            Err(e) => Err(e),
            Ok(s) => match parse_number(text::trim(s)) {
                Ok(n) => Ok(n),
                Err(e) => Err(e.to_string()),
            },
        },
    }
}

/// The charge state that a status word stands for.
pub open spec fn status(word: Seq<char>) -> ChargeState {
    if word == "Charging"@ {
        ChargeState::Charging
    } else if word == "Discharging"@ {
        ChargeState::Discharging
    } else if word == "Full"@ {
        ChargeState::Full
    } else if word == "Not charging"@ {
        ChargeState::NotCharging
    } else {
        ChargeState::Unknown
    }
}

/// What the content of the status node says: any word that is not one of the four known ones
/// is `Unknown`. An error is given as its text.
pub open spec fn charge_state(content: Seq<u8>) -> Result<ChargeState, Seq<char>> {
    if !valid_utf8(content) {
        Err(text::utf8_error_text(content))
    } else {
        Ok(status(text::trimmed(decode_utf8(content))))
    }
}

/// The charge state, from what came of reading [`STATUS_PATH`]: its content, or the text of the
/// error.
pub fn read_charge_state(content: Result<Vec<u8>, String>) -> (r: Result<ChargeState, String>)
    ensures
        match (content, r) {
            (Err(e), Err(text)) => text@ == e@,
            (Err(e), Ok(_)) => false,
            (Ok(bytes), Ok(cs)) => charge_state(bytes@) == Ok::<ChargeState, Seq<char>>(cs),
            (Ok(bytes), Err(text)) => charge_state(bytes@) == Err::<ChargeState, Seq<char>>(text@),
        },
{
    match content {
        Err(e) => Err(e),
        Ok(bytes) => match text::decode_utf8_text(bytes.as_slice()) {
            Err(e) => Err(e),
            Ok(s) => {
                let word = text::trim(s);
                if text::same(word, "Charging") {
                    Ok(ChargeState::Charging)
                } else if text::same(word, "Discharging") {
                    Ok(ChargeState::Discharging)
                } else if text::same(word, "Full") {
                    Ok(ChargeState::Full)
                } else if text::same(word, "Not charging") {
                    Ok(ChargeState::NotCharging)
                } else {
                    Ok(ChargeState::Unknown)
                }
            },
        },
    }
}

proof fn digits_make_a_run(s: Seq<char>)
    requires
        forall|i: int| 0 <= i < s.len() ==> text::is_digit(#[trigger] s[i]),
    ensures
        digit_run(s) == s.len(),
    decreases s.len(),
{
    if s.len() > 0 {
        let rest = s.drop_first();
        assert forall|i: int| 0 <= i < rest.len() implies text::is_digit(#[trigger] rest[i]) by {
            assert(rest[i] == s[i + 1]);
        }
        digits_make_a_run(rest);
    }
}

/// How reading a number goes on from one character to the next: a first digit is read as its
/// value, a further one makes ten times the number and its value, if that fits.
pub proof fn numbers_are_read_digit_by_digit(s: Seq<char>, c: char)
    ensures
        number(Seq::empty()) == Err::<u8, NumberError>(NumberError::Empty),
        '0' <= c <= '9' ==> number(seq![c]) == Ok::<u8, NumberError>((c as u32 - 48) as u8),
        !('0' <= c <= '9') ==> number(seq![c]) == Err::<u8, NumberError>(NumberError::InvalidDigit),
        number(s) matches Ok(n) ==> number(s.push(c)) == if !('0' <= c <= '9') {
            Err::<u8, NumberError>(NumberError::InvalidDigit)
        } else if n * 10 + (c as u32 - 48) > 255 {
            Err::<u8, NumberError>(NumberError::TooLarge)
        } else {
            Ok::<u8, NumberError>((n * 10 + (c as u32 - 48)) as u8)
        },
{
    reveal_with_fuel(digit_run, 2);
    assert(seq![c].drop_first() =~= Seq::empty());
    assert(seq![c].take(1) =~= seq![c]);
    assert(seq![c].take(0) =~= Seq::empty());
    text::digits_are_read_in_base_ten(Seq::empty(), c);
    assert(Seq::empty().push(c) =~= seq![c]);
    if number(s) is Ok {
        let d = unsigned_part(s);
        let e = unsigned_part(s.push(c));
        digit_run_bounds(d);
        if s.len() == 1 {
            assert(text::is_digit(s[0]));
        }
        assert(e =~= d.push(c));
        assert(d.take(d.len() as int) =~= d);
        assert(e.take(d.len() as int) =~= d);
        assert(forall|i: int| 0 <= i < d.len() ==> e[i] == d[i]);
        digit_run_bounds(e);
        text::digits_are_read_in_base_ten(d, c);
        if text::is_digit(c) {
            assert(digit_run(e) == e.len());
            assert(e.take(e.len() as int) =~= e);
        } else {
            assert(digit_run(e) == d.len());
        }
    }
}

/// What is no number stays none for the same reason, whatever follows it. Only an empty text and
/// a lone plus sign can still become one.
pub proof fn failed_numbers_stay_failed(s: Seq<char>, c: char)
    requires
        s.len() > 0,
        s != seq!['+'],
        number(s) is Err,
    ensures
        number(s.push(c)) == number(s),
{
    let d = unsigned_part(s);
    let e = unsigned_part(s.push(c));
    if s.len() == 1 && s[0] == '+' {
        assert(s =~= seq!['+']);
    }
    assert(e =~= d.push(c));
    digit_run_bounds(d);
    digit_run_bounds(e);
    assert(forall|i: int| 0 <= i < d.len() ==> e[i] == d[i]);
    let run = digit_run(d) as int;
    if run < d.len() {
        assert(e[run] == d[run]);
        assert(digit_run(e) == run);
        assert(e.take(run) =~= d.take(run));
    } else {
        assert(d.take(run) =~= d);
        assert(e.take(run) =~= d);
        longer_prefix_is_no_smaller(e, run, digit_run(e) as int);
    }
}

/// A plus sign before a number changes nothing. A second one makes it invalid.
pub proof fn plus_sign_is_passed_over(s: Seq<char>)
    ensures
        s.len() > 0 && s[0] != '+' ==> number(seq!['+'] + s) == number(s),
        number(seq!['+', '+'] + s) == Err::<u8, NumberError>(NumberError::InvalidDigit),
{
    let t = seq!['+'] + s;
    assert(t.drop_first() =~= s);
    let u = seq!['+', '+'] + s;
    assert(u.drop_first()[0] == '+');
    assert(u.drop_first().take(0) =~= Seq::empty());
    text::digits_are_read_in_base_ten(Seq::empty(), '+');
}

/// A number that is written in decimal is read as the number; one above 255 is too large.
pub proof fn written_number_is_read(n: nat)
    ensures
        number(text::decimal(n)) == if n <= 255 {
            Ok::<u8, NumberError>(n as u8)
        } else {
            Err::<u8, NumberError>(NumberError::TooLarge)
        },
{
    let s = text::decimal(n);
    text::decimal_reads_back(n);
    assert(text::is_digit(s[0]));
    digits_make_a_run(s);
    assert(s.take(s.len() as int) =~= s);
}

/// The capacity that the kernel writes as a line is read as it is.
pub proof fn capacity_line_is_read(n: u8)
    ensures
        capacity(encode_utf8(text::decimal(n as nat).push('\n'))) == Ok::<u8, Seq<char>>(n),
{
    let s = text::decimal(n as nat);
    text::decimal_reads_back(n as nat);
    assert(text::is_digit(s.first()) && text::is_digit(s.last()));
    text::line_is_trimmed(s);
    written_number_is_read(n as nat);
    encode_utf8_valid_utf8(s.push('\n'));
    encode_utf8_decode_utf8(s.push('\n'));
}

/// White space around the capacity does not matter: what stands between is read as a number. What
/// is not UTF-8 is no capacity.
pub proof fn capacity_is_the_number_inside(
    a: Seq<char>,
    s: Seq<char>,
    b: Seq<char>,
    content: Seq<u8>,
)
    requires
        text::is_blank(a),
        text::is_blank(b),
        s.len() == 0 || (!text::is_white_space(s.first()) && !text::is_white_space(s.last())),
    ensures
        match (capacity(encode_utf8(a + s + b)), number(s)) {
            (Ok(n), Ok(m)) => n == m,
            (Err(text), Err(e)) => text == match e {
                NumberError::Empty => "cannot parse integer from empty string"@,
                NumberError::InvalidDigit => "invalid digit found in string"@,
                NumberError::TooLarge => "number too large to fit in target type"@,
            },
            _ => false,
        },
        !valid_utf8(content) ==> capacity(content) == Err::<u8, Seq<char>>(
            text::utf8_error_text(content),
        ),
{
    encode_utf8_valid_utf8(a + s + b);
    encode_utf8_decode_utf8(a + s + b);
    text::trimming_keeps_what_is_inside(a, s, b);
}

/// White space around the status does not matter: each of the four words stands for its state,
/// and any other text is an unknown one. What is not UTF-8 is no status.
pub proof fn charge_state_is_the_word_inside(
    a: Seq<char>,
    word: Seq<char>,
    b: Seq<char>,
    content: Seq<u8>,
)
    requires
        text::is_blank(a),
        text::is_blank(b),
        word.len() == 0 || (!text::is_white_space(word.first()) && !text::is_white_space(
            word.last(),
        )),
    ensures
        charge_state(encode_utf8(a + word + b)) == Ok::<ChargeState, Seq<char>>(
            if word == "Charging"@ {
                ChargeState::Charging
            } else if word == "Discharging"@ {
                ChargeState::Discharging
            } else if word == "Full"@ {
                ChargeState::Full
            } else if word == "Not charging"@ {
                ChargeState::NotCharging
            } else {
                ChargeState::Unknown
            },
        ),
        !valid_utf8(content) ==> charge_state(content) == Err::<ChargeState, Seq<char>>(
            text::utf8_error_text(content),
        ),
{
    encode_utf8_valid_utf8(a + word + b);
    encode_utf8_decode_utf8(a + word + b);
    text::trimming_keeps_what_is_inside(a, word, b);
}

/// The status that the kernel writes as a line is read as the state that the word stands for;
/// only the four known words stand for a known state.
pub proof fn status_line_is_read(word: Seq<char>)
    requires
        word.len() > 0,
        !text::is_white_space(word.first()),
        !text::is_white_space(word.last()),
    ensures
        charge_state(encode_utf8(word.push('\n'))) == Ok::<ChargeState, Seq<char>>(status(word)),
        status(word) is Unknown <==> word != "Charging"@ && word != "Discharging"@ && word
            != "Full"@ && word != "Not charging"@,
{
    text::line_is_trimmed(word);
    encode_utf8_valid_utf8(word.push('\n'));
    encode_utf8_decode_utf8(word.push('\n'));
}

} // verus!
