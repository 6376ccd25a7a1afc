//! Whole numbers written in decimal, as they travel inside message payloads:
//! writing and reading them, proved against the decimal notation itself.
use vstd::prelude::*;
use vstd::string::StrSliceExecFns;
use vstd::string::StringExecFns;

verus! {

/// The character of decimal digit `d` (`0 <= d < 10`).
pub open spec fn digit_char(d: int) -> char {
    (d + 48) as char
}

/// Whether `c` is one of the ASCII digits `0` to `9`.
pub open spec fn is_digit(c: char) -> bool {
    '0' <= c <= '9'
}

/// The decimal digits of `n`, most significant first, without leading zeros.
pub open spec fn digits_of(n: nat) -> Seq<char>
    decreases n,
{
    if n < 10 {
        seq![digit_char(n as int)]
    } else {
        digits_of(n / 10).push(digit_char((n % 10) as int))
    }
}

/// `n` in decimal, with a leading `-` when it is negative.
pub open spec fn decimal(n: int) -> Seq<char> {
    if n < 0 {
        seq!['-'] + digits_of((-n) as nat)
    } else {
        digits_of(n as nat)
    }
}

/// Whether every character of `s` is a decimal digit.
pub open spec fn all_digits(s: Seq<char>) -> bool {
    forall|i: int| 0 <= i < s.len() ==> is_digit(#[trigger] s[i])
}

/// The number a run of digits stands for.
pub open spec fn digits_value(s: Seq<char>) -> int
    decreases s.len(),
{
    if s.len() == 0 {
        0
    } else {
        digits_value(s.drop_last()) * 10 + (s.last() as int - 48)
    }
}

/// What `s` reads as a 64-bit signed integer: an optional `+` or `-`, then
/// one or more ASCII digits and nothing else, of a value within range.
pub open spec fn parsed_i64(s: Seq<char>) -> Option<i64> {
    let signed = s.len() > 0 && (s[0] == '-' || s[0] == '+');
    let body = if signed { s.drop_first() } else { s };
    let magnitude: int = digits_value(body);
    let value: int = if s.len() > 0 && s[0] == '-' { -magnitude } else { magnitude };
    if body.len() > 0 && all_digits(body) && i64::MIN <= value <= i64::MAX {
        Some(value as i64)
    } else {
        None
    }
}

proof fn lemma_digits_of(n: nat)
    ensures
        digits_of(n).len() > 0,
        forall|i: int| 0 <= i < digits_of(n).len() ==> is_digit(#[trigger] digits_of(n)[i]),
        digits_value(digits_of(n)) == n,
    decreases n,
{
    let d: int = (n % 10) as int;
    assert(digit_char(d) as int == d + 48);
    if n < 10 {
        let s = digits_of(n);
        assert(s.drop_last().len() == 0);
        assert(digits_value(s.drop_last()) == 0);
        assert(digits_value(s) == digits_value(s.drop_last()) * 10 + (s.last() as int - 48));
    } else {
        lemma_digits_of(n / 10);
        let s = digits_of(n);
        assert(s.last() == digit_char(d));
        assert((n / 10) * 10 + d == n);
        assert(digits_value(s) == digits_value(s.drop_last()) * 10 + (s.last() as int - 48));
        assert(s.drop_last() =~= digits_of(n / 10));
        assert forall|i: int| 0 <= i < s.len() implies is_digit(#[trigger] s[i]) by {
            if i < s.len() - 1 {
                assert(s[i] == digits_of(n / 10)[i]);
            }
        }
    }
}

/// Reading back a number written in decimal gives the number: a connection
/// id that one request writes into a payload is the one a later request
/// reads out of it.
pub proof fn lemma_decimal_round_trip(n: i64)
    ensures
        parsed_i64(decimal(n as int)) == Some(n),
{
    let s = decimal(n as int);
    if n < 0 {
        let m: nat = (-n) as nat;
        lemma_digits_of(m);
        assert(s.drop_first() =~= digits_of(m));
    } else {
        lemma_digits_of(n as nat);
        assert(is_digit(s[0]));
    }
}

/// The one-character text of decimal digit `d`.
fn digit_text(d: u64) -> (text: String)
    requires
        d < 10,
    ensures
        text@ == seq![digit_char(d as int)],
{
    let digits = "0123456789";
    proof {
        reveal_strlit("0123456789");
        assert(digits@[d as int] == digit_char(d as int));
    }
    digits.substring_char(d as usize, (d + 1) as usize).to_owned()
}

/// `n` in decimal: its digits without leading zeros, after a `-` when `n`
/// is negative (the text `i64`'s `Display` writes).
pub fn decimal_text(n: i64) -> (text: String)
    ensures
        text@ == decimal(n as int),
{
    let magnitude: u64 = if n < 0 {
        (0 - (n as i128)) as u64
    } else {
        n as u64
    };
    let ghost whole: nat = magnitude as nat;
    let mut text = digit_text(magnitude % 10);
    let mut rest: u64 = magnitude / 10;
    assert(whole >= 10 ==> digits_of(whole) =~= digits_of(rest as nat) + text@);
    while rest > 0
        invariant
            rest == 0 ==> text@ == digits_of(whole),
            rest > 0 ==> digits_of(whole) == digits_of(rest as nat) + text@,
        decreases rest,
    {
        let piece = digit_text(rest % 10);
        text = piece.concat(text.as_str());
        if rest >= 10 {
            assert(digits_of(rest as nat) =~= digits_of((rest / 10) as nat) + piece@);
            assert(digits_of(whole) =~= digits_of((rest / 10) as nat) + text@);
        } else {
            assert(digits_of(rest as nat) =~= piece@);
            assert(digits_of(whole) =~= text@);
        }
        rest = rest / 10;
    }
    if n < 0 {
        let sign = "-";
        proof {
            reveal_strlit("-");
        }
        text = sign.to_owned().concat(text.as_str());
        assert(text@ =~= decimal(n as int));
    }
    text
}

proof fn lemma_digits_value_nonnegative(s: Seq<char>)
    requires
        forall|i: int| 0 <= i < s.len() ==> is_digit(#[trigger] s[i]),
    ensures
        digits_value(s) >= 0,
    decreases s.len(),
{
    if s.len() > 0 {
        lemma_digits_value_nonnegative(s.drop_last());
        assert(is_digit(s[s.len() - 1]));
    }
}

proof fn lemma_digits_value_grows(s: Seq<char>, k: int)
    requires
        0 <= k <= s.len(),
        forall|i: int| 0 <= i < s.len() ==> is_digit(#[trigger] s[i]),
    ensures
        digits_value(s) >= digits_value(s.take(k)),
    decreases s.len() - k,
{
    if k == s.len() {
        assert(s.take(k) =~= s);
    } else {
        lemma_digits_value_grows(s, k + 1);
        let longer = s.take(k + 1);
        assert(longer.drop_last() =~= s.take(k));
        assert(is_digit(longer.last()));
        lemma_digits_value_nonnegative(s.take(k));
    }
}

/// `text` read as an `i64`, as `str::parse::<i64>` reads it: an optional
/// sign followed by one or more ASCII digits, nothing else, and a value in
/// range; everything else is refused with `None`.
pub fn parse_i64(text: &str) -> (n: Option<i64>)
    ensures
        n == parsed_i64(text@),
{
    let len: usize = text.unicode_len();
    let negative: bool = len > 0 && text.get_char(0) == '-';
    let signed: bool = len > 0 && (negative || text.get_char(0) == '+');
    let start: usize = if signed { 1 } else { 0 };
    let ghost body: Seq<char> = if signed { text@.drop_first() } else { text@ };
    if start == len {
        return None;
    }
    let mut magnitude: u128 = 0;
    let mut i: usize = start;
    assert(body.take(0) =~= Seq::<char>::empty());
    while i < len
        invariant
            start <= i <= len,
            len == text@.len(),
            signed == (text@.len() > 0 && (text@[0] == '-' || text@[0] == '+')),
            negative == (text@.len() > 0 && text@[0] == '-'),
            body == (if signed { text@.drop_first() } else { text@ }),
            body.len() == len - start,
            forall|j: int| 0 <= j < body.len() ==> body[j] == #[trigger] text@[start + j],
            forall|j: int| 0 <= j < i - start ==> is_digit(#[trigger] body[j]),
            magnitude == digits_value(body.take(i - start)),
            magnitude <= 0x8000_0000_0000_0000,
        decreases len - i,
    {
        let c: char = text.get_char(i);
        let ghost k: int = i - start;
        assert(body[k] == text@[start + k]);
        assert(body[k] == c);
        if !('0' <= c && c <= '9') {
            assert(!is_digit(body[k]));
            assert(!all_digits(body));
            return None;
        }
        let digit: u128 = (c as u32 - 48) as u128;
        let ghost prefix: Seq<char> = body.take(i - start + 1);
        assert(prefix.drop_last() =~= body.take(i - start));
        assert(prefix.last() == c);
        magnitude = magnitude * 10 + digit;
        assert(magnitude == digits_value(prefix));
        i = i + 1;
        if magnitude > 0x8000_0000_0000_0000 {
            proof {
                if all_digits(body) {
                    lemma_digits_value_grows(body, k + 1);
                    assert(digits_value(body) > 0x8000_0000_0000_0000);
                }
            }
            return None;
        }
    }
    assert(body.take(body.len() as int) =~= body);
    if negative {
        if magnitude == 0x8000_0000_0000_0000 {
            Some(i64::MIN)
        } else {
            Some(0 - (magnitude as i64))
        }
    } else if magnitude > 0x7fff_ffff_ffff_ffff {
        None
    } else {
        Some(magnitude as i64)
    }
}

} // verus!
