//! Characters and bytes: the plain values the grammars of this crate read.

use vstd::prelude::*;
use vstd::string::*;
use vstd::utf8::{decode_utf8, valid_utf8};

verus! {

/// What std says of bytes that are not UTF-8 when it is asked to read them as text.
pub uninterp spec fn utf8_complaint(bytes: Seq<u8>) -> Seq<char>;

/// `std::str::from_utf8`, with the text of its error.
///
/// Trusted: the bytes are read as text exactly where they are valid UTF-8,
/// and the text is what they decode to; what the error says depends on the
/// bytes alone.
#[verifier::external_body]
pub(crate) fn utf8_text<'a>(bytes: &'a [u8]) -> (r: Result<&'a str, String>)
    ensures
        match r {
            Ok(text) => valid_utf8(bytes@) && text@ == decode_utf8(bytes@),
            Err(reason) => !valid_utf8(bytes@) && reason@ == utf8_complaint(bytes@),
        },
{
    std::str::from_utf8(bytes).map_err(|e| format!("{}", e))
}

/// `String::from_iter` of std, on the characters of a slice.
///
/// Trusted: the text holds the characters of the slice, in order.
#[verifier::external_body]
pub(crate) fn string_of(chars: &[char]) -> (text: String)
    ensures
        text@ == chars@,
{
    String::from_iter(chars.iter())
}

/// `text` with each occurrence of `from` replaced by `to`, the occurrences
/// taken from the left and none overlapping another. An empty `from` occurs
/// once before each character and once at the end.
pub open spec fn replaced(text: Seq<char>, from: Seq<char>, to: Seq<char>) -> Seq<char>
    decreases text.len(),
{
    if text.len() == 0 {
        if from.len() == 0 {
            to
        } else {
            text
        }
    } else if from.len() == 0 {
        to + seq![text[0]] + replaced(text.skip(1), from, to)
    } else if from.len() <= text.len() && text.take(from.len() as int) == from {
        to + replaced(text.skip(from.len() as int), from, to)
    } else {
        seq![text[0]] + replaced(text.skip(1), from, to)
    }
}

/// Whether `from` stands in `text` at `at`.
fn stands_at(text: &Vec<char>, at: usize, from: &Vec<char>) -> (b: bool)
    requires
        at <= text.len(),
    ensures
        b == (from@.len() <= text@.skip(at as int).len() && text@.skip(at as int).take(
            from@.len() as int,
        ) == from@),
{
    if text.len() - at < from.len() {
        return false;
    }
    let ghost rest = text@.skip(at as int);
    let mut k: usize = 0;
    while k < from.len()
        invariant
            k <= from.len(),
            at + from.len() <= text.len(),
            rest == text@.skip(at as int),
            forall|i: int| 0 <= i < k ==> rest[i] == from@[i],
        decreases from.len() - k,
    {
        if text[at + k] != from[k] {
            assert(rest.take(from@.len() as int)[k as int] != from@[k as int]);
            return false;
        }
        k = k + 1;
    }
    assert(rest.take(from@.len() as int) =~= from@);
    true
}

/// Puts `more` behind `chars`.
fn append_chars(chars: &mut Vec<char>, more: &Vec<char>)
    ensures
        final(chars)@ == old(chars)@ + more@,
{
    let mut at: usize = 0;
    while at < more.len()
        invariant
            at <= more.len(),
            chars@ == old(chars)@ + more@.take(at as int),
        decreases more.len() - at,
    {
        chars.push(more[at]);
        at = at + 1;
    }
    assert(more@.take(at as int) =~= more@);
}

/// Replaces each occurrence of `from` in `text` by `to`.
pub fn replace_all(text: &str, from: &str, to: &str) -> (r: String)
    ensures
        r@ == replaced(text@, from@, to@),
{
    let text = chars_of(text);
    let from = chars_of(from);
    let to = chars_of(to);
    let mut out: Vec<char> = Vec::new();
    let mut at: usize = 0;
    assert(text@.skip(0) =~= text@);
    assert(out@ + replaced(text@, from@, to@) =~= replaced(text@, from@, to@));
    while at < text.len()
        invariant
            at <= text.len(),
            out@ + replaced(text@.skip(at as int), from@, to@) == replaced(text@, from@, to@),
        decreases text.len() - at,
    {
        let ghost rest = text@.skip(at as int);
        let ghost done = out@;
        assert(rest.len() > 0 && rest[0] == text@[at as int]);
        if from.len() == 0 {
            append_chars(&mut out, &to);
            out.push(text[at]);
            assert(rest.skip(1) =~= text@.skip(at + 1));
            assert(out@ + replaced(text@.skip(at + 1), from@, to@) =~= done + (to@ + seq![rest[0]]
                + replaced(rest.skip(1), from@, to@)));
            at = at + 1;
        } else if stands_at(&text, at, &from) {
            append_chars(&mut out, &to);
            assert(rest.skip(from@.len() as int) =~= text@.skip(at + from@.len()));
            assert(out@ + replaced(text@.skip(at + from@.len()), from@, to@) =~= done + (to@
                + replaced(rest.skip(from@.len() as int), from@, to@)));
            at = at + from.len();
        } else {
            out.push(text[at]);
            assert(rest.skip(1) =~= text@.skip(at + 1));
            assert(out@ + replaced(text@.skip(at + 1), from@, to@) =~= done + (seq![rest[0]]
                + replaced(rest.skip(1), from@, to@)));
            at = at + 1;
        }
    }
    assert(text@.skip(at as int).len() == 0);
    if from.len() == 0 {
        append_chars(&mut out, &to);
    }
    string_of(out.as_slice())
}

/// The digit that stands for a number below ten.
pub open spec fn digit_char(d: nat) -> char {
    ((d + 48) as u8) as char
}

/// The decimal digits of `n`, without leading zeros; `0` for zero.
pub open spec fn decimal(n: nat) -> Seq<char>
    decreases n,
{
    if n < 10 {
        seq![digit_char(n)]
    } else {
        decimal(n / 10).push(digit_char(n % 10))
    }
}

/// Writes `n` in decimal.
pub fn decimal_text(n: u64) -> (text: String)
    ensures
        text@ == decimal(n as nat),
{
    let mut digits: Vec<char> = Vec::new();
    let mut rest: u64 = n;
    while rest >= 10
        invariant
            decimal(n as nat) == decimal(rest as nat) + digits@,
        decreases rest,
    {
        let d = (rest % 10) as u8;
        digits.insert(0, (d + 48) as char);
        rest = rest / 10;
    }
    digits.insert(0, ((rest as u8) + 48) as char);
    string_of(digits.as_slice())
}

/// Whether the character `c` stands in `s`.
pub fn has_char(s: &str, c: char) -> (found: bool)
    ensures
        found == s@.contains(c),
{
    let chars = chars_of(s);
    let mut at: usize = 0;
    while at < chars.len()
        invariant
            at <= chars.len(),
            chars@ == s@,
            forall|i: int| 0 <= i < at ==> chars@[i] != c,
        decreases chars.len() - at,
    {
        if chars[at] == c {
            return true;
        }
        at = at + 1;
    }
    false
}

/// Puts the bytes of `more` behind those of `bytes`.
pub fn append_bytes(bytes: &mut Vec<u8>, more: &Vec<u8>)
    ensures
        final(bytes)@ == old(bytes)@ + more@,
{
    let mut at: usize = 0;
    while at < more.len()
        invariant
            at <= more.len(),
            bytes@ == old(bytes)@ + more@.take(at as int),
        decreases more.len() - at,
    {
        bytes.push(more[at]);
        at = at + 1;
    }
    assert(more@.take(at as int) =~= more@);
}

/// A copy of the bytes.
pub fn copy_of(bytes: &Vec<u8>) -> (copy: Vec<u8>)
    ensures
        copy@ == bytes@,
{
    let copy = bytes.clone();
    assert(copy@ =~= bytes@);
    copy
}

/// The characters of a text that may be there.
pub open spec fn value_view(value: Option<String>) -> Option<Seq<char>> {
    match value {
        Some(text) => Some(text@),
        None => None,
    }
}

/// The characters of `s`, in order.
pub fn chars_of(s: &str) -> (v: Vec<char>)
    ensures
        v@ == s@,
{
    let mut v: Vec<char> = Vec::new();
    for c in it: s.chars()
        invariant
            v@ == it.seq().take(it.index() as int),
            it.seq() == s@,
    {
        v.push(c);
    }
    v
}

/// `c` is one of the ten ASCII digits.
pub open spec fn is_digit(c: char) -> bool {
    '0' <= c && c <= '9'
}

/// The number a digit stands for.
pub open spec fn digit_value(c: char) -> int {
    c as int - '0' as int
}

/// The `count` characters of `s` from `at` on exist and are digits.
pub open spec fn digits_at(s: Seq<char>, at: int, count: int) -> bool {
    &&& 0 <= at
    &&& 0 <= count
    &&& at + count <= s.len()
    &&& forall|i: int| at <= i < at + count ==> is_digit(#[trigger] s[i])
}

/// The decimal number that the `count` digits of `s` from `at` on spell.
pub open spec fn number_at(s: Seq<char>, at: int, count: nat) -> int
    decreases count,
{
    if count == 0 {
        0
    } else {
        number_at(s, at, (count - 1) as nat) * 10 + digit_value(s[at + count - 1])
    }
}

/// Ten to the power of `k`.
pub open spec fn ten_to(k: nat) -> int
    decreases k,
{
    if k == 0 {
        1
    } else {
        10 * ten_to((k - 1) as nat)
    }
}

/// Powers of ten grow with the exponent; the eighteenth is a one with eighteen zeros.
pub proof fn ten_to_grows(a: nat, b: nat)
    requires
        a <= b,
    ensures
        0 < ten_to(a) <= ten_to(b),
        ten_to(18) == 1_000_000_000_000_000_000,
    decreases b,
{
    reveal_with_fuel(ten_to, 19);
    if a < b {
        ten_to_grows(a, (b - 1) as nat);
    } else if a > 0 {
        ten_to_grows((a - 1) as nat, (a - 1) as nat);
    }
}

/// A number of `count` digits is below the `count`-th power of ten.
pub proof fn number_at_bound(s: Seq<char>, at: int, count: nat)
    requires
        digits_at(s, at, count as int),
    ensures
        0 <= number_at(s, at, count) < ten_to(count),
    decreases count,
{
    if count > 0 {
        number_at_bound(s, at, (count - 1) as nat);
        assert(is_digit(s[at + count - 1]));
    }
}

/// The value of `c` where it is a digit.
pub fn digit_of(c: char) -> (d: Option<u8>)
    ensures
        d == (if is_digit(c) {
            Some(digit_value(c) as u8)
        } else {
            None
        }),
{
    if '0' <= c && c <= '9' {
        Some(((c as u32) - ('0' as u32)) as u8)
    } else {
        None
    }
}

/// Reads `count` digits of `s` from `at` on as a decimal number; `None` where
/// the text ends before them or one of them is no digit.
pub fn read_number(s: &Vec<char>, at: usize, count: usize) -> (r: Option<i64>)
    requires
        count <= 18,
    ensures
        r == (if digits_at(s@, at as int, count as int) {
            Some(number_at(s@, at as int, count as nat) as i64)
        } else {
            None
        }),
        r matches Some(n) ==> n == number_at(s@, at as int, count as nat),
{
    if at > s.len() || count > s.len() - at {
        return None;
    }
    let mut n: i64 = 0;
    let mut k: usize = 0;
    while k < count
        invariant
            k <= count <= 18,
            at + count <= s.len(),
            digits_at(s@, at as int, k as int),
            n == number_at(s@, at as int, k as nat),
        decreases count - k,
    {
        match digit_of(s[at + k]) {
            Some(d) => {
                proof {
                    number_at_bound(s@, at as int, k as nat);
                    ten_to_grows(k as nat, 17);
                    ten_to_grows(17, 18);
                }
                n = n * 10 + (d as i64);
                k = k + 1;
            },
            None => {
                assert(!is_digit(s@[at + k]));
                return None;
            },
        }
    }
    Some(n)
}

/// The number spelt by more digits is no smaller.
pub proof fn number_at_grows(s: Seq<char>, at: int, shorter: nat, longer: nat)
    requires
        shorter <= longer,
        digits_at(s, at, longer as int),
    ensures
        0 <= number_at(s, at, shorter) <= number_at(s, at, longer),
    decreases longer,
{
    if shorter < longer {
        number_at_grows(s, at, shorter, (longer - 1) as nat);
        assert(is_digit(s[at + longer - 1]));
    } else {
        number_at_bound(s, at, shorter);
        ten_to_grows(0, shorter);
    }
}

/// The integer that `s` spells in decimal: digits, at least one, behind at
/// most one sign. A text of any other shape spells none.
pub open spec fn signed_number(s: Seq<char>) -> Option<int> {
    if s.len() > 1 && (s[0] == '+' || s[0] == '-') && digits_at(s, 1, s.len() - 1) {
        if s[0] == '-' {
            Some(-number_at(s, 1, (s.len() - 1) as nat))
        } else {
            Some(number_at(s, 1, (s.len() - 1) as nat))
        }
    } else if s.len() > 0 && digits_at(s, 0, s.len() as int) {
        Some(number_at(s, 0, s.len()))
    } else {
        None
    }
}

/// The integer that `s` spells in decimal, where it fits 64 bits with a sign.
pub open spec fn integer_of(s: Seq<char>) -> Option<i64> {
    match signed_number(s) {
        Some(n) => if i64::MIN <= n <= i64::MAX {
            Some(n as i64)
        } else {
            None
        },
        None => None,
    }
}

/// Reads the digits of `s` from `at` to its end as a number of at most `limit`.
fn read_magnitude(s: &Vec<char>, at: usize, limit: u64) -> (r: Option<u64>)
    requires
        at <= s.len(),
        9 <= limit <= 0x8000_0000_0000_0000,
    ensures
        r matches Some(n) ==> n <= limit && n == number_at(s@, at as int, (s.len() - at) as nat),
        r == (if digits_at(s@, at as int, s.len() - at) && number_at(
            s@,
            at as int,
            (s.len() - at) as nat,
        ) <= limit {
            Some(number_at(s@, at as int, (s.len() - at) as nat) as u64)
        } else {
            None
        }),
{
    let mut n: u64 = 0;
    let mut k: usize = at;
    while k < s.len()
        invariant
            at <= k <= s.len(),
            9 <= limit <= 0x8000_0000_0000_0000,
            digits_at(s@, at as int, k - at),
            n == number_at(s@, at as int, (k - at) as nat),
            n <= limit,
        decreases s.len() - k,
    {
        match digit_of(s[k]) {
            Some(d) => {
                let ghost next = number_at(s@, at as int, (k + 1 - at) as nat);
                assert(next == n * 10 + d);
                if n > (limit - d as u64) / 10 {
                    proof {
                        if digits_at(s@, at as int, s.len() - at) {
                            number_at_grows(
                                s@,
                                at as int,
                                (k + 1 - at) as nat,
                                (s.len() - at) as nat,
                            );
                        }
                    }
                    return None;
                }
                n = n * 10 + (d as u64);
                k = k + 1;
            },
            None => {
                assert(!is_digit(s@[k as int]));
                return None;
            },
        }
    }
    Some(n)
}

/// Reads a decimal integer: digits behind at most one sign, and nothing else.
pub fn read_integer(s: &Vec<char>) -> (r: Option<i64>)
    ensures
        r == integer_of(s@),
{
    if s.len() == 0 {
        return None;
    }
    let signed = s[0] == '-' || s[0] == '+';
    if signed {
        assert(!is_digit(s@[0]));
        if s.len() == 1 {
            return None;
        }
    }
    if s[0] == '-' {
        match read_magnitude(s, 1, 0x8000_0000_0000_0000) {
            Some(n) => if n == 0x8000_0000_0000_0000 {
                Some(i64::MIN)
            } else {
                Some(-(n as i64))
            },
            None => None,
        }
    } else {
        let start: usize = if signed {
            1
        } else {
            0
        };
        match read_magnitude(s, start, 0x7fff_ffff_ffff_ffff) {
            Some(n) => {
                Some(n as i64)
            },
            None => None,
        }
    }
}

/// `s` without the line feeds at its end.
pub open spec fn trimmed(s: Seq<char>) -> Seq<char>
    decreases s.len(),
{
    if s.len() > 0 && s.last() == '\n' {
        trimmed(s.drop_last())
    } else {
        s
    }
}

/// The text without the line feeds at its end.
pub fn trim_line_feeds(text: &str) -> (r: String)
    ensures
        r@ == trimmed(text@),
{
    let mut chars = chars_of(text);
    while chars.len() > 0 && chars[chars.len() - 1] == '\n'
        invariant
            trimmed(chars@) == trimmed(text@),
        decreases chars.len(),
    {
        let ghost before = chars@;
        chars.pop();
        assert(chars@ == before.drop_last());
    }
    string_of(chars.as_slice())
}

} // verus!
