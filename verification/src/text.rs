//! Strings: comparison, decimal numerals, ASCII case, surrounding white space.

use vstd::prelude::*;
use vstd::string::{StrSliceExecFns, StringExecFns};

verus! {

/// The character sequences of a list of strings.
pub open spec fn texts(list: Seq<String>) -> Seq<Seq<char>> {
    list.map_values(|s: String| s@)
}

/// The character sequence of an optional string.
pub open spec fn opt_text(value: Option<String>) -> Option<Seq<char>> {
    match value {
        Some(s) => Some(s@),
        None => None,
    }
}

/// The character sequence of an optional string slice.
pub open spec fn opt_str(value: Option<&str>) -> Option<Seq<char>> {
    match value {
        Some(s) => Some(s@),
        None => None,
    }
}

/// Whether `a` and `b` hold the same characters.
pub fn same_text(a: &str, b: &str) -> (same: bool)
    ensures
        same == (a@ == b@),
{
    let left: &[u8] = a.as_bytes();
    let right: &[u8] = b.as_bytes();
    proof {
        vstd::utf8::encode_utf8_decode_utf8(a@);
        vstd::utf8::encode_utf8_decode_utf8(b@);
    }
    if left.len() != right.len() {
        return false;
    }
    let mut i: usize = 0;
    while i < left.len()
        invariant
            i <= left@.len(),
            left@.len() == right@.len(),
            forall|k: int| 0 <= k < i ==> left@[k] == right@[k],
            left@ == vstd::utf8::encode_utf8(a@),
            right@ == vstd::utf8::encode_utf8(b@),
        decreases left@.len() - i,
    {
        if left[i] != right[i] {
            return false;
        }
        i = i + 1;
    }
    assert(left@ =~= right@);
    true
}

/// Whether an argument is written as a flag, that is, begins with a dash.
pub open spec fn is_flag(arg: Seq<char>) -> bool {
    arg.len() > 0 && arg[0] == '-'
}

/// Whether `arg` begins with a dash.
pub fn begins_with_dash(arg: &str) -> (flag: bool)
    ensures
        flag == is_flag(arg@),
{
    !arg.is_empty() && arg.get_char(0) == '-'
}

/// An owned copy of `text`.
pub fn owned(text: &str) -> (copy: String)
    ensures
        copy@ == text@,
{
    text.to_owned()
}

/// An owned copy of an optional text.
pub fn copy_opt(value: &Option<String>) -> (copy: Option<String>)
    ensures
        opt_text(copy) == opt_text(*value),
{
    match value {
        Some(s) => Some(owned(s.as_str())),
        None => None,
    }
}

/// The character for the decimal digit `d`.
pub open spec fn digit(d: int) -> char {
    (48 + d) as char
}

/// The decimal numeral of `n`, without leading zeros.
pub open spec fn decimal(n: nat) -> Seq<char>
    decreases n,
{
    if n < 10 {
        seq![digit(n as int)]
    } else {
        decimal(n / 10).push(digit((n % 10) as int))
    }
}

fn digit_text(d: u64) -> (text: &'static str)
    requires
        d < 10,
    ensures
        text@ == seq![digit(d as int)],
{
    proof {
        reveal_strlit("0");
        reveal_strlit("1");
        reveal_strlit("2");
        reveal_strlit("3");
        reveal_strlit("4");
        reveal_strlit("5");
        reveal_strlit("6");
        reveal_strlit("7");
        reveal_strlit("8");
        reveal_strlit("9");
    }
    if d == 0 {
        "0"
    } else if d == 1 {
        "1"
    } else if d == 2 {
        "2"
    } else if d == 3 {
        "3"
    } else if d == 4 {
        "4"
    } else if d == 5 {
        "5"
    } else if d == 6 {
        "6"
    } else if d == 7 {
        "7"
    } else if d == 8 {
        "8"
    } else {
        "9"
    }
}

/// The decimal numeral of `n`.
pub fn decimal_text(n: u64) -> (text: String)
    ensures
        text@ == decimal(n as nat),
    decreases n,
{
    if n < 10 {
        digit_text(n).to_owned()
    } else {
        let text: String = decimal_text(n / 10).concat(digit_text(n % 10));
        assert(text@ =~= decimal(n as nat));
        text
    }
}

/// Whether `c` is one of the ASCII digits.
pub open spec fn is_digit(c: char) -> bool {
    '0' <= c <= '9'
}

/// The number that a non-empty run of ASCII digits stands for.
pub open spec fn digits_value(s: Seq<char>) -> Option<nat>
    decreases s.len(),
{
    if s.len() == 0 || !is_digit(s.last()) {
        None
    } else if s.len() == 1 {
        Some((s.last() as int - 48) as nat)
    } else {
        match digits_value(s.drop_last()) {
            Some(v) => Some((10 * v + (s.last() as int - 48)) as nat),
            None => None,
        }
    }
}

/// The number that an unsigned decimal numeral stands for: digits after an
/// optional plus sign.
pub open spec fn decimal_value(s: Seq<char>) -> Option<nat> {
    if s.len() > 0 && s[0] == '+' {
        digits_value(s.drop_first())
    } else {
        digits_value(s)
    }
}

/// The unsigned number that `s` spells, if it spells one that is at most `max`.
pub open spec fn bounded_value(s: Seq<char>, max: int) -> Option<int> {
    match decimal_value(s) {
        Some(v) => if v <= max {
            Some(v as int)
        } else {
            None
        },
        None => None,
    }
}

/// Reads an unsigned decimal numeral that is at most `max`.
pub fn parse_decimal(s: &str, max: u64) -> (value: Option<u64>)
    ensures
        value is Some <==> bounded_value(s@, max as int) is Some,
        value is Some ==> value->0 == bounded_value(s@, max as int)->0,
{
    let len: usize = s.unicode_len();
    let mut i: usize = 0;
    if len > 0 && s.get_char(0) == '+' {
        i = 1;
    }
    let start: usize = i;
    let ghost body = s@.skip(start as int);
    proof {
        if start == 1 {
            assert(body =~= s@.drop_first());
        } else {
            assert(body =~= s@);
        }
    }
    if i >= len {
        return None;
    }
    let mut value: u64 = 0;
    let mut over: bool = false;
    while i < len
        invariant
            len == s@.len(),
            start <= i <= len,
            start <= 1,
            body == s@.skip(start as int),
            decimal_value(s@) == digits_value(body),
            i == start ==> value == 0 && !over,
            i > start ==> digits_value(body.take(i - start)) is Some,
            i > start && !over ==> digits_value(body.take(i - start)) == Some(value as nat),
            !over ==> value <= max,
            over ==> i > start && digits_value(body.take(i - start))->0 > max,
        decreases len - i,
    {
        let c: char = s.get_char(i);
        proof {
            let upto = body.take(i + 1 - start);
            assert(upto.last() == c);
            assert(upto.drop_last() =~= body.take(i - start));
        }
        if c < '0' || c > '9' {
            proof {
                assert(digits_value(body.take(i + 1 - start)) is None);
                lemma_broken_digits(body, i + 1 - start);
            }
            return None;
        }
        let d: u64 = c as u64 - 48;
        if !over {
            if d > max || value > (max - d) / 10 {
                over = true;
            } else {
                value = value * 10 + d;
            }
        }
        i = i + 1;
    }
    assert(body.take(len - start) =~= body);
    if over {
        None
    } else {
        Some(value)
    }
}

/// A run with a broken prefix stands for no number.
proof fn lemma_broken_digits(s: Seq<char>, i: int)
    requires
        1 <= i <= s.len(),
        digits_value(s.take(i)) is None,
    ensures
        digits_value(s) is None,
    decreases s.len() - i,
{
    if i == s.len() {
        assert(s.take(i) =~= s);
    } else {
        assert(s.take(i + 1).drop_last() =~= s.take(i));
        lemma_broken_digits(s, i + 1);
    }
}

/// The decimal numeral of a number stands for that number.
pub proof fn decimal_round_trip(n: nat)
    ensures
        decimal_value(decimal(n)) == Some(n),
{
    lemma_decimal_digits(n);
}

pub(crate) proof fn lemma_decimal_digits(n: nat)
    ensures
        digits_value(decimal(n)) == Some(n),
        decimal(n).len() > 0,
        forall|i: int| 0 <= i < decimal(n).len() ==> is_digit(#[trigger] decimal(n)[i]),
    decreases n,
{
    if n >= 10 {
        lemma_decimal_digits(n / 10);
        assert(decimal(n).drop_last() =~= decimal(n / 10));
        assert(decimal(n).last() == digit((n % 10) as int));
        assert forall|i: int| 0 <= i < decimal(n).len() implies is_digit(
            #[trigger] decimal(n)[i],
        ) by {
            if i < decimal(n / 10).len() {
                assert(decimal(n)[i] == decimal(n / 10)[i]);
            }
        }
    }
}

/// Different numbers have different decimal numerals.
pub proof fn decimal_injective(a: nat, b: nat)
    requires
        decimal(a) == decimal(b),
    ensures
        a == b,
{
    decimal_round_trip(a);
    decimal_round_trip(b);
}

/// The ASCII lower case of `c`; other characters stay as they are.
pub open spec fn lower(c: char) -> char {
    if 'A' <= c <= 'Z' {
        (c as int + 32) as char
    } else {
        c
    }
}

/// The ASCII lower case of a text.
pub open spec fn lowered(s: Seq<char>) -> Seq<char> {
    s.map_values(|c: char| lower(c))
}

fn lower_char(c: char) -> (small: char)
    ensures
        small == lower(c),
{
    if 'A' <= c && c <= 'Z' {
        let byte: u8 = c as u8;
        (byte + 32) as char
    } else {
        c
    }
}

/// Whether the ASCII lower case of `s` is `small`.
pub fn lowered_is(s: &str, small: &str) -> (same: bool)
    ensures
        same == (lowered(s@) == small@),
{
    let len: usize = s.unicode_len();
    if len != small.unicode_len() {
        return false;
    }
    let mut i: usize = 0;
    while i < len
        invariant
            len == s@.len(),
            len == small@.len(),
            i <= len,
            forall|k: int| 0 <= k < i ==> lower(s@[k]) == small@[k],
        decreases len - i,
    {
        if lower_char(s.get_char(i)) != small.get_char(i) {
            assert(lowered(s@)[i as int] != small@[i as int]);
            return false;
        }
        i = i + 1;
    }
    assert(lowered(s@) =~= small@);
    true
}

/// The characters with the Unicode property White_Space.
pub open spec fn white_space(c: char) -> bool {
    let code = c as int;
    ||| 0x9 <= code <= 0xd
    ||| code == 0x20
    ||| code == 0x85
    ||| code == 0xa0
    ||| code == 0x1680
    ||| 0x2000 <= code <= 0x200a
    ||| code == 0x2028
    ||| code == 0x2029
    ||| code == 0x202f
    ||| code == 0x205f
    ||| code == 0x3000
}

/// A text without the white space at its two ends.
pub open spec fn trimmed(s: Seq<char>) -> Seq<char>
    decreases s.len(),
{
    if s.len() == 0 {
        s
    } else if white_space(s[0]) {
        trimmed(s.drop_first())
    } else if white_space(s.last()) {
        trimmed(s.drop_last())
    } else {
        s
    }
}

fn is_white_space(c: char) -> (white: bool)
    ensures
        white == white_space(c),
{
    let code: u32 = c as u32;
    (0x9 <= code && code <= 0xd) || code == 0x20 || code == 0x85 || code == 0xa0 || code == 0x1680
        || (0x2000 <= code && code <= 0x200a) || code == 0x2028 || code == 0x2029 || code == 0x202f
        || code == 0x205f || code == 0x3000
}

/// The text without the white space at its two ends.
pub fn trim(s: &str) -> (inner: &str)
    ensures
        inner@ == trimmed(s@),
{
    let len: usize = s.unicode_len();
    let mut from: usize = 0;
    assert(s@.subrange(0, len as int) =~= s@);
    while from < len && is_white_space(s.get_char(from))
        invariant
            len == s@.len(),
            from <= len,
            trimmed(s@) == trimmed(s@.subrange(from as int, len as int)),
        decreases len - from,
    {
        assert(s@.subrange(from as int, len as int).drop_first() =~= s@.subrange(
            from + 1,
            len as int,
        ));
        from = from + 1;
    }
    let mut to: usize = len;
    while from < to && is_white_space(s.get_char(to - 1))
        invariant
            len == s@.len(),
            from <= to <= len,
            from < to ==> !white_space(s@[from as int]),
            trimmed(s@) == trimmed(s@.subrange(from as int, to as int)),
        decreases to - from,
    {
        assert(s@.subrange(from as int, to as int).drop_last() =~= s@.subrange(
            from as int,
            to - 1,
        ));
        to = to - 1;
    }
    s.substring_char(from, to)
}

/// What `String::from_utf8_lossy` makes of a byte string.
pub uninterp spec fn lossy_text(bytes: Seq<u8>) -> Seq<char>;

/// `String::from_utf8_lossy`: the text of the bytes, with replacement
/// characters for what is not UTF-8. On valid UTF-8 it is plain decoding.
#[verifier::external_body]
pub(crate) fn decode_lossy(bytes: &[u8]) -> (text: String)
    ensures
        text@ == lossy_text(bytes@),
        vstd::utf8::valid_utf8(bytes@) ==> text@ == vstd::utf8::decode_utf8(bytes@),
{
    String::from_utf8_lossy(bytes).into_owned()
}

/// Trimming twice is trimming once.
pub proof fn trim_idempotent(s: Seq<char>)
    ensures
        trimmed(trimmed(s)) == trimmed(s),
    decreases s.len(),
{
    if s.len() > 0 {
        if white_space(s[0]) {
            trim_idempotent(s.drop_first());
        } else if white_space(s.last()) {
            trim_idempotent(s.drop_last());
        }
    }
}

} // verus!
