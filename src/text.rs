//! Decimal and hexadecimal text of unsigned integers, and the parsing of a
//! plain-text decimal count.
use vstd::prelude::*;

verus! {

/// The lower-case digit character of `d`, for `d` below sixteen.
pub open spec fn digit_char(d: nat) -> char {
    if d < 10 {
        (('0' as nat) + d) as char
    } else {
        (('a' as nat) + (d - 10)) as char
    }
}

/// The digits of `n` in `base`, most significant first, without leading zeros
/// (zero is the single digit `0`).
pub open spec fn radix_digits(n: nat, base: nat) -> Seq<char>
    decreases n via radix_digits_decreases
{
    if base < 2 || n < base {
        seq![digit_char(n)]
    } else {
        radix_digits(n / base, base).push(digit_char(n % base))
    }
}

#[via_fn]
proof fn radix_digits_decreases(n: nat, base: nat) {
    if !(base < 2 || n < base) {
        assert(n / base < n) by (nonlinear_arith)
            requires
                base >= 2,
                n >= base,
        ;
    }
}

/// The decimal text of `n`.
pub open spec fn decimal(n: nat) -> Seq<char> {
    radix_digits(n, 10)
}

/// The lower-case hexadecimal text of `n`, without a prefix.
pub open spec fn hexadecimal(n: nat) -> Seq<char> {
    radix_digits(n, 16)
}

/// Whether `c` is an ASCII decimal digit.
pub open spec fn is_dec_digit(c: char) -> bool {
    '0' <= c && c <= '9'
}

/// The value of a run of decimal digits.
pub open spec fn digits_value(s: Seq<char>) -> nat
    decreases s.len(),
{
    if s.len() == 0 {
        0
    } else {
        digits_value(s.drop_last()) * 10 + ((s.last() as nat) - ('0' as nat)) as nat
    }
}

/// The digits of a count as text: the whole text, less one leading `+`.
pub open spec fn count_digits(s: Seq<char>) -> Seq<char> {
    if s.len() > 0 && s[0] == '+' {
        s.drop_first()
    } else {
        s
    }
}

/// Whether `s` is the text of a count: an optional `+` and at least one
/// decimal digit, nothing else.
pub open spec fn is_count_text(s: Seq<char>) -> bool {
    let d = count_digits(s);
    d.len() > 0 && forall|k: int| 0 <= k < d.len() ==> is_dec_digit(#[trigger] d[k])
}

/// The count that `s` spells, if it is the text of a count that fits in 64 bits.
pub open spec fn count_of(s: Seq<char>) -> Option<u64> {
    if is_count_text(s) && digits_value(count_digits(s)) <= u64::MAX {
        Some(digits_value(count_digits(s)) as u64)
    } else {
        None
    }
}

/// The text of one digit below sixteen.
fn digit_text(d: u64) -> (r: &'static str)
    requires
        d < 16,
    ensures
        r@ == seq![digit_char(d as nat)],
{
    proof {
        reveal_strlit("0");
        reveal_strlit("1");
        reveal_strlit("2");
        reveal_strlit("3");
        reveal_strlit("4");
        reveal_strlit("5");
        reveal_strlit("6");
        reveal_strlit("7");
        reveal_strlit("8");
        reveal_strlit("9");
        reveal_strlit("a");
        reveal_strlit("b");
        reveal_strlit("c");
        reveal_strlit("d");
        reveal_strlit("e");
        reveal_strlit("f");
    }
    let r = match d {
        0 => "0",
        1 => "1",
        2 => "2",
        3 => "3",
        4 => "4",
        5 => "5",
        6 => "6",
        7 => "7",
        8 => "8",
        9 => "9",
        10 => "a",
        11 => "b",
        12 => "c",
        13 => "d",
        14 => "e",
        _ => "f",
    };
    assert(r@ =~= seq![digit_char(d as nat)]);
    r
}

/// The digits of `n` in `base` (ten or sixteen).
pub fn radix_text(n: u64, base: u64) -> (r: String)
    requires
        base == 10 || base == 16,
    ensures
        r@ == radix_digits(n as nat, base as nat),
    decreases n,
{
    if n < base {
        String::from_str(digit_text(n))
    } else {
        let mut s = radix_text(n / base, base);
        s.append(digit_text(n % base));
        s
    }
}

/// The decimal text of `n`.
pub fn decimal_text(n: u64) -> (r: String)
    ensures
        r@ == decimal(n as nat),
{
    radix_text(n, 10)
}

/// The lower-case hexadecimal text of `n`, without a prefix.
pub fn hex_text(n: u64) -> (r: String)
    ensures
        r@ == hexadecimal(n as nat),
{
    radix_text(n, 16)
}

proof fn lemma_digits_value_monotone(s: Seq<char>, k: int)
    requires
        0 <= k <= s.len(),
        forall|j: int| 0 <= j < s.len() ==> is_dec_digit(#[trigger] s[j]),
    ensures
        digits_value(s.subrange(0, k)) <= digits_value(s),
    decreases s.len() - k,
{
    if k < s.len() {
        lemma_digits_value_monotone(s, k + 1);
        let t = s.subrange(0, k + 1);
        assert(t.drop_last() =~= s.subrange(0, k));
    } else {
        assert(s.subrange(0, k) =~= s);
    }
}

/// Parses a count from text as a plain 64-bit unsigned decimal: an optional
/// `+`, then one or more digits, with no other character and no overflow.
pub fn parse_count(text: &str) -> (r: Option<u64>)
    ensures
        r == count_of(text@),
{
    let n = text.unicode_len();
    let mut start: usize = 0;
    if n > 0 && text.get_char(0) == '+' {
        start = 1;
    }
    let ghost d = count_digits(text@);
    assert(d =~= text@.subrange(start as int, n as int));
    if start >= n {
        return None;
    }
    let mut value: u64 = 0;
    let mut i: usize = start;
    while i < n
        invariant
            start <= i <= n,
            n == text@.len(),
            d =~= text@.subrange(start as int, n as int),
            d == count_digits(text@),
            forall|k: int| 0 <= k < i - start ==> is_dec_digit(#[trigger] d[k]),
            value as nat == digits_value(d.subrange(0, i - start)),
        decreases n - i,
    {
        let c = text.get_char(i);
        assert(d[i - start] == c);
        if c < '0' || c > '9' {
            assert(!is_dec_digit(d[i - start]));
            assert(!is_count_text(text@));
            return None;
        }
        let digit: u64 = (c as u64) - ('0' as u64);
        let ghost next = d.subrange(0, i + 1 - start);
        assert(next.drop_last() =~= d.subrange(0, i - start));
        if value > (u64::MAX - digit) / 10 {
            proof {
                assert(digits_value(next) == value * 10 + digit);
                assert(digits_value(next) > u64::MAX) by (nonlinear_arith)
                    requires
                        value > (u64::MAX - digit) / 10,
                        digits_value(next) == value * 10 + digit,
                        digit <= 9,
                ;
                if is_count_text(text@) {
                    lemma_digits_value_monotone(d, i + 1 - start);
                }
            }
            return None;
        }
        value = value * 10 + digit;
        i = i + 1;
    }
    assert(d.subrange(0, n - start) =~= d);
    Some(value)
}

/// The characters of `text`, in order.
pub fn chars_of(text: &str) -> (r: Vec<char>)
    ensures
        r@ == text@,
{
    let mut r: Vec<char> = Vec::new();
    for c in it: text.chars()
        invariant
            it.seq() == text@,
            r@ == it.seq().subrange(0, it.index() as int),
    {
        r.push(c);
    }
    r
}

/// A character as it stands inside a JSON string: a quote and a backslash
/// behind a backslash, a control character as `\u00XX`, any other as it is.
pub open spec fn json_escaped_char(c: char) -> Seq<char> {
    if c == '"' {
        seq!['\\', '"']
    } else if c == '\\' {
        seq!['\\', '\\']
    } else if (c as u32) < 32 {
        seq!['\\', 'u', '0', '0', digit_char((c as u32 / 16) as nat), digit_char((c as u32 % 16) as nat)]
    } else {
        seq![c]
    }
}

/// The text of `s` inside a JSON string, each character escaped as needed.
pub open spec fn json_escaped(s: Seq<char>) -> Seq<char>
    decreases s.len(),
{
    if s.len() == 0 {
        Seq::empty()
    } else {
        json_escaped(s.drop_last()) + json_escaped_char(s.last())
    }
}

/// Appends `text`, escaped for the inside of a JSON string, to `out`.
pub fn append_json_escaped(out: &mut String, text: &str)
    ensures
        final(out)@ == old(out)@ + json_escaped(text@),
{
    let chars = chars_of(text);
    let ghost start = out@;
    let mut i: usize = 0;
    while i < chars.len()
        invariant
            chars@ == text@,
            i <= chars@.len(),
            out@ == start + json_escaped(text@.subrange(0, i as int)),
        decreases chars.len() - i,
    {
        let c = chars[i];
        let ghost before = out@;
        if c == '"' {
            out.append("\\\"");
            proof { reveal_strlit("\\\""); }
            assert(out@ =~= before + json_escaped_char(c));
        } else if c == '\\' {
            out.append("\\\\");
            proof { reveal_strlit("\\\\"); }
            assert(out@ =~= before + json_escaped_char(c));
        } else if (c as u32) < 32 {
            let code: u32 = c as u32;
            out.append("\\u00");
            proof { reveal_strlit("\\u00"); }
            out.append(digit_text((code / 16) as u64));
            out.append(digit_text((code % 16) as u64));
            assert(out@ =~= before + json_escaped_char(c));
        } else {
            out.append(text.substring_char(i, i + 1));
            assert(out@ =~= before + json_escaped_char(c));
        }
        proof {
            let sub = text@.subrange(0, i + 1);
            assert(sub.drop_last() =~= text@.subrange(0, i as int));
            assert(sub.last() == c);
        }
        i = i + 1;
    }
    assert(text@.subrange(0, i as int) =~= text@);
}

} // verus!
