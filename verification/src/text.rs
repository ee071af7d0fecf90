//! Character-level text helpers: conversions between strings and character
//! vectors, decimal formatting of the cell type, and decimal parsing.

use vstd::prelude::*;
use vstd::string::StrSliceExecFns;

verus! {

/// The characters of a string slice, in order.
pub fn str_chars(s: &str) -> (v: Vec<char>)
    ensures
        v@ == s@,
{
    let n = s.unicode_len();
    let mut v: Vec<char> = Vec::new();
    let mut i: usize = 0;
    while i < n
        invariant
            i <= n,
            n == s@.len(),
            v@ == s@.subrange(0, i as int),
        decreases n - i,
    {
        v.push(s.get_char(i));
        i += 1;
        proof {
            assert(v@ =~= s@.subrange(0, i as int));
        }
    }
    proof {
        assert(v@ =~= s@);
    }
    v
}

/// Relies on `String::from_iter` over `core::str::Chars`: collecting
/// characters builds the string of exactly those characters in order.
#[verifier::external_body]
pub fn chars_to_string(v: &Vec<char>) -> (r: String)
    ensures
        r@ == v@,
{
    v.iter().collect()
}

/// Whether two string slices hold the same characters.
pub fn str_eq(a: &str, b: &str) -> (r: bool)
    ensures
        r == (a@ == b@),
{
    let na = a.unicode_len();
    let nb = b.unicode_len();
    if na != nb {
        proof {
            assert(a@ != b@);
        }
        return false;
    }
    let mut i: usize = 0;
    while i < na
        invariant
            i <= na,
            na == a@.len(),
            na == b@.len(),
            forall|k: int| 0 <= k < i ==> a@[k] == b@[k],
        decreases na - i,
    {
        if a.get_char(i) != b.get_char(i) {
            proof {
                assert(a@[i as int] != b@[i as int]);
            }
            return false;
        }
        i += 1;
    }
    proof {
        assert(a@ =~= b@);
    }
    true
}

/// The character for one decimal digit.
pub open spec fn digit_char(d: nat) -> char {
    if d == 0 {
        '0'
    } else if d == 1 {
        '1'
    } else if d == 2 {
        '2'
    } else if d == 3 {
        '3'
    } else if d == 4 {
        '4'
    } else if d == 5 {
        '5'
    } else if d == 6 {
        '6'
    } else if d == 7 {
        '7'
    } else if d == 8 {
        '8'
    } else {
        '9'
    }
}

/// The decimal digits of a non-negative number, most significant first.
pub open spec fn dec_digits(n: nat) -> Seq<char>
    decreases n,
{
    if n < 10 {
        seq![digit_char(n)]
    } else {
        dec_digits(n / 10).push(digit_char(n % 10))
    }
}

/// The decimal text of a signed number: a minus sign and then the digits of
/// its absolute value.
pub open spec fn int_text(n: int) -> Seq<char> {
    if n < 0 {
        seq!['-'] + dec_digits((-n) as nat)
    } else {
        dec_digits(n as nat)
    }
}

/// The character for one decimal digit, executably.
fn digit_char_exec(d: u64) -> (c: char)
    requires
        d < 10,
    ensures
        c == digit_char(d as nat),
{
    match d {
        0 => '0',
        1 => '1',
        2 => '2',
        3 => '3',
        4 => '4',
        5 => '5',
        6 => '6',
        7 => '7',
        8 => '8',
        _ => '9',
    }
}

/// Format a cell value in decimal.
pub fn format_i32(n: i32) -> (v: Vec<char>)
    ensures
        v@ == int_text(n as int),
{
    let mut out: Vec<char> = Vec::new();
    let neg = n < 0;
    let wide: i64 = n as i64;
    let mut cur: u64 = if neg {
        (-wide) as u64
    } else {
        wide as u64
    };
    let ghost m0: nat = cur as nat;
    loop
        invariant_except_break
            dec_digits(m0) =~= dec_digits(cur as nat) + out@,
        ensures
            dec_digits(m0) =~= out@,
        decreases cur,
    {
        let ghost out0 = out@;
        let ghost cur0 = cur as nat;
        let d = cur % 10;
        out.insert(0, digit_char_exec(d));
        cur = cur / 10;
        proof {
            assert(out@ =~= seq![digit_char(d as nat)] + out0);
        }
        if cur == 0 {
            proof {
                assert(cur0 < 10);
                assert(dec_digits(cur0) == seq![digit_char(cur0)]);
                assert(d as nat == cur0);
                assert(dec_digits(m0) =~= out@);
            }
            break ;
        }
        proof {
            assert(dec_digits(cur0) == dec_digits(cur0 / 10).push(digit_char(cur0 % 10)));
            assert(dec_digits(cur0) =~= dec_digits(cur as nat) + seq![digit_char(d as nat)]);
            assert(dec_digits(m0) =~= dec_digits(cur as nat) + out@);
        }
    }
    if neg {
        out.insert(0, '-');
        proof {
            assert(out@ =~= int_text(n as int));
        }
    }
    out
}

/// Whether a character is a decimal digit.
pub open spec fn is_digit(c: char) -> bool {
    48 <= c as int && c as int <= 57
}

/// The value of one decimal digit character.
pub open spec fn digit_value(c: char) -> int {
    c as int - 48
}

/// The number the digit characters denote, most significant first.
pub open spec fn digits_value(s: Seq<char>) -> int
    decreases s.len(),
{
    if s.len() == 0 {
        0
    } else {
        digits_value(s.drop_last()) * 10 + digit_value(s.last())
    }
}

/// The digit part of a decimal form: everything after an optional sign.
pub open spec fn text_digits(s: Seq<char>) -> Seq<char> {
    if s.len() > 0 && (s[0] == '-' || s[0] == '+') {
        s.drop_first()
    } else {
        s
    }
}

/// The sign a decimal form denotes.
pub open spec fn text_sign(s: Seq<char>) -> int {
    if s.len() > 0 && s[0] == '-' {
        -1
    } else {
        1
    }
}

/// Whether every character of a sequence is a decimal digit.
pub open spec fn all_digits(s: Seq<char>) -> bool {
    forall|i: int| 0 <= i < s.len() ==> is_digit(s[i])
}

/// Whether a character sequence is a valid decimal form of an `i32`: an
/// optional sign, then one or more digits, denoting a value in range. This
/// is what a standard string-to-integer parse accepts.
pub open spec fn valid_i32_text(s: Seq<char>) -> bool {
    text_digits(s).len() > 0 && all_digits(text_digits(s)) && i32::MIN <= text_sign(s)
        * digits_value(text_digits(s)) <= i32::MAX
}

/// The `i32` a valid decimal form denotes.
pub open spec fn i32_text_value(s: Seq<char>) -> i32 {
    (text_sign(s) * digits_value(text_digits(s))) as i32
}

/// The value of a decimal digit character, or `None` for any other
/// character.
pub fn digit_of(c: char) -> (r: Option<i64>)
    ensures
        r is Some <==> is_digit(c),
        r is Some ==> r->0 == digit_value(c),
{
    match c {
        '0' => Some(0),
        '1' => Some(1),
        '2' => Some(2),
        '3' => Some(3),
        '4' => Some(4),
        '5' => Some(5),
        '6' => Some(6),
        '7' => Some(7),
        '8' => Some(8),
        '9' => Some(9),
        _ => None,
    }
}

/// Parse a decimal `i32` from characters; `None` exactly on text that is
/// not a valid in-range decimal form.
pub fn parse_i32(s: &Vec<char>) -> (r: Option<i32>)
    ensures
        r is Some <==> valid_i32_text(s@),
        r is Some ==> r->0 == i32_text_value(s@),
{
    let n = s.len();
    if n == 0 {
        return None;
    }
    let first = s[0];
    let has_sign = first == '-' || first == '+';
    let negative = first == '-';
    let start: usize = if has_sign {
        1
    } else {
        0
    };
    let ghost digits: Seq<char> = if has_sign {
        s@.drop_first()
    } else {
        s@
    };
    if start == n {
        proof {
            assert(digits.len() == 0);
        }
        return None;
    }
    let mut acc: i64 = 0;
    let mut i: usize = start;
    while i < n
        invariant
            start <= i <= n,
            n == s@.len(),
            n >= 1,
            has_sign == (s@[0] == '-' || s@[0] == '+'),
            negative == (s@[0] == '-'),
            start == if has_sign {
                1int
            } else {
                0int
            },
            digits == text_digits(s@),
            digits.len() == n - start,
            forall|k: int| 0 <= k < digits.len() ==> digits[k] == s@[k + start],
            forall|k: int| 0 <= k < i - start ==> is_digit(digits[k]),
            acc == digits_value(digits.subrange(0, i - start)),
            0 <= acc <= 0x8000_0000i64,
        decreases n - i,
    {
        let c = s[i];
        let d: i64 = match digit_of(c) {
            Some(v) => v,
            None => {
                proof {
                    assert(text_digits(s@) == digits);
                    assert(digits[i - start] == c);
                    assert(!is_digit(digits[i - start]));
                    assert(!all_digits(digits));
                }
                return None;
            },
        };
        proof {
            assert(digits[i - start] == c);
            assert(d == digit_value(c));
        }
        if acc > 214748364i64 || (acc == 214748364i64 && d > 8) {
            proof {
                assert(digits.subrange(0, i + 1 - start).drop_last() =~= digits.subrange(
                    0,
                    i - start,
                ));
                assert(digits.subrange(0, i + 1 - start).last() == c);
                assert(digits_value(digits.subrange(0, i + 1 - start)) == acc * 10 + d);
                assert(text_digits(s@) == digits);
                if all_digits(digits) {
                    lemma_digits_prefix_le(digits, i + 1 - start);
                    assert(digits_value(digits) > 0x8000_0000);
                    assert(text_sign(s@) * digits_value(text_digits(s@)) > i32::MAX
                        || text_sign(s@) * digits_value(text_digits(s@)) < i32::MIN);
                }
                assert(!valid_i32_text(s@));
            }
            return None;
        }
        acc = acc * 10 + d;
        i += 1;
        proof {
            assert(digits.subrange(0, i - start).drop_last() =~= digits.subrange(
                0,
                i - 1 - start,
            ));
            assert(digits.subrange(0, i - start).last() == c);
        }
    }
    proof {
        assert(digits.subrange(0, n - start) =~= digits);
        assert(text_digits(s@) == digits);
        assert(all_digits(digits));
        assert(digits_value(digits) == acc);
    }
    if negative {
        if acc > 0x8000_0000i64 {
            return None;
        }
        proof {
            assert(text_sign(s@) == -1);
            assert(-acc >= i32::MIN);
            assert(valid_i32_text(s@));
        }
        Some((-acc) as i32)
    } else {
        if acc > 0x7FFF_FFFFi64 {
            proof {
                assert(text_sign(s@) == 1);
                assert(!valid_i32_text(s@));
            }
            return None;
        }
        proof {
            assert(text_sign(s@) == 1);
            assert(valid_i32_text(s@));
        }
        Some(acc as i32)
    }
}

/// A text with its line breaks removed: each line feed is dropped, as is
/// a carriage return that immediately precedes one.
pub open spec fn linearized(s: Seq<char>) -> Seq<char>
    decreases s.len(),
{
    if s.len() == 0 {
        Seq::empty()
    } else if s[0] == '\r' && s.len() > 1 && s[1] == '\n' {
        linearized(s.subrange(2, s.len() as int))
    } else if s[0] == '\n' {
        linearized(s.drop_first())
    } else {
        seq![s[0]] + linearized(s.drop_first())
    }
}

/// Whether a character counts as trailing padding: blank space, tab, or a
/// line-break character.
pub open spec fn is_padding(c: char) -> bool {
    c == ' ' || c == '\t' || c == '\r' || c == '\n'
}

/// A text with its trailing padding removed.
pub open spec fn trimmed_end(s: Seq<char>) -> Seq<char>
    decreases s.len(),
{
    if s.len() > 0 && is_padding(s.last()) {
        trimmed_end(s.drop_last())
    } else {
        s
    }
}

/// Remove line breaks from a text.
pub fn linearize(s: &Vec<char>) -> (r: Vec<char>)
    ensures
        r@ == linearized(s@),
{
    let n = s.len();
    let mut out: Vec<char> = Vec::new();
    let mut i: usize = n;
    while i > 0
        invariant
            i <= n,
            n == s@.len(),
            out@ == linearized(s@.subrange(i as int, n as int)),
        decreases i,
    {
        i -= 1;
        let c = s[i];
        let ghost suffix = s@.subrange(i as int, n as int);
        let ghost tail = s@.subrange(i as int + 1, n as int);
        proof {
            assert(suffix[0] == c);
            assert(suffix.drop_first() =~= tail);
            if c == '\r' && i + 1 < n {
                assert(suffix[1] == s@[i as int + 1]);
                assert(suffix.subrange(2, suffix.len() as int) =~= s@.subrange(
                    i as int + 2,
                    n as int,
                ));
                assert(tail[0] == s@[i as int + 1]);
                assert(tail.drop_first() =~= s@.subrange(i as int + 2, n as int));
            }
        }
        if c == '\r' && i + 1 < n && s[i + 1] == '\n' {
        } else if c == '\n' {
        } else {
            out.insert(0, c);
            proof {
                assert(out@ =~= seq![c] + linearized(tail));
            }
        }
    }
    proof {
        assert(s@.subrange(0, n as int) =~= s@);
    }
    out
}

/// Remove trailing padding from a text.
pub fn trim_end(s: Vec<char>) -> (r: Vec<char>)
    ensures
        r@ == trimmed_end(s@),
{
    let mut out = s;
    loop
        invariant
            trimmed_end(out@) == trimmed_end(s@),
        ensures
            out@ == trimmed_end(s@),
        decreases out@.len(),
    {
        let n = out.len();
        if n == 0 {
            return out;
        }
        let c = out[n - 1];
        if c == ' ' || c == '\t' || c == '\r' || c == '\n' {
            let ghost pre = out@;
            out.pop();
            proof {
                assert(out@ =~= pre.drop_last());
            }
        } else {
            return out;
        }
    }
}

/// A prefix of an all-digit string has a non-negative value.
proof fn lemma_digits_nonneg(s: Seq<char>, k: int)
    requires
        0 <= k <= s.len(),
        forall|i: int| 0 <= i < k ==> is_digit(s[i]),
    ensures
        digits_value(s.subrange(0, k)) >= 0,
    decreases k,
{
    if k > 0 {
        lemma_digits_nonneg(s, k - 1);
        assert(s.subrange(0, k).drop_last() =~= s.subrange(0, k - 1));
        assert(s.subrange(0, k).last() == s[k - 1]);
    }
}

/// The value of an all-digit string is at least the value of any prefix.
proof fn lemma_digits_prefix_le(s: Seq<char>, k: int)
    requires
        0 <= k <= s.len(),
        forall|i: int| 0 <= i < s.len() ==> is_digit(s[i]),
    ensures
        digits_value(s) >= digits_value(s.subrange(0, k)),
    decreases s.len() - k,
{
    if k == s.len() {
        assert(s.subrange(0, k) =~= s);
    } else {
        lemma_digits_nonneg(s, k);
        assert(s.subrange(0, k + 1).drop_last() =~= s.subrange(0, k));
        assert(s.subrange(0, k + 1).last() == s[k]);
        lemma_digits_prefix_le(s, k + 1);
    }
}

/// The code point of a character, as a cell value.
pub fn char_code(c: char) -> (v: i32)
    ensures
        v == c as i32,
        v as int == c as int,
        0 <= v <= 0x10FFFF,
{
    let u = c as u32;
    proof {
        assert(c as int <= 0x10FFFF);
    }
    #[verifier::truncate] (u as i32)
}

} // verus!
