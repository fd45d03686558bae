//! Character-level helpers over string slices.

use vstd::prelude::*;

use crate::tokens::ExtractedToken;

verus! {

/// The concatenation of the slices of the tokens in `lo..hi`.
pub open spec fn concat_token_slices(tokens: Seq<ExtractedToken>, lo: int, hi: int) -> Seq<char>
    decreases hi - lo,
{
    if lo >= hi {
        Seq::empty()
    } else {
        concat_token_slices(tokens, lo, hi - 1) + tokens[hi - 1].slice@
    }
}

broadcast use vstd::utf8::is_ascii_chars_encode_utf8, vstd::utf8::is_ascii_chars_nat_bound, vstd::string::is_ascii_spec_bytes;

/// Relies on str's `PartialEq`: two slices are equal exactly when their
/// character sequences are equal.
#[verifier::external_body]
pub fn str_eq(a: &str, b: &str) -> (r: bool)
    ensures
        r == (a@ == b@),
{
    a == b
}

/// An ASCII uppercase letter mapped to lowercase; any other character kept.
pub open spec fn ascii_lower_char(c: char) -> char {
    if 'A' <= c <= 'Z' {
        ((c as u8) + 32) as char
    } else {
        c
    }
}

/// A character sequence with its ASCII uppercase letters lowered.
pub open spec fn ascii_lower_seq(s: Seq<char>) -> Seq<char> {
    s.map(|i: int, c: char| ascii_lower_char(c))
}

/// Relies on str::eq_ignore_ascii_case: an ASCII case-insensitive match,
/// that is, equality after mapping ASCII uppercase letters to lowercase.
#[verifier::external_body]
pub fn str_eq_ignore_ascii_case(a: &str, b: &str) -> (r: bool)
    ensures
        r == (ascii_lower_seq(a@) == ascii_lower_seq(b@)),
{
    a.eq_ignore_ascii_case(b)
}

/// Whitespace characters recognized by this engine.
pub open spec fn is_ws_char(c: char) -> bool {
    c == ' ' || c == '\t' || c == '\n' || c == '\r'
}

/// Whether every character of the sequence is whitespace.
pub open spec fn all_whitespace(s: Seq<char>) -> bool {
    forall|i: int| 0 <= i < s.len() ==> is_ws_char(#[trigger] s[i])
}

/// Compute whether every character of the slice is whitespace.
pub fn str_all_whitespace(s: &str) -> (r: bool)
    ensures
        r == all_whitespace(s@),
{
    if !s.is_ascii() {
        proof {
            let chars = s@;
            assert(!vstd::utf8::is_ascii_chars(chars));
            let i = choose|i: int| !(0 <= i < chars.len() ==> '\0' <= #[trigger] chars[i] <= '\u{7f}');
            assert(!is_ws_char(chars[i]));
        }
        return false;
    }
    let bytes = s.as_bytes();
    let mut i: usize = 0;
    while i < bytes.len()
        invariant
            vstd::utf8::is_ascii_chars(s@),
            bytes@ == vstd::utf8::encode_utf8(s@),
            bytes@.len() == s@.len(),
            forall|k: int| 0 <= k < s@.len() ==> s@[k] as u8 == bytes@[k],
            0 <= i <= bytes@.len(),
            forall|j: int| 0 <= j < i ==> is_ws_char(#[trigger] s@[j]),
        decreases bytes@.len() - i,
    {
        let b = bytes[i];
        if !(b == 32 || b == 9 || b == 10 || b == 13) {
            proof {
                assert(s@[i as int] as u8 == bytes@[i as int]);
                assert(!is_ws_char(s@[i as int]));
            }
            return false;
        }
        proof {
            assert(s@[i as int] as u8 == bytes@[i as int]);
            assert('\0' <= s@[i as int] <= '\u{7f}');
            assert(is_ws_char(s@[i as int]));
        }
        i = i + 1;
    }
    true
}

/// Decimal digit characters.
pub open spec fn is_digit_char(c: char) -> bool {
    '0' <= c <= '9'
}

/// Whether every character of the sequence is a decimal digit.
pub open spec fn all_digits(s: Seq<char>) -> bool {
    forall|i: int| 0 <= i < s.len() ==> is_digit_char(#[trigger] s[i])
}

/// The value of a decimal digit sequence.
pub open spec fn dec_value(s: Seq<char>) -> int
    decreases s,
{
    if s.len() == 0 {
        0
    } else {
        dec_value(s.drop_last()) * 10 + (s.last() as int - 48)
    }
}

proof fn lemma_dec_value_grows(t: Seq<char>, k: int)
    requires
        all_digits(t),
        0 <= k <= t.len(),
    ensures
        dec_value(t.subrange(0, k)) >= 0,
        dec_value(t) >= dec_value(t.subrange(0, k)),
    decreases t.len() - k,
{
    if k == t.len() {
        assert(t.subrange(0, k) =~= t);
        lemma_dec_value_nonneg(t);
    } else {
        lemma_dec_value_grows(t, k + 1);
        lemma_dec_value_nonneg(t.subrange(0, k));
        assert(t.subrange(0, k + 1).drop_last() =~= t.subrange(0, k));
        assert(t.subrange(0, k + 1).last() == t[k]);
        assert(dec_value(t.subrange(0, k + 1)) == dec_value(t.subrange(0, k)) * 10 + (
        t[k] as int - 48));
    }
}

proof fn lemma_dec_value_nonneg(t: Seq<char>)
    requires
        all_digits(t),
    ensures
        dec_value(t) >= 0,
    decreases t,
{
    if t.len() > 0 {
        assert(all_digits(t.drop_last()));
        lemma_dec_value_nonneg(t.drop_last());
    }
}

/// The decimal digit character for a value below ten.
pub open spec fn digit_char(d: int) -> char {
    if d == 0 {
        '0'
    } else if d == 1 {
        '1'
    } else if d == 2 {
        '2'
    } else if d == 3 {
        '3'
    } else if d == 4 {
        '4'
    } else if d == 5 {
        '5'
    } else if d == 6 {
        '6'
    } else if d == 7 {
        '7'
    } else if d == 8 {
        '8'
    } else {
        '9'
    }
}

/// The decimal rendering of a number, most significant digit first.
pub open spec fn dec_seq(n: int) -> Seq<char>
    decreases n,
{
    if n < 10 {
        seq![digit_char(n)]
    } else {
        dec_seq(n / 10).push(digit_char(n % 10))
    }
}

/// Render a number in decimal.
pub fn u64_to_dec(n: u64) -> (r: String)
    ensures
        r@ == dec_seq(n as int),
    decreases n,
{
    let digit = n % 10;
    let digit_str = match digit {
        0 => "0",
        1 => "1",
        2 => "2",
        3 => "3",
        4 => "4",
        5 => "5",
        6 => "6",
        7 => "7",
        8 => "8",
        _ => "9",
    };
    proof {
        reveal_strlit("0");
        reveal_strlit("1");
        reveal_strlit("2");
        reveal_strlit("3");
        reveal_strlit("4");
        reveal_strlit("5");
        reveal_strlit("6");
        reveal_strlit("7");
        reveal_strlit("8");
        reveal_strlit("9");
        assert(digit_str@ =~= seq![digit_char(digit as int)]);
    }
    if n < 10 {
        let mut out = String::new();
        out.append(digit_str);
        proof {
            assert(out@ =~= dec_seq(n as int));
        }
        out
    } else {
        let mut out = u64_to_dec(n / 10);
        out.append(digit_str);
        proof {
            assert(out@ =~= dec_seq(n as int));
        }
        out
    }
}

/// The white-space characters `str::trim` removes: Unicode White_Space.
pub open spec fn is_unicode_ws_char(c: char) -> bool {
    ||| c == '\u{9}'
    ||| c == '\u{a}'
    ||| c == '\u{b}'
    ||| c == '\u{c}'
    ||| c == '\u{d}'
    ||| c == ' '
    ||| c == '\u{85}'
    ||| c == '\u{a0}'
    ||| c == '\u{1680}'
    ||| c == '\u{2000}'
    ||| c == '\u{2001}'
    ||| c == '\u{2002}'
    ||| c == '\u{2003}'
    ||| c == '\u{2004}'
    ||| c == '\u{2005}'
    ||| c == '\u{2006}'
    ||| c == '\u{2007}'
    ||| c == '\u{2008}'
    ||| c == '\u{2009}'
    ||| c == '\u{200a}'
    ||| c == '\u{2028}'
    ||| c == '\u{2029}'
    ||| c == '\u{202f}'
    ||| c == '\u{205f}'
    ||| c == '\u{3000}'
}

/// The sequence with leading Unicode white-space dropped.
pub open spec fn utrim_front(s: Seq<char>) -> Seq<char>
    decreases s,
{
    if s.len() > 0 && is_unicode_ws_char(s[0]) {
        utrim_front(s.drop_first())
    } else {
        s
    }
}

/// The sequence with trailing Unicode white-space dropped.
pub open spec fn utrim_back(s: Seq<char>) -> Seq<char>
    decreases s,
{
    if s.len() > 0 && is_unicode_ws_char(s.last()) {
        utrim_back(s.drop_last())
    } else {
        s
    }
}

/// The sequence with surrounding Unicode white-space dropped, as
/// `str::trim` leaves it.
pub open spec fn utrim_ws(s: Seq<char>) -> Seq<char> {
    utrim_back(utrim_front(s))
}

/// The digit run a line-count argument denotes: the trimmed text, less one
/// optional leading plus sign, as the standard unsigned parse accepts it.
pub open spec fn count_arg_digits(s: Seq<char>) -> Seq<char> {
    let t = utrim_ws(s);
    if t.len() > 0 && t[0] == '+' {
        t.drop_first()
    } else {
        t
    }
}

/// Parse a trimmed decimal count between 1 and 100, allowing one leading
/// plus sign.
///
/// Returns the value exactly when the argument's digit run is a non-empty
/// run of decimal digits whose value lies in `1..=100`.
#[verifier::loop_isolation(false)]
pub fn parse_line_count(s: &str) -> (r: Option<u32>)
    ensures
        ({
            let d = count_arg_digits(s@);
            match r {
                Some(v) => d.len() > 0 && all_digits(d) && 1 <= dec_value(d) <= 100 && v as int
                    == dec_value(d),
                None => !(d.len() > 0 && all_digits(d) && 1 <= dec_value(d) <= 100),
            }
        }),
{
    let trimmed = crate::outside::trim_str(s);
    let digits: &str = match crate::outside::strip_prefix_str(trimmed, "+") {
        Some(rest) => {
            proof {
                reveal_strlit("+");
                assert(trimmed@[0] == '+');
                assert(rest@ =~= trimmed@.drop_first());
            }
            rest
        },
        None => {
            proof {
                reveal_strlit("+");
                if trimmed@.len() > 0 && trimmed@[0] == '+' {
                    assert("+"@.is_prefix_of(trimmed@)) by {
                        assert("+"@ =~= trimmed@.subrange(0, 1));
                    };
                }
            }
            trimmed
        },
    };
    proof {
        assert(digits@ == count_arg_digits(s@));
    }

    if !digits.is_ascii() {
        proof {
            let chars = digits@;
            assert(!vstd::utf8::is_ascii_chars(chars));
            let i = choose|i: int|
                !(0 <= i < chars.len() ==> '\0' <= #[trigger] chars[i] <= '\u{7f}');
            assert(!is_digit_char(chars[i]));
        }
        return None;
    }
    let bytes = digits.as_bytes();
    let n = bytes.len();
    proof {
        assert(bytes@.len() == digits@.len());
    }
    if n == 0 {
        return None;
    }

    // Accumulate the digits, refusing anything else and values over 100.
    let mut value: u32 = 0;
    let mut i: usize = 0;
    while i < n
        invariant
            0 <= i <= n,
            value as int == dec_value(digits@.subrange(0, i as int)),
            value <= 1009,
            forall|j: int| 0 <= j < i ==> is_digit_char(#[trigger] digits@[j]),
        decreases n - i,
    {
        let b = bytes[i];
        proof {
            assert(digits@[i as int] as u8 == bytes@[i as int]);
        }
        if !(48 <= b && b <= 57) {
            proof {
                assert(!is_digit_char(digits@[i as int]));
            }
            return None;
        }
        if value > 100 {
            proof {
                if all_digits(digits@) {
                    lemma_dec_value_grows(digits@, i as int);
                }
            }
            return None;
        }
        proof {
            assert(digits@.subrange(0, i as int + 1).drop_last() =~= digits@.subrange(
                0,
                i as int,
            ));
            assert(digits@.subrange(0, i as int + 1).last() == digits@[i as int]);
        }
        value = value * 10 + ((b - 48) as u32);
        i = i + 1;
    }
    proof {
        assert(digits@.subrange(0, n as int) =~= digits@);
    }
    if value == 0 || value > 100 {
        return None;
    }
    Some(value)
}

} // verus!
