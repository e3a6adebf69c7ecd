//! Validated parsing of already-trimmed text into a non-negative index:
//! standard base-10 form (an optional leading plus sign, then decimal
//! digits), rejected on any other character or when the value overflows;
//! an optional inclusive range check follows a successful parse.
use vstd::prelude::*;

use crate::in_range;

verus! {

/// A decimal digit.
pub open spec fn is_digit(c: char) -> bool {
    48 <= c as u32 <= 57
}

/// The numeric value of a decimal digit.
pub open spec fn digit_val(c: char) -> int {
    c as u32 - 48
}

/// Every character is a decimal digit.
pub open spec fn all_digits(s: Seq<char>) -> bool {
    forall|k: int| 0 <= k < s.len() ==> is_digit(s[k])
}

/// The value of a digit string read in base 10.
pub open spec fn dec_value(s: Seq<char>) -> int
    decreases s.len(),
{
    if s.len() == 0 {
        0
    } else {
        dec_value(s.drop_last()) * 10 + digit_val(s.last())
    }
}

/// The digit part of an index literal: everything after an optional leading
/// plus sign.
pub open spec fn digits_of_index(s: Seq<char>) -> Seq<char> {
    if s.len() > 0 && s[0] == '+' {
        s.drop_first()
    } else {
        s
    }
}

/// The shape of an index literal: an optional leading plus sign, then at
/// least one decimal digit and nothing else.
pub open spec fn is_index_literal(s: Seq<char>) -> bool {
    digits_of_index(s).len() > 0 && all_digits(digits_of_index(s))
}

/// What trimmed text parses to as an index: its base-10 value when it is an
/// index literal whose value fits the machine, nothing otherwise.
pub open spec fn spec_parse_index(s: Seq<char>) -> Option<int> {
    if is_index_literal(s) && dec_value(digits_of_index(s)) <= usize::MAX {
        Some(dec_value(digits_of_index(s)))
    } else {
        None
    }
}

proof fn lemma_dec_value_nonneg(s: Seq<char>)
    requires
        all_digits(s),
    ensures
        dec_value(s) >= 0,
    decreases s.len(),
{
    if s.len() > 0 {
        lemma_dec_value_nonneg(s.drop_last());
    }
}

proof fn lemma_dec_value_prefix(s: Seq<char>, i: int)
    requires
        all_digits(s),
        0 <= i <= s.len(),
    ensures
        dec_value(s.subrange(0, i)) <= dec_value(s),
    decreases s.len() - i,
{
    if i < s.len() {
        lemma_dec_value_prefix(s, i + 1);
        let p = s.subrange(0, i + 1);
        assert(p.drop_last() =~= s.subrange(0, i));
        assert(all_digits(s.subrange(0, i)));
        lemma_dec_value_nonneg(s.subrange(0, i));
        assert(dec_value(s.subrange(0, i)) <= dec_value(p));
    } else {
        assert(s.subrange(0, i) =~= s);
    }
}

/// Parses trimmed text as a non-negative index in base 10. The text must be
/// an optional plus sign followed by one or more digits; the value must fit
/// the machine word; anything else parses to nothing.
pub fn parse_index(s: &str) -> (r: Option<usize>)
    ensures
        match r {
            Some(v) => spec_parse_index(s@) == Some(v as int),
            None => spec_parse_index(s@) is None,
        },
{
    let n = s.unicode_len();
    let start: usize = if n > 0 && s.get_char(0) == '+' {
        1
    } else {
        0
    };
    proof {
        assert(digits_of_index(s@) =~= s@.subrange(start as int, n as int));
    }
    if start == n {
        return None;
    }
    let ghost digits = s@.subrange(start as int, n as int);
    let mut acc: usize = 0;
    let mut i: usize = start;
    while i < n
        invariant
            start <= i <= n,
            n == s@.len(),
            digits == s@.subrange(start as int, n as int),
            digits == digits_of_index(s@),
            forall|k: int| start <= k < i ==> is_digit(s@[k]),
            acc as int == dec_value(s@.subrange(start as int, i as int)),
        decreases n - i,
    {
        let c = s.get_char(i);
        let cv = c as u32;
        if cv < 48 || cv > 57 {
            proof {
                assert(!is_digit(digits[i - start]));
            }
            return None;
        }
        let d = (cv - 48) as usize;
        let ghost prefix = s@.subrange(start as int, i as int);
        let ghost prefix1 = s@.subrange(start as int, i + 1);
        proof {
            assert(prefix1.drop_last() =~= prefix);
            assert(prefix1.last() == s@[i as int]);
            assert(dec_value(prefix1) == dec_value(prefix) * 10 + d);
        }
        if acc > (usize::MAX - d) / 10 {
            proof {
                let m = (usize::MAX - d) as int;
                assert(m == 10 * (m / 10) + (m % 10) && 0 <= m % 10 < 10) by (nonlinear_arith)
                    requires m >= 0;
                assert(acc as int * 10 >= (m / 10 + 1) * 10) by (nonlinear_arith)
                    requires acc as int >= m / 10 + 1;
                assert(dec_value(prefix1) > usize::MAX);
                if all_digits(digits) {
                    lemma_dec_value_prefix(digits, i + 1 - start);
                    assert(digits.subrange(0, i + 1 - start) =~= prefix1);
                    assert(dec_value(digits) > usize::MAX);
                }
            }
            return None;
        }
        proof {
            let m = (usize::MAX - d) as int;
            assert(m == 10 * (m / 10) + (m % 10) && 0 <= m % 10 < 10) by (nonlinear_arith)
                requires m >= 0;
            assert(acc as int * 10 <= (m / 10) * 10) by (nonlinear_arith)
                requires acc as int <= m / 10;
        }
        acc = acc * 10 + d;
        i = i + 1;
    }
    proof {
        assert(s@.subrange(start as int, i as int) =~= digits);
    }
    Some(acc)
}

/// The character of a decimal digit value.
pub open spec fn digit_char(d: int) -> char {
    if d == 0 {
        '0'
    } else if d == 1 {
        '1'
    } else if d == 2 {
        '2'
    } else if d == 3 {
        '3'
    } else if d == 4 {
        '4'
    } else if d == 5 {
        '5'
    } else if d == 6 {
        '6'
    } else if d == 7 {
        '7'
    } else if d == 8 {
        '8'
    } else {
        '9'
    }
}

/// The base-10 rendering of a non-negative number: no sign, no leading zero
/// except on zero itself.
pub open spec fn dec_digits(n: int) -> Seq<char>
    decreases n,
{
    if 0 <= n < 10 {
        seq![digit_char(n)]
    } else if n >= 10 {
        dec_digits(n / 10) + seq![digit_char(n % 10)]
    } else {
        Seq::empty()
    }
}

fn digit_str(d: usize) -> (r: &'static str)
    requires
        d < 10,
    ensures
        r@ == seq![digit_char(d as int)],
{
    proof {
        reveal_strlit("0");
        reveal_strlit("1");
        reveal_strlit("2");
        reveal_strlit("3");
        reveal_strlit("4");
        reveal_strlit("5");
        reveal_strlit("6");
        reveal_strlit("7");
        reveal_strlit("8");
        reveal_strlit("9");
    }
    match d {
        0 => "0",
        1 => "1",
        2 => "2",
        3 => "3",
        4 => "4",
        5 => "5",
        6 => "6",
        7 => "7",
        8 => "8",
        _ => "9",
    }
}

fn push_decimal(n: usize, r: &mut String)
    ensures
        final (r)@ == old(r)@ + dec_digits(n as int),
    decreases n,
{
    if n >= 10 {
        push_decimal(n / 10, r);
    }
    r.append(digit_str(n % 10));
    proof {
        if n >= 10 {
            assert(r@ =~= old(r)@ + (dec_digits(n as int / 10) + seq![
                digit_char(n as int % 10),
            ]));
        } else {
            assert(r@ =~= old(r)@ + seq![digit_char(n as int)]);
        }
    }
}

/// Renders an index in base 10, the way the number pre-fills a prompt.
pub fn index_to_decimal(n: usize) -> (r: String)
    ensures
        r@ == dec_digits(n as int),
{
    let mut r = String::new();
    push_decimal(n, &mut r);
    proof {
        assert(r@ =~= dec_digits(n as int));
    }
    r
}

proof fn lemma_digit_char_val(d: int)
    requires
        0 <= d < 10,
    ensures
        is_digit(digit_char(d)),
        digit_val(digit_char(d)) == d,
        digit_char(d) != '+',
{
    assert('0' as u32 == 48);
    assert('1' as u32 == 49);
    assert('2' as u32 == 50);
    assert('3' as u32 == 51);
    assert('4' as u32 == 52);
    assert('5' as u32 == 53);
    assert('6' as u32 == 54);
    assert('7' as u32 == 55);
    assert('8' as u32 == 56);
    assert('9' as u32 == 57);
}

/// Rendering a number and parsing the text back round-trips: the rendering
/// is an index literal, and it parses to the same number.
pub proof fn lemma_decimal_round_trip(n: int)
    requires
        0 <= n <= usize::MAX,
    ensures
        dec_digits(n).len() > 0,
        dec_digits(n)[0] != '+',
        is_index_literal(dec_digits(n)),
        spec_parse_index(dec_digits(n)) == Some(n),
    decreases n,
{
    let s = dec_digits(n);
    if n < 10 {
        lemma_digit_char_val(n);
        assert(s =~= seq![digit_char(n)]);
        assert(s.drop_last() =~= Seq::<char>::empty());
        assert(digits_of_index(s) == s);
        assert(dec_value(Seq::<char>::empty()) == 0);
        assert(dec_value(s) == dec_value(s.drop_last()) * 10 + digit_val(s.last()));
        assert(dec_value(s) == n);
    } else {
        lemma_decimal_round_trip(n / 10);
        lemma_digit_char_val(n % 10);
        let p = dec_digits(n / 10);
        assert(s == p + seq![digit_char(n % 10)]);
        assert(s.drop_last() =~= p);
        assert(s.last() == digit_char(n % 10));
        assert(s[0] == p[0]);
        assert(digits_of_index(p) == p);
        assert(digits_of_index(s) == s);
        assert(dec_value(s) == dec_value(p) * 10 + (n % 10));
        assert(dec_value(s) == n);
    }
}

/// Parses trimmed text as an index and additionally requires the value to
/// lie within the inclusive bounds; a parse failure and a bound violation
/// both yield nothing, and a violating value is discarded, not clamped.
pub fn parse_index_range(s: &str, low: usize, high: usize) -> (r: Option<usize>)
    ensures
        match r {
            Some(v) => spec_parse_index(s@) == Some(v as int) && in_range(
                v as int,
                low as int,
                high as int,
            ),
            None => match spec_parse_index(s@) {
                Some(v) => !in_range(v, low as int, high as int),
                None => true,
            },
        },
{
    match parse_index(s) {
        Some(v) => {
            if crate::check_range(v, low, high) {
                Some(v)
            } else {
                None
            }
        },
        None => None,
    }
}

} // verus!
