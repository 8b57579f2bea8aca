//! Numeric literals with an optional ten-thousand suffix.

use vstd::prelude::*;
use vstd::string::*;

verus! {

/// The suffix that multiplies a literal by ten thousand.
pub open spec fn is_scale_suffix(c: char) -> bool {
    c == '\u{4e07}'
}

pub open spec fn is_digit(c: char) -> bool {
    '0' <= c && c <= '9'
}

pub open spec fn is_sign(c: char) -> bool {
    c == '+' || c == '-'
}

/// The literal ends in the scale suffix.
pub open spec fn has_scale_suffix(s: Seq<char>) -> bool {
    s.len() > 0 && is_scale_suffix(s.last())
}

/// The literal without its scale suffix.
pub open spec fn mantissa_of(s: Seq<char>) -> Seq<char> {
    if has_scale_suffix(s) {
        s.drop_last()
    } else {
        s
    }
}

/// The literal without a leading sign.
pub open spec fn unsigned_part(s: Seq<char>) -> Seq<char> {
    if s.len() > 0 && is_sign(s[0]) {
        s.subrange(1, s.len() as int)
    } else {
        s
    }
}

/// Digits with at most one decimal point among them, and at least one digit.
pub open spec fn is_unsigned_decimal(s: Seq<char>) -> bool {
    &&& forall|i: int| 0 <= i < s.len() ==> is_digit(#[trigger] s[i]) || s[i] == '.'
    &&& forall|i: int, j: int|
        0 <= i < s.len() && 0 <= j < s.len() && #[trigger] s[i] == '.' && #[trigger] s[j] == '.'
            ==> i == j
    &&& exists|i: int| 0 <= i < s.len() && is_digit(#[trigger] s[i])
}

/// A decimal number: an optional sign, then an unsigned decimal.
pub open spec fn is_decimal(s: Seq<char>) -> bool {
    is_unsigned_decimal(unsigned_part(s))
}

/// A decimal literal and whether it is to be multiplied by ten thousand.
/// Its numeric value is the value of `mantissa`, times 10000 when `scaled`.
#[derive(Debug, Clone)]
pub struct NormalizedNumber {
    pub mantissa: String,
    pub scaled: bool,
}

/// The mathematical value of a `NormalizedNumber`.
pub ghost struct NumberView {
    pub mantissa: Seq<char>,
    pub scaled: bool,
}

impl View for NormalizedNumber {
    type V = NumberView;

    open spec fn view(&self) -> NumberView {
        NumberView { mantissa: self.mantissa@, scaled: self.scaled }
    }
}

impl NormalizedNumber {
    /// The mantissa is a decimal number.
    pub open spec fn wf(&self) -> bool {
        is_decimal(self.mantissa@)
    }
}

/// The literal is no decimal number once its scale suffix is taken off.
#[derive(Debug, PartialEq, Eq, Clone, Copy)]
pub struct ParseError {}

/// What `normalize_number` owes for a literal.
pub open spec fn normalized(literal: Seq<char>) -> Result<NumberView, ParseError> {
    if is_decimal(mantissa_of(literal)) {
        Ok(NumberView { mantissa: mantissa_of(literal), scaled: has_scale_suffix(literal) })
    } else {
        Err(ParseError {  })
    }
}

/// The mathematical value of a normalisation result.
pub open spec fn number_result_view(r: Result<NormalizedNumber, ParseError>) -> Result<
    NumberView,
    ParseError,
> {
    match r {
        Ok(n) => Ok(n@),
        Err(e) => Err(e),
    }
}

/// The rate without a percent sign at its end.
pub open spec fn rate_digits(s: Seq<char>) -> Seq<char> {
    if s.len() > 0 && s.last() == '%' {
        s.drop_last()
    } else {
        s
    }
}

/// The only point of `s` stands at `p`, and it is neither the first nor the
/// last character.
pub open spec fn is_fraction_at(s: Seq<char>, p: int) -> bool {
    &&& 0 < p < s.len() - 1
    &&& s[p] == '.'
    &&& forall|i: int| 0 <= i < s.len() && i != p ==> #[trigger] s[i] != '.'
}

/// The shape of a number written with a fractional part: exactly one
/// decimal point, with something before it and something after it. Which
/// characters count as digits is left to the pattern that captured the text.
pub open spec fn is_fraction(s: Seq<char>) -> bool {
    exists|p: int| is_fraction_at(s, p)
}

/// A rate: the shape of a number with a fractional part, which one percent
/// sign may follow. The sign is part of the rate where the text has it.
pub open spec fn is_rate(s: Seq<char>) -> bool {
    is_fraction(rate_digits(s))
}

/// Whether `s` is a rate.
pub fn check_rate(s: &str) -> (r: bool)
    ensures
        r == is_rate(s@),
{
    let n = s.unicode_len();
    let end: usize = if n > 0 && s.get_char(n - 1) == '%' {
        n - 1
    } else {
        n
    };
    let ghost body = rate_digits(s@);
    proof {
        assert(s@.subrange(0, n as int) == s@);
    }
    let mut seen = false;
    let mut point: usize = 0;
    let mut i: usize = 0;
    while i < end
        invariant
            n == s@.len(),
            i <= end <= n,
            body == rate_digits(s@),
            body == s@.subrange(0, end as int),
            seen ==> point < i && body[point as int] == '.' && forall|k: int|
                0 <= k < i && k != point ==> #[trigger] body[k] != '.',
            !seen ==> forall|k: int| 0 <= k < i ==> #[trigger] body[k] != '.',
        decreases end - i,
    {
        let c = s.get_char(i);
        assert(body[i as int] == c);
        if c == '.' {
            if seen {
                proof {
                    assert forall|p: int| !is_fraction_at(body, p) by {
                        if is_fraction_at(body, p) {
                            if p == point {
                                assert(body[i as int] != '.');
                            } else {
                                assert(body[point as int] != '.');
                            }
                        }
                    }
                }
                return false;
            }
            seen = true;
            point = i;
        }
        i += 1;
    }
    if seen && 0 < point && point + 1 < end {
        proof {
            assert(is_fraction_at(body, point as int));
        }
        true
    } else {
        proof {
            assert forall|p: int| !is_fraction_at(body, p) by {
                if is_fraction_at(body, p) {
                    if seen {
                        if p != point {
                            assert(body[point as int] != '.');
                        }
                    } else {
                        assert(body[p] != '.');
                    }
                }
            }
        }
        false
    }
}

/// Whether `s` is a decimal number.
pub fn check_decimal(s: &str) -> (r: bool)
    ensures
        r == is_decimal(s@),
{
    let n = s.unicode_len();
    let mut start: usize = 0;
    if n > 0 {
        let c = s.get_char(0);
        if c == '+' || c == '-' {
            start = 1;
        }
    }
    let ghost body = unsigned_part(s@);
    let mut digits: usize = 0;
    let mut points: usize = 0;
    let ghost mut digit_at: int = 0;
    let ghost mut point_at: int = 0;
    let mut i: usize = start;
    proof {
        assert(s@.subrange(0, n as int) == s@);
    }
    while i < n
        invariant
            n == s@.len(),
            start <= i <= n,
            body == unsigned_part(s@),
            body == s@.subrange(start as int, n as int),
            digits <= i - start,
            points <= 1,
            forall|k: int| 0 <= k < i - start ==> is_digit(#[trigger] body[k]) || body[k] == '.',
            digits > 0 ==> 0 <= digit_at < i - start && is_digit(body[digit_at]),
            digits == 0 ==> forall|k: int| 0 <= k < i - start ==> !is_digit(#[trigger] body[k]),
            points == 1 ==> 0 <= point_at < i - start && body[point_at] == '.',
            points == 0 ==> forall|k: int| 0 <= k < i - start ==> #[trigger] body[k] != '.',
            points == 1 ==> forall|k: int|
                0 <= k < i - start && #[trigger] body[k] == '.' ==> k == point_at,
        decreases n - i,
    {
        let c = s.get_char(i);
        assert(body[i - start] == c);
        if '0' <= c && c <= '9' {
            digits += 1;
            proof {
                digit_at = i - start;
            }
        } else if c == '.' {
            if points == 1 {
                return false;
            }
            points = 1;
            proof {
                point_at = i - start;
            }
        } else {
            return false;
        }
        i += 1;
    }
    digits > 0
}

/// Splits a literal into its decimal mantissa and its scale.
pub fn normalize_number(literal: &str) -> (r: Result<NormalizedNumber, ParseError>)
    ensures
        number_result_view(r) == normalized(literal@),
        r is Ok ==> r->Ok_0.wf(),
{
    let n = literal.unicode_len();
    let scaled = n > 0 && literal.get_char(n - 1) == '\u{4e07}';
    let mantissa = if scaled {
        literal.substring_char(0, n - 1)
    } else {
        literal
    };
    if check_decimal(mantissa) {
        Ok(NormalizedNumber { mantissa: String::from_str(mantissa), scaled })
    } else {
        Err(ParseError {  })
    }
}

} // verus!
