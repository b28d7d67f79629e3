use vstd::prelude::*;

verus! {

/// Largest value a [`Number`] can hold; the smallest is its negation.
pub const NUMBER_MAX: i16 = 999;

/// Saturates `n` into the range of a [`Number`].
pub open spec fn clamp(n: int) -> int {
    if n < -999 {
        -999
    } else if n > 999 {
        999
    } else {
        n
    }
}

pub open spec fn is_digit(c: char) -> bool {
    '0' <= c && c <= '9'
}

pub open spec fn digit_value(c: char) -> int {
    c as int - '0' as int
}

pub open spec fn digit_char(d: nat) -> char
    recommends
        d < 10,
{
    ((d + '0' as nat) as u8) as char
}

/// The mathematical value of a string of decimal digits (most significant first).
pub open spec fn digits_value(s: Seq<char>) -> int
    decreases s.len(),
{
    if s.len() == 0 {
        0
    } else {
        digits_value(s.drop_last()) * 10 + digit_value(s.last())
    }
}

/// Index of the first character of `s` that is not a decimal digit, or `s.len()`.
pub open spec fn first_non_digit(s: Seq<char>) -> int
    decreases s.len(),
{
    if s.len() == 0 {
        0
    } else if !is_digit(s[0]) {
        0
    } else {
        1 + first_non_digit(s.drop_first())
    }
}

pub open spec fn is_negative_text(s: Seq<char>) -> bool {
    s.len() > 0 && s[0] == '-'
}

/// The digits of `s`, that is `s` without its optional leading minus sign.
pub open spec fn unsigned_part(s: Seq<char>) -> Seq<char> {
    if is_negative_text(s) {
        s.drop_first()
    } else {
        s
    }
}

/// Why a text is not a number.
#[derive(Clone, Copy, Debug, PartialEq, Eq, Structural)]
pub enum ParseNumberError {
    /// The text is empty.
    Empty,
    /// The text is a lone minus sign.
    NoDigits,
    /// The text holds a character that is not a decimal digit.
    InvalidDigit(char),
}

/// What parsing `s` gives: an optional `-` followed by one or more decimal digits,
/// saturated into the range of a [`Number`].
pub open spec fn parse_outcome(s: Seq<char>) -> Result<int, ParseNumberError> {
    let d = unsigned_part(s);
    if s.len() == 0 {
        Err(ParseNumberError::Empty)
    } else if d.len() == 0 {
        Err(ParseNumberError::NoDigits)
    } else if first_non_digit(d) < d.len() {
        Err(ParseNumberError::InvalidDigit(d[first_non_digit(d)]))
    } else if is_negative_text(s) {
        Ok(clamp(-digits_value(d)))
    } else {
        Ok(clamp(digits_value(d)))
    }
}

/// Decimal digits of a natural number, most significant first, without leading zeros.
pub open spec fn decimal_digits(n: nat) -> Seq<char>
    decreases n,
{
    if n < 10 {
        seq![digit_char(n)]
    } else {
        decimal_digits(n / 10).push(digit_char(n % 10))
    }
}

/// Decimal form of an integer, with a leading `-` when it is negative.
pub open spec fn decimal(n: int) -> Seq<char> {
    if n < 0 {
        seq!['-'] + decimal_digits((-n) as nat)
    } else {
        decimal_digits(n as nat)
    }
}

/// A signed integer saturated to the range `-999..=999`.
#[derive(Clone, Copy, Debug, PartialEq, Eq, Structural, PartialOrd, Ord, Hash)]
pub struct Number(i16);

impl View for Number {
    type V = int;

    closed spec fn view(&self) -> int {
        self.0 as int
    }
}

impl Number {
    /// The number closest to `n`, as a specification value.
    pub closed spec fn spec_from(n: int) -> Number {
        Number(clamp(n) as i16)
    }

    #[verifier::type_invariant]
    closed spec fn in_range(self) -> bool {
        -999 <= self.0 && self.0 <= 999
    }

    /// Zero.
    pub fn new() -> (r: Number)
        ensures
            r@ == 0,
    {
        Number(0)
    }

    pub fn value(&self) -> (r: i16)
        ensures
            r as int == self@,
            -999 <= r <= 999,
    {
        proof {
            use_type_invariant(self);
        }
        self.0
    }

    /// Stores `value`, saturated into range.
    pub fn set_value(&mut self, value: i16)
        ensures
            final(self)@ == clamp(value as int),
    {
        *self = Number::from_i64(value as i64);
    }

    /// The number closest to `n`.
    pub fn from_i64(n: i64) -> (r: Number)
        ensures
            r@ == clamp(n as int),
    {
        if n < -999 {
            Number(-999)
        } else if n > 999 {
            Number(999)
        } else {
            Number(n as i16)
        }
    }

    /// The number closest to `n`.
    pub fn from_i32(n: i32) -> (r: Number)
        ensures
            r@ == clamp(n as int),
    {
        Number::from_i64(n as i64)
    }

    /// The number closest to `n`.
    pub fn from_i16(n: i16) -> (r: Number)
        ensures
            r@ == clamp(n as int),
    {
        Number::from_i64(n as i64)
    }

    /// A byte as a number; every byte is in range.
    pub fn from_u8(n: u8) -> (r: Number)
        ensures
            r@ == n as int,
    {
        Number(n as i16)
    }

    /// Saturating sum.
    pub fn add(self, rhs: Number) -> (r: Number)
        ensures
            r@ == clamp(self@ + rhs@),
    {
        Number::from_i16(self.value() + rhs.value())
    }

    /// Saturating difference.
    pub fn sub(self, rhs: Number) -> (r: Number)
        ensures
            r@ == clamp(self@ - rhs@),
    {
        Number::from_i16(self.value() - rhs.value())
    }

    /// Negation; always in range.
    pub fn neg(self) -> (r: Number)
        ensures
            r@ == -self@,
            r == Number::spec_from(-self@),
    {
        proof {
            use_type_invariant(self);
        }
        Number(-self.0)
    }

    pub fn add_assign(&mut self, rhs: Number)
        ensures
            final(self)@ == clamp(old(self)@ + rhs@),
            *final(self) == Number::spec_from(old(self)@ + rhs@),
    {
        let v = self.value() + rhs.value();
        self.set_value(v);
    }

    pub fn sub_assign(&mut self, rhs: Number)
        ensures
            final(self)@ == clamp(old(self)@ - rhs@),
            *final(self) == Number::spec_from(old(self)@ - rhs@),
    {
        let v = self.value() - rhs.value();
        self.set_value(v);
    }

    pub fn zero() -> (r: Number)
        ensures
            r@ == 0,
    {
        Number::new()
    }

    pub fn is_zero(&self) -> (r: bool)
        ensures
            r == (self@ == 0),
    {
        self.value() == 0
    }

    /// Parses an optional `-` followed by decimal digits; a value too large in magnitude
    /// saturates.
    pub fn from_str(s: &str) -> (r: Result<Number, ParseNumberError>)
        ensures
            match r {
                Ok(n) => parse_outcome(s@) == Ok::<int, ParseNumberError>(n@),
                Err(e) => parse_outcome(s@) == Err::<int, ParseNumberError>(e),
            },
    {
        let len = s.unicode_len();
        if len == 0 {
            return Err(ParseNumberError::Empty);
        }
        let is_negative = s.get_char(0) == '-';
        let start: usize = if is_negative { 1 } else { 0 };
        if start == len {
            return Err(ParseNumberError::NoDigits);
        }
        let ghost d = unsigned_part(s@);
        assert(d =~= s@.subrange(start as int, len as int));
        let mut value: i16 = 0;
        let mut i: usize = start;
        while i < len
            invariant
                start <= i <= len,
                len == s@.len(),
                d =~= s@.subrange(start as int, len as int),
                d == unsigned_part(s@),
                is_negative == is_negative_text(s@),
                forall|k: int| start <= k < i ==> is_digit(#[trigger] s@[k]),
                0 <= value <= 999,
                value as int == (if digits_value(d.subrange(0, i - start)) > 999 {
                    999
                } else {
                    digits_value(d.subrange(0, i - start))
                }),
            decreases len - i,
        {
            let c = s.get_char(i);
            if !('0' <= c && c <= '9') {
                proof {
                    assert forall|k: int| 0 <= k < i - start implies is_digit(#[trigger] d[k]) by {
                        assert(d[k] == s@[start + k]);
                    }
                    assert(d[i - start] == c);
                    lemma_first_non_digit(d, i - start);
                }
                return Err(ParseNumberError::InvalidDigit(c));
            }
            let ghost prev = d.subrange(0, i - start);
            let ghost next = d.subrange(0, i + 1 - start);
            assert(next.drop_last() =~= prev);
            assert(next.last() == c);
            proof {
                lemma_digits_nonneg(prev);
            }
            let digit = ((c as u32) - ('0' as u32)) as i16;
            let stepped = value * 10 + digit;
            value = if stepped > 999 { 999 } else { stepped };
            i = i + 1;
        }
        proof {
            assert(d.subrange(0, len - start) =~= d);
            assert forall|k: int| 0 <= k < d.len() implies is_digit(#[trigger] d[k]) by {
                assert(d[k] == s@[start + k]);
            }
            lemma_all_digits(d);
        }
        if is_negative {
            Ok(Number(-value))
        } else {
            Ok(Number(value))
        }
    }

    /// Decimal form of the value.
    pub fn to_string(&self) -> (r: String)
        ensures
            r@ == decimal(self@),
    {
        i16_to_string(self.value())
    }
}

pub broadcast proof fn lemma_spec_from(n: int)
    ensures
        #[trigger] Number::spec_from(n)@ == clamp(n),
{
}

/// Two numbers are equal exactly when their values are.
pub broadcast proof fn lemma_view_eq(a: Number, b: Number)
    ensures
        (a == b) <==> (#[trigger] a@ == #[trigger] b@),
{
}

/// Relies on the `Display` impl of `i16` (through `ToString`): the decimal form, with a
/// leading `-` for negative values.
#[verifier::external_body]
fn i16_to_string(v: i16) -> (r: String)
    ensures
        r@ == decimal(v as int),
{
    v.to_string()
}

proof fn lemma_digits_nonneg(s: Seq<char>)
    requires
        forall|k: int| 0 <= k < s.len() ==> is_digit(#[trigger] s[k]),
    ensures
        digits_value(s) >= 0,
    decreases s.len(),
{
    if s.len() > 0 {
        lemma_digits_nonneg(s.drop_last());
    }
}

proof fn lemma_first_non_digit(d: Seq<char>, j: int)
    requires
        0 <= j < d.len(),
        forall|k: int| 0 <= k < j ==> is_digit(#[trigger] d[k]),
        !is_digit(d[j]),
    ensures
        first_non_digit(d) == j,
    decreases j,
{
    if j > 0 {
        lemma_first_non_digit(d.drop_first(), j - 1);
    }
}

proof fn lemma_all_digits(d: Seq<char>)
    requires
        forall|k: int| 0 <= k < d.len() ==> is_digit(#[trigger] d[k]),
    ensures
        first_non_digit(d) == d.len(),
    decreases d.len(),
{
    if d.len() > 0 {
        lemma_all_digits(d.drop_first());
    }
}

proof fn lemma_decimal_digits(m: nat)
    ensures
        decimal_digits(m).len() > 0,
        forall|k: int| 0 <= k < decimal_digits(m).len() ==> is_digit(#[trigger] decimal_digits(m)[k]),
        digits_value(decimal_digits(m)) == m,
        first_non_digit(decimal_digits(m)) == decimal_digits(m).len(),
        decimal_digits(m)[0] != '-',
    decreases m,
{
    let d = decimal_digits(m);
    if m < 10 {
        assert(d.drop_last() =~= Seq::<char>::empty());
        assert(d.last() == digit_char(m));
        assert(digit_value(digit_char(m)) == m);
        assert(digits_value(d) == digits_value(d.drop_last()) * 10 + digit_value(d.last()));
    } else {
        lemma_decimal_digits(m / 10);
        let p = decimal_digits(m / 10);
        assert(d.drop_last() =~= p);
        assert(digit_value(digit_char(m % 10)) == m % 10);
        assert(m == (m / 10) * 10 + m % 10) by (nonlinear_arith);
        assert(d.last() == digit_char(m % 10));
        assert(digits_value(d) == digits_value(d.drop_last()) * 10 + digit_value(d.last()));
        assert forall|k: int| 0 <= k < d.len() implies is_digit(#[trigger] d[k]) by {
            if k < p.len() {
                assert(d[k] == p[k]);
            }
        }
    }
    lemma_all_digits(d);
}

/// Parsing the decimal form of any integer gives that integer, saturated: printing a
/// parsed number gives the decimal form of the saturated value.
pub proof fn lemma_parse_decimal(n: int)
    ensures
        parse_outcome(decimal(n)) == Ok::<int, ParseNumberError>(clamp(n)),
{
    if n < 0 {
        let m = (-n) as nat;
        lemma_decimal_digits(m);
        let s = decimal(n);
        assert(s[0] == '-');
        assert(s.drop_first() =~= decimal_digits(m));
    } else {
        lemma_decimal_digits(n as nat);
    }
}

} // verus!
