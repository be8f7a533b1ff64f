//! Crop rectangles as a user writes them.

use crate::image::Rect;
use crate::text::{
    all_digits, all_space, chars_of, decimal, digits_value, is_digit, is_space, lemma_decimal,
    lemma_split_first, lemma_trim_padded, signed, split, split_chars, texts, trim, trimmed,
};
use vstd::prelude::*;
use vstd::slice::slice_subrange;

verus! {

/// Why a text is no integer of 32 bits.
#[derive(Debug, Clone, Copy, PartialEq, Eq, Structural)]
pub enum IntegerError {
    Empty,
    InvalidDigit,
    PosOverflow,
    NegOverflow,
}

impl IntegerError {
    /// What a user reads.
    pub open spec fn spec_text(self) -> Seq<char> {
        match self {
            IntegerError::Empty => "cannot parse integer from empty string"@,
            IntegerError::InvalidDigit => "invalid digit found in string"@,
            IntegerError::PosOverflow => "number too large to fit in target type"@,
            IntegerError::NegOverflow => "number too small to fit in target type"@,
        }
    }

    /// What a user reads.
    pub fn text(self) -> (r: &'static str)
        ensures
            self is Empty ==> r@ == "cannot parse integer from empty string"@,
            self is InvalidDigit ==> r@ == "invalid digit found in string"@,
            self is PosOverflow ==> r@ == "number too large to fit in target type"@,
            self is NegOverflow ==> r@ == "number too small to fit in target type"@,
            r@ == self.spec_text(),
    {
        match self {
            IntegerError::Empty => "cannot parse integer from empty string",
            IntegerError::InvalidDigit => "invalid digit found in string",
            IntegerError::PosOverflow => "number too large to fit in target type",
            IntegerError::NegOverflow => "number too small to fit in target type",
        }
    }
}

/// How many digits a text begins with.
pub open spec fn leading_digits(s: Seq<char>) -> int
    decreases s.len(),
{
    if s.len() == 0 || !is_digit(s[0]) {
        0
    } else {
        1 + leading_digits(s.skip(1))
    }
}

/// The integer that a text is: an optional sign and digits. A number that leaves the range is
/// noticed before a character behind it that is no digit.
pub open spec fn integer(s: Seq<char>) -> Result<int, IntegerError> {
    if s.len() == 0 {
        Err(IntegerError::Empty)
    } else {
        let negative = s[0] == '-';
        let digits = if s[0] == '-' || s[0] == '+' {
            s.skip(1)
        } else {
            s
        };
        let value = digits_value(digits.take(leading_digits(digits)));
        if !negative && value > i32::MAX {
            Err(IntegerError::PosOverflow)
        } else if negative && -value < i32::MIN {
            Err(IntegerError::NegOverflow)
        } else if digits.len() == 0 || leading_digits(digits) < digits.len() {
            Err(IntegerError::InvalidDigit)
        } else if negative {
            Ok(-value)
        } else {
            Ok(value)
        }
    }
}

proof fn lemma_leading(s: Seq<char>, k: int)
    requires
        0 <= k <= s.len(),
        all_digits(s.take(k)),
    ensures
        k <= leading_digits(s) <= s.len(),
        k < s.len() && !is_digit(s[k]) ==> leading_digits(s) == k,
        k == s.len() ==> leading_digits(s) == k,
        all_digits(s.take(leading_digits(s))),
    decreases s.len(),
{
    if s.len() > 0 && is_digit(s[0]) {
        let t = s.skip(1);
        if k > 0 {
            assert forall|i: int| 0 <= i < k - 1 implies is_digit(#[trigger] t.take(k - 1)[i]) by {
                assert(s.take(k)[i + 1] == t.take(k - 1)[i]);
                assert(is_digit(s.take(k)[i + 1]));
            }
            lemma_leading(t, k - 1);
        } else {
            lemma_leading(t, 0);
        }
        let n = leading_digits(s);
        assert forall|i: int| 0 <= i < n implies is_digit(#[trigger] s.take(n)[i]) by {
            if i > 0 {
                assert(t.take(n - 1)[i - 1] == s.take(n)[i]);
                assert(is_digit(t.take(n - 1)[i - 1]));
            }
        }
    } else if k > 0 {
        assert(is_digit(s.take(k)[0]));
    }
}

/// Reads an integer of 32 bits.
pub fn read_integer(s: &[char]) -> (r: Result<i32, IntegerError>)
    ensures
        match integer(s@) {
            Ok(value) => r is Ok && r->Ok_0 == value,
            Err(error) => r == Err::<i32, IntegerError>(error),
        },
{
    if s.len() == 0 {
        return Err(IntegerError::Empty);
    }
    let negative = s[0] == '-';
    let digits = if s[0] == '-' || s[0] == '+' {
        let rest = slice_subrange(s, 1, s.len());
        assert(rest@ =~= s@.skip(1));
        rest
    } else {
        s
    };
    let limit: i64 = if negative {
        2147483648
    } else {
        2147483647
    };
    let mut value: i64 = 0;
    let mut i: usize = 0;
    while i < digits.len()
        invariant
            i <= digits@.len(),
            0 <= value <= limit <= 2147483648,
            limit == (if negative {
                2147483648int
            } else {
                2147483647int
            }),
            all_digits(digits@.take(i as int)),
            value == digits_value(digits@.take(i as int)),
            s@.len() > 0,
            negative == (s@[0] == '-'),
            digits@ == (if s@[0] == '-' || s@[0] == '+' {
                s@.skip(1)
            } else {
                s@
            }),
        decreases digits@.len() - i,
    {
        let c = digits[i];
        if !('0' <= c && c <= '9') {
            proof {
                lemma_leading(digits@, i as int);
            }
            return Err(IntegerError::InvalidDigit);
        }
        let ghost before = digits@.take(i as int);
        value = value * 10 + (c as u32 - 48) as i64;
        i += 1;
        proof {
            assert(digits@.take(i as int).drop_last() =~= before);
            assert forall|j: int| 0 <= j < i implies is_digit(
                #[trigger] digits@.take(i as int)[j],
            ) by {
                if j < i - 1 {
                    assert(before[j] == digits@[j]);
                    assert(is_digit(before[j]));
                }
            }
        }
        if value > limit {
            proof {
                lemma_leading(digits@, i as int);
                let n = leading_digits(digits@);
                crate::text::lemma_digits_grow(digits@.take(n), i as int);
                assert(digits@.take(n).take(i as int) =~= digits@.take(i as int));
            }
            return Err(
                if negative {
                    IntegerError::NegOverflow
                } else {
                    IntegerError::PosOverflow
                },
            );
        }
    }
    proof {
        lemma_leading(digits@, i as int);
    }
    if digits.len() == 0 {
        return Err(IntegerError::InvalidDigit);
    }
    if negative {
        Ok((0 - value) as i32)
    } else {
        Ok(value as i32)
    }
}

/// Why a text is no crop rectangle.
#[derive(Debug, Clone, Copy, PartialEq, Eq, Structural)]
pub enum CropParseError {
    ComponentCount,
    InvalidInteger(IntegerError),
}

impl CropParseError {
    /// What a user reads.
    pub open spec fn spec_text(self) -> Seq<char> {
        match self {
            CropParseError::ComponentCount => "crop must be x,y,w,h"@,
            CropParseError::InvalidInteger(error) => error.spec_text(),
        }
    }

    /// What a user reads.
    pub fn text(self) -> (r: &'static str)
        ensures
            self is ComponentCount ==> r@ == "crop must be x,y,w,h"@,
            self matches CropParseError::InvalidInteger(IntegerError::Empty) ==> r@
                == "cannot parse integer from empty string"@,
            self matches CropParseError::InvalidInteger(IntegerError::InvalidDigit) ==> r@
                == "invalid digit found in string"@,
            r@ == self.spec_text(),
    {
        match self {
            CropParseError::ComponentCount => "crop must be x,y,w,h",
            CropParseError::InvalidInteger(error) => error.text(),
        }
    }
}

/// The first `n` components of a rectangle, or why one of them is no integer.
pub open spec fn components(parts: Seq<Seq<char>>, n: int) -> Result<Seq<int>, CropParseError>
    decreases n,
{
    if n <= 0 {
        Ok(Seq::empty())
    } else {
        match components(parts, n - 1) {
            Err(error) => Err(error),
            Ok(before) => match integer(trim(parts[n - 1])) {
                Err(error) => Err(CropParseError::InvalidInteger(error)),
                Ok(value) => Ok(before.push(value)),
            },
        }
    }
}

/// The four components of a crop rectangle: four integers between commas.
pub open spec fn crop_components(value: Seq<char>) -> Result<Seq<int>, CropParseError> {
    let parts = split(value, ',');
    if parts.len() != 4 {
        Err(CropParseError::ComponentCount)
    } else {
        components(parts, 4)
    }
}

/// The integers of an array.
pub open spec fn values_of(v: [i32; 4]) -> Seq<int> {
    seq![v[0] as int, v[1] as int, v[2] as int, v[3] as int]
}

/// Reads the four components of a crop rectangle.
pub fn parse_crop_components(value: &str) -> (r: Result<[i32; 4], CropParseError>)
    ensures
        match crop_components(value@) {
            Ok(values) => r is Ok && values_of(r->Ok_0) == values,
            Err(error) => r == Err::<[i32; 4], CropParseError>(error),
        },
{
    let chars = chars_of(value);
    let parts = split_chars(chars.as_slice(), ',');
    let ghost all = texts(parts@);
    if parts.len() != 4 {
        return Err(CropParseError::ComponentCount);
    }
    proof {
        reveal_with_fuel(components, 5);
        assert(all[0] == parts@[0]@ && all[1] == parts@[1]@);
        assert(all[2] == parts@[2]@ && all[3] == parts@[3]@);
    }
    let x: i32 = match read_integer(trimmed(parts[0].as_slice())) {
        Ok(value) => value,
        Err(error) => {
            return Err(CropParseError::InvalidInteger(error));
        },
    };
    let y: i32 = match read_integer(trimmed(parts[1].as_slice())) {
        Ok(value) => value,
        Err(error) => {
            return Err(CropParseError::InvalidInteger(error));
        },
    };
    let width: i32 = match read_integer(trimmed(parts[2].as_slice())) {
        Ok(value) => value,
        Err(error) => {
            return Err(CropParseError::InvalidInteger(error));
        },
    };
    let height: i32 = match read_integer(trimmed(parts[3].as_slice())) {
        Ok(value) => value,
        Err(error) => {
            return Err(CropParseError::InvalidInteger(error));
        },
    };
    let out: [i32; 4] = [x, y, width, height];
    assert(values_of(out) =~= components(all, 4)->Ok_0);
    Ok(out)
}

/// The rectangle of four components, where it is not empty.
pub open spec fn crop_rect(values: Seq<int>) -> Option<Rect> {
    if values[2] > 0 && values[3] > 0 {
        Some(
            Rect {
                x: values[0] as i32,
                y: values[1] as i32,
                width: values[2] as u32,
                height: values[3] as u32,
            },
        )
    } else {
        None
    }
}

/// The rectangle of four components, where it is not empty.
pub fn rect_of(crop: [i32; 4]) -> (r: Option<Rect>)
    ensures
        r is Some <==> crop[2] > 0 && crop[3] > 0,
        r matches Some(rect) ==> rect.x == crop[0] && rect.y == crop[1] && rect.width == crop[2] && rect.height
            == crop[3],
        r == crop_rect(values_of(crop)),
{
    if crop[2] > 0 && crop[3] > 0 {
        Some(Rect::new(crop[0], crop[1], crop[2] as u32, crop[3] as u32))
    } else {
        None
    }
}

/// Four texts with a comma between each two.
pub open spec fn crop_line(parts: Seq<Seq<char>>) -> Seq<char> {
    parts[0] + seq![','] + parts[1] + seq![','] + parts[2] + seq![','] + parts[3]
}

/// A number in decimal digits, with white space before and behind it.
pub open spec fn padded(before: Seq<char>, n: int, after: Seq<char>) -> Seq<char> {
    before + signed(n) + after
}

/// The decimal digits of an integer of 32 bits are read as that integer, and hold neither white
/// space nor a comma.
pub proof fn lemma_signed(n: int)
    requires
        i32::MIN <= n <= i32::MAX,
    ensures
        signed(n).len() > 0,
        forall|i: int|
            0 <= i < signed(n).len() ==> !is_space(#[trigger] signed(n)[i]) && signed(n)[i] != ',',
        integer(signed(n)) == Ok::<int, IntegerError>(n),
{
    reveal_strlit("-");
    let digits = decimal(if n < 0 {
        -n
    } else {
        n
    } as nat);
    lemma_decimal(if n < 0 {
        -n
    } else {
        n
    } as nat);
    assert(digits.take(digits.len() as int) =~= digits);
    lemma_leading(digits, digits.len() as int);
    if n < 0 {
        assert(signed(n).skip(1) =~= digits);
        assert forall|i: int| 1 <= i < signed(n).len() implies is_digit(#[trigger] signed(n)[i]) by {
            assert(signed(n)[i] == digits[i - 1]);
        }
    } else {
        assert(is_digit(signed(n)[0]));
    }
}

proof fn lemma_padded(before: Seq<char>, n: int, after: Seq<char>)
    requires
        i32::MIN <= n <= i32::MAX,
        all_space(before),
        all_space(after),
    ensures
        integer(trim(padded(before, n, after))) == Ok::<int, IntegerError>(n),
        forall|i: int|
            0 <= i < padded(before, n, after).len() ==> #[trigger] padded(before, n, after)[i] != ',',
{
    lemma_signed(n);
    lemma_trim_padded(before, signed(n), after);
    let s = padded(before, n, after);
    let m = before.len() as int;
    let k = m + signed(n).len();
    assert forall|i: int| 0 <= i < s.len() implies #[trigger] s[i] != ',' by {
        if i < m {
            assert(is_space(before[i]));
        } else if i < k {
            assert(s[i] == signed(n)[i - m]);
        } else {
            assert(is_space(after[i - k]));
        }
    }
}

/// Four integers of 32 bits, written in decimal digits with a comma between each two and white space
/// anywhere around them, are read back.
pub proof fn components_are_read_back(
    values: Seq<int>,
    before: Seq<Seq<char>>,
    after: Seq<Seq<char>>,
)
    requires
        values.len() == 4,
        before.len() == 4,
        after.len() == 4,
        forall|i: int| 0 <= i < 4 ==> i32::MIN <= #[trigger] values[i] <= i32::MAX,
        forall|i: int| 0 <= i < 4 ==> all_space(#[trigger] before[i]),
        forall|i: int| 0 <= i < 4 ==> all_space(#[trigger] after[i]),
    ensures
        crop_components(
            crop_line(Seq::new(4, |i: int| padded(before[i], values[i], after[i]))),
        ) == Ok::<Seq<int>, CropParseError>(values),
{
    let parts = Seq::new(4, |i: int| padded(before[i], values[i], after[i]));
    lemma_padded(before[0], values[0], after[0]);
    lemma_padded(before[1], values[1], after[1]);
    lemma_padded(before[2], values[2], after[2]);
    lemma_padded(before[3], values[3], after[3]);
    let last = parts[3];
    let third = parts[2] + seq![','] + last;
    let second = parts[1] + seq![','] + third;
    let line = parts[0] + seq![','] + second;
    assert(crop_line(parts) =~= line);
    lemma_split_first(parts[0], ',', second);
    lemma_split_first(parts[1], ',', third);
    lemma_split_first(parts[2], ',', last);
    lemma_split_first(parts[3], ',', Seq::empty());
    assert(split(line, ',') =~= parts);
    reveal_with_fuel(components, 5);
    assert(components(parts, 4)->Ok_0 =~= values);
}

} // verus!
