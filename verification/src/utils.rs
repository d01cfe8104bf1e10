//! Dimension configuration: the resize mode, the `WxH` dimension pair with
//! its parsing and formatting, and the integer percentage helper behind the
//! progress display.
use vstd::prelude::*;

verus! {

/// How target dimensions are derived from an image: either taken as given
/// (`Absolute`) or as a percentage of the source (`Relative`).
#[derive(Clone, Copy, PartialEq, Eq, Structural, Debug)]
pub enum Resize {
    Absolute,
    Relative,
}

/// A width/height pair in pixels.
#[derive(Clone, Copy, PartialEq, Eq, Structural, Debug)]
pub struct Dimensions {
    pub width: usize,
    pub height: usize,
}

impl Dimensions {
    pub fn new(width: usize, height: usize) -> (r: Dimensions)
        ensures
            r.width == width,
            r.height == height,
    {
        Dimensions { width, height }
    }
}

/// Why a dimension string or pair was rejected.
#[derive(Clone, Copy, PartialEq, Eq, Structural, Debug)]
pub enum DimensionsError {
    /// The string does not consist of exactly two parts joined by one `x`.
    InvalidFormat,
    /// The part before the `x` is not a numeral that fits in a `usize`.
    InvalidWidth,
    /// The part after the `x` is not a numeral that fits in a `usize`.
    InvalidHeight,
    /// A parsed dimension exceeds `MAX_DIMENSION`.
    TooBig,
}

/// The hard cap on either dimension accepted from the dimension editor.
pub const MAX_DIMENSION: usize = 8000;

/// Whether position `i` holds the only `x` in `s`.
pub open spec fn splits_once_at(s: Seq<char>, i: int) -> bool {
    &&& 0 <= i < s.len()
    &&& s[i] == 'x'
    &&& forall|j: int| 0 <= j < s.len() && j != i ==> #[trigger] s[j] != 'x'
}

impl Dimensions {
    /// Reads a `WxH` pair such as `100x200`. The string must hold exactly
    /// one `x`, and each side of it must be a decimal numeral; anything
    /// else is rejected with the reason, never a panic.
    pub fn parse_dimensions(dimensions: &str) -> (r: Result<Dimensions, DimensionsError>)
        ensures
            match r {
                Ok(d) => exists|i: int|
                    #[trigger] splits_once_at(dimensions@, i)
                        && valid_usize_digits(dimensions@.subrange(0, i))
                        && valid_usize_digits(dimensions@.subrange(i + 1, dimensions@.len() as int))
                        && d.width == dec_value(dimensions@.subrange(0, i))
                        && d.height == dec_value(dimensions@.subrange(i + 1, dimensions@.len() as int)),
                Err(e) => match e {
                    DimensionsError::InvalidFormat => forall|i: int| !splits_once_at(dimensions@, i),
                    DimensionsError::InvalidWidth => exists|i: int|
                        #[trigger] splits_once_at(dimensions@, i)
                            && !valid_usize_digits(dimensions@.subrange(0, i)),
                    DimensionsError::InvalidHeight => exists|i: int|
                        #[trigger] splits_once_at(dimensions@, i)
                            && valid_usize_digits(dimensions@.subrange(0, i))
                            && !valid_usize_digits(
                            dimensions@.subrange(i + 1, dimensions@.len() as int),
                        ),
                    DimensionsError::TooBig => false,
                },
            },
    {
        let n = dimensions.unicode_len();
        let mut i: usize = 0;
        loop
            invariant
                0 <= i <= n,
                n == dimensions@.len(),
                forall|j: int| 0 <= j < i ==> #[trigger] dimensions@[j] != 'x',
            ensures
                0 <= i <= n,
                i < n ==> dimensions@[i as int] == 'x',
                forall|j: int| 0 <= j < i ==> #[trigger] dimensions@[j] != 'x',
            decreases n - i,
        {
            if i >= n {
                break;
            }
            if dimensions.get_char(i) == 'x' {
                break;
            }
            i = i + 1;
        }
        if i == n {
            // no separator anywhere
            return Err(DimensionsError::InvalidFormat);
        }
        // the first `x` stands at i; make sure it is the only one
        let mut k: usize = i + 1;
        while k < n
            invariant
                i < k <= n,
                n == dimensions@.len(),
                dimensions@[i as int] == 'x',
                forall|j: int| i < j < k ==> #[trigger] dimensions@[j] != 'x',
            decreases n - k,
        {
            if dimensions.get_char(k) == 'x' {
                // a second separator: no position splits the string once
                proof {
                    assert forall|m: int| !splits_once_at(dimensions@, m) by {
                        if 0 <= m < dimensions@.len() {
                            if m != i as int {
                                assert(dimensions@[i as int] == 'x');
                            } else {
                                assert(dimensions@[k as int] == 'x');
                            }
                        }
                    }
                }
                return Err(DimensionsError::InvalidFormat);
            }
            k = k + 1;
        }
        proof {
            assert(splits_once_at(dimensions@, i as int));
        }
        let left = dimensions.substring_char(0, i);
        let right = dimensions.substring_char(i + 1, n);
        let width = match parse_usize(left) {
            Some(w) => w,
            None => {
                return Err(DimensionsError::InvalidWidth);
            },
        };
        let height = match parse_usize(right) {
            Some(h) => h,
            None => {
                return Err(DimensionsError::InvalidHeight);
            },
        };
        Ok(Dimensions { width, height })
    }

    /// The width and the height, each as its decimal numeral, for the
    /// dimension editor.
    pub fn as_string(&self) -> (r: (String, String))
        ensures
            r.0@ == dec_digits(self.width as nat),
            r.1@ == dec_digits(self.height as nat),
    {
        (usize_to_string(self.width), usize_to_string(self.height))
    }

    /// Reads the edited width and height back. Both must be numerals no
    /// greater than `MAX_DIMENSION`; otherwise the pair is rejected and the
    /// dimensions stay as they were.
    pub fn save_dimensions_from_string(&mut self, dimensions: (String, String)) -> (r: Result<
        (),
        DimensionsError,
    >)
        ensures
            match r {
                Ok(_) => {
                    &&& valid_usize_digits(dimensions.0@)
                    &&& valid_usize_digits(dimensions.1@)
                    &&& dec_value(dimensions.0@) <= MAX_DIMENSION
                    &&& dec_value(dimensions.1@) <= MAX_DIMENSION
                    &&& final(self).width == dec_value(dimensions.0@)
                    &&& final(self).height == dec_value(dimensions.1@)
                },
                Err(e) => *final(self) == *old(self) && match e {
                    DimensionsError::InvalidWidth => !valid_usize_digits(dimensions.0@),
                    DimensionsError::InvalidHeight => valid_usize_digits(dimensions.0@)
                        && !valid_usize_digits(dimensions.1@),
                    DimensionsError::TooBig => valid_usize_digits(dimensions.0@)
                        && valid_usize_digits(dimensions.1@) && (dec_value(dimensions.0@)
                        > MAX_DIMENSION || dec_value(dimensions.1@) > MAX_DIMENSION),
                    DimensionsError::InvalidFormat => false,
                },
            },
    {
        let (width_str, height_str) = dimensions;
        let width = match parse_usize(width_str.as_str()) {
            Some(w) => w,
            None => {
                return Err(DimensionsError::InvalidWidth);
            },
        };
        let height = match parse_usize(height_str.as_str()) {
            Some(h) => h,
            None => {
                return Err(DimensionsError::InvalidHeight);
            },
        };
        if width > MAX_DIMENSION || height > MAX_DIMENSION {
            return Err(DimensionsError::TooBig);
        }
        self.width = width;
        self.height = height;
        Ok(())
    }
}

impl Default for Dimensions {
    /// The stock full-HD dimensions offered before the user edits anything.
    fn default() -> (r: Dimensions)
        ensures
            r.width == 1920,
            r.height == 1080,
    {
        Dimensions { width: 1920, height: 1080 }
    }
}

/// Whether `c` is a decimal digit.
pub open spec fn is_digit_char(c: char) -> bool {
    48 <= c as u32 <= 57
}

/// The numeric value of a decimal digit character.
pub open spec fn digit_val(c: char) -> nat {
    (c as u32 - 48) as nat
}

/// Whether every character of `s` is a decimal digit.
pub open spec fn all_digits(s: Seq<char>) -> bool {
    forall|i: int| 0 <= i < s.len() ==> is_digit_char(#[trigger] s[i])
}

/// The number denoted by a sequence of decimal digit characters.
pub open spec fn dec_value(s: Seq<char>) -> nat
    decreases s.len(),
{
    if s.len() == 0 {
        0
    } else {
        dec_value(s.drop_last()) * 10 + digit_val(s.last())
    }
}

/// Whether `s` is a decimal numeral that fits in a `usize`.
pub open spec fn valid_usize_digits(s: Seq<char>) -> bool {
    s.len() > 0 && all_digits(s) && dec_value(s) <= usize::MAX
}

/// The digit character for a value below ten.
pub open spec fn digit_char(d: nat) -> char {
    if d == 0 {
        '0'
    } else if d == 1 {
        '1'
    } else if d == 2 {
        '2'
    } else if d == 3 {
        '3'
    } else if d == 4 {
        '4'
    } else if d == 5 {
        '5'
    } else if d == 6 {
        '6'
    } else if d == 7 {
        '7'
    } else if d == 8 {
        '8'
    } else {
        '9'
    }
}

/// The decimal numeral of `n`, most significant digit first, with no
/// leading zero except for `n == 0` itself.
pub open spec fn dec_digits(n: nat) -> Seq<char>
    decreases n,
{
    if n < 10 {
        seq![digit_char(n)]
    } else {
        dec_digits(n / 10).push(digit_char(n % 10))
    }
}

fn digit_to_str(d: usize) -> (r: &'static str)
    requires
        d < 10,
    ensures
        r@ == seq![digit_char(d as nat)],
{
    proof {
        reveal_strlit("0");
        reveal_strlit("1");
        reveal_strlit("2");
        reveal_strlit("3");
        reveal_strlit("4");
        reveal_strlit("5");
        reveal_strlit("6");
        reveal_strlit("7");
        reveal_strlit("8");
        reveal_strlit("9");
    }
    let r: &'static str = if d == 0 {
        "0"
    } else if d == 1 {
        "1"
    } else if d == 2 {
        "2"
    } else if d == 3 {
        "3"
    } else if d == 4 {
        "4"
    } else if d == 5 {
        "5"
    } else if d == 6 {
        "6"
    } else if d == 7 {
        "7"
    } else if d == 8 {
        "8"
    } else {
        "9"
    };
    proof {
        assert(r@ =~= seq![digit_char(d as nat)]);
    }
    r
}

/// Formats `n` as its decimal numeral.
pub fn usize_to_string(n: usize) -> (r: String)
    ensures
        r@ == dec_digits(n as nat),
    decreases n,
{
    if n < 10 {
        String::from_str(digit_to_str(n))
    } else {
        let mut s = usize_to_string(n / 10);
        s.append(digit_to_str(n % 10));
        proof {
            assert(s@ =~= dec_digits(n as nat));
        }
        s
    }
}

/// Formatting a value yields a proper numeral that reads back as the same
/// value: `dec_digits(n)` is nonempty, all digits, and `dec_value` of it
/// is `n` again. With [`usize_to_string`]'s and [`parse_usize`]'s
/// contracts this is the round trip behind the dimension editor: whatever
/// `as_string` renders, `save_dimensions_from_string` reads back
/// unchanged, as long as the value is within the accepted cap.
pub proof fn lemma_dec_digits_round_trip(n: nat)
    ensures
        dec_digits(n).len() > 0,
        all_digits(dec_digits(n)),
        dec_value(dec_digits(n)) == n,
    decreases n,
{
    if n < 10 {
        let s = dec_digits(n);
        assert(s =~= seq![digit_char(n)]);
        assert(s.drop_last() =~= Seq::<char>::empty());
        assert(s.last() == digit_char(n));
        assert(dec_value(s) == dec_value(Seq::<char>::empty()) * 10 + digit_val(digit_char(n)));
        assert(digit_val(digit_char(n)) == n);
    } else {
        lemma_dec_digits_round_trip(n / 10);
        let prefix = dec_digits(n / 10);
        let whole = dec_digits(n);
        assert(whole == prefix.push(digit_char(n % 10)));
        assert(whole.drop_last() =~= prefix);
        assert(whole.last() == digit_char(n % 10));
        assert(dec_value(whole) == dec_value(prefix) * 10 + digit_val(digit_char(n % 10)));
        assert forall|i: int| 0 <= i < whole.len() implies is_digit_char(#[trigger] whole[i]) by {
            if i < prefix.len() {
                assert(whole[i] == prefix[i]);
            }
        }
    }
}

/// The value of a numeral can only grow as more digits are appended: the
/// value of any prefix is at most the value of the whole.
proof fn lemma_dec_value_prefix_le(s: Seq<char>, i: int)
    requires
        0 <= i <= s.len(),
    ensures
        dec_value(s.subrange(0, i)) <= dec_value(s),
    decreases s.len() - i,
{
    if i < s.len() {
        assert(s.subrange(0, i + 1).drop_last() =~= s.subrange(0, i));
        assert(dec_value(s.subrange(0, i)) <= dec_value(s.subrange(0, i + 1)));
        lemma_dec_value_prefix_le(s, i + 1);
    } else {
        assert(s.subrange(0, i) =~= s);
    }
}

/// Reads a decimal numeral. Returns the denoted value, or `None` when the
/// string is empty, holds a non-digit, or denotes a value above
/// `usize::MAX`.
pub fn parse_usize(s: &str) -> (r: Option<usize>)
    ensures
        r is Some <==> valid_usize_digits(s@),
        r matches Some(v) ==> v == dec_value(s@),
{
    let n = s.unicode_len();
    if n == 0 {
        return None;
    }
    let mut acc: usize = 0;
    let mut i: usize = 0;
    while i < n
        invariant
            0 <= i <= n,
            n == s@.len(),
            all_digits(s@.subrange(0, i as int)),
            acc == dec_value(s@.subrange(0, i as int)),
        decreases n - i,
    {
        let c = s.get_char(i);
        let cv = c as u32;
        if cv < 48 || cv > 57 {
            assert(!is_digit_char(s@[i as int]));
            return None;
        }
        let d = (cv - 48) as usize;
        proof {
            assert(s@.subrange(0, i as int + 1).drop_last() =~= s@.subrange(0, i as int));
        }
        let shifted = match acc.checked_mul(10) {
            Some(v) => v,
            None => {
                proof {
                    lemma_dec_value_prefix_le(s@, i as int + 1);
                }
                return None;
            },
        };
        acc = match shifted.checked_add(d) {
            Some(v) => v,
            None => {
                proof {
                    lemma_dec_value_prefix_le(s@, i as int + 1);
                }
                return None;
            },
        };
        i = i + 1;
    }
    proof {
        assert(s@.subrange(0, n as int) =~= s@);
    }
    Some(acc)
}

/// The integer percentage of `numerator` over `denominator`, expressed in
/// twentieths of a percent and rounded half-up; a zero denominator yields 0
/// rather than a division error.
pub open spec fn spec_percent_twentieths(numerator: u64, denominator: u64) -> int {
    if denominator == 0 {
        0
    } else {
        (2000 * (numerator as int) + (denominator as int) / 2) / (denominator as int)
    }
}

/// Percentage of `numerator` over `denominator` scaled by 20 (so a result of
/// 1000 means 50.00%), rounded half-up to the nearest twentieth of a percent.
/// The display layer divides by 20 to obtain the percentage it shows.
pub fn round_percent_twentieths(numerator: u64, denominator: u64) -> (r: u128)
    ensures
        r == spec_percent_twentieths(numerator, denominator),
{
    if denominator == 0 {
        0
    } else {
        let n = numerator as u128;
        let d = denominator as u128;
        (2000 * n + d / 2) / d
    }
}

} // verus!
