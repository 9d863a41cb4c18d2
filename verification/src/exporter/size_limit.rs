//! The size limit of the events directory, as it is given on the command line.

use crate::text::{decimal, digit};
use vstd::arithmetic::power::{lemma_pow_positive, pow};
use vstd::prelude::*;

verus! {

/// A unit that a size can be given in.
pub enum SizeUnit {
    Unnamed,
    B,
    KB,
    MB,
    GB,
    KiB,
    MiB,
    GiB,
}

impl SizeUnit {
    /// How the unit is written.
    pub open spec fn name(self) -> Seq<char> {
        match self {
            SizeUnit::Unnamed => Seq::empty(),
            SizeUnit::B => "B"@,
            SizeUnit::KB => "KB"@,
            SizeUnit::MB => "MB"@,
            SizeUnit::GB => "GB"@,
            SizeUnit::KiB => "KiB"@,
            SizeUnit::MiB => "MiB"@,
            SizeUnit::GiB => "GiB"@,
        }
    }

    /// Number of bytes in the unit.
    pub open spec fn bytes(self) -> nat {
        match self {
            SizeUnit::Unnamed => 1,
            SizeUnit::B => 1,
            SizeUnit::KB => 1_000,
            SizeUnit::MB => 1_000_000,
            SizeUnit::GB => 1_000_000_000,
            SizeUnit::KiB => 1_024,
            SizeUnit::MiB => 1_048_576,
            SizeUnit::GiB => 1_073_741_824,
        }
    }
}

/// A size as it is written: `whole` or, with `places` above zero, `whole.fraction` with that many
/// digits behind the point, and the unit with or without a space before it.
pub struct WrittenSize {
    pub whole: nat,
    pub places: nat,
    pub fraction: nat,
    pub spaced: bool,
    pub unit: SizeUnit,
}

/// The last `places` digits of a number, with leading zeros.
pub open spec fn fraction_digits(fraction: nat, places: nat) -> Seq<char>
    decreases places,
{
    if places == 0 {
        Seq::empty()
    } else {
        fraction_digits(fraction / 10, (places - 1) as nat).push(digit(fraction % 10))
    }
}

impl WrittenSize {
    /// The text.
    pub open spec fn text(self) -> Seq<char> {
        decimal(self.whole) + (if self.places > 0 {
            seq!['.'] + fraction_digits(self.fraction, self.places)
        } else {
            Seq::empty()
        }) + (if self.spaced {
            seq![' ']
        } else {
            Seq::empty()
        }) + self.unit.name()
    }

    /// The number of steps that one unit is divided into.
    pub open spec fn steps(self) -> nat {
        pow(10, self.places) as nat
    }

    /// The size in bytes, times the number of steps.
    pub open spec fn scaled_bytes(self) -> nat {
        (self.whole * self.steps() + self.fraction) * self.unit.bytes()
    }

    /// The size in bytes, rounded up.
    pub open spec fn bytes(self) -> nat {
        ((self.scaled_bytes() + self.steps() - 1) / self.steps() as int) as nat
    }

    /// The size is a proper decimal number with at most 18 places, small enough to be computed
    /// within 64 bits.
    pub open spec fn moderate(self) -> bool {
        &&& self.places <= 18
        &&& self.fraction < self.steps()
        &&& self.scaled_bytes() <= u64::MAX
    }
}

/// What `byte_unit::Byte::parse_str` makes of a text: the number of bytes, which is `None` where it
/// exceeds 64 bits, or the message of the error.
pub uninterp spec fn parsed_size(value: Seq<char>, ignore_case: bool) -> Result<
    Option<u64>,
    Seq<char>,
>;

/// The error for a text that is no size.
pub open spec fn invalid_size_text(value: Seq<char>, error: Seq<char>) -> Seq<char> {
    "invalid size '"@ + value + "': "@ + error
}

/// The error for a size that is too large.
pub open spec fn oversized_text(value: Seq<char>) -> Seq<char> {
    "size limit '"@ + value + "' exceeds usize maximum"@
}

/// The size limit that a parsed text stands for, or the error.
pub open spec fn limit_from(
    value: Seq<char>,
    parsed: Result<Option<u64>, Seq<char>>,
) -> Result<usize, Seq<char>> {
    match parsed {
        Ok(Some(bytes)) => if bytes <= usize::MAX {
            Ok(bytes as usize)
        } else {
            Err(oversized_text(value))
        },
        Ok(None) => Err(oversized_text(value)),
        Err(error) => Err(invalid_size_text(value, error)),
    }
}

/// A result with its error as a sequence of characters.
pub open spec fn with_error_text<T>(result: Result<T, String>) -> Result<T, Seq<char>> {
    match result {
        Ok(value) => Ok(value),
        Err(error) => Err(error@),
    }
}

/// A result without its error.
pub open spec fn without_error<T, E>(result: Result<T, E>) -> Option<T> {
    match result {
        Ok(value) => Some(value),
        Err(_) => None,
    }
}

/// A text with the letters from `A` to `Z` in lower case.
pub open spec fn ascii_lowercase(text: Seq<char>) -> Seq<char> {
    text.map_values(
        |c: char|
            if 'A' <= c && c <= 'Z' {
                (c as u32 + 32) as char
            } else {
                c
            },
    )
}

/// If `value` is the text of a moderate size, in any letter case where `ignore_case` says so, it is
/// read as its number of bytes.
pub open spec fn moderate_size_is_read(
    value: Seq<char>,
    ignore_case: bool,
    parsed: Result<Option<u64>, Seq<char>>,
) -> bool {
    forall|size: WrittenSize|
        size.moderate() && (value == #[trigger] size.text() || ignore_case && ascii_lowercase(value)
            == ascii_lowercase(size.text())) ==> parsed == Ok::<Option<u64>, Seq<char>>(
            Some(size.bytes() as u64),
        )
}

/// Calls `byte_unit::Byte::parse_str`, hands the size out by `Byte::as_u64_checked` and an error by
/// its message.
///
/// Claimed of it: the outcome depends on the two arguments alone; where `ignore_case` says so, the
/// letter case makes no difference to whether there is a size and to which, though it can to an
/// error's message; and a decimal number, with or without one of the units of [`SizeUnit`] behind it
/// and a space between the two, gives that many units in bytes, rounded up, where the numbers stay
/// moderate. What it makes of other texts is left unsaid.
#[verifier::external_body]
fn parse_byte_size(value: &str, ignore_case: bool) -> (parsed: Result<Option<u64>, String>)
    ensures
        with_error_text(parsed) == parsed_size(value@, ignore_case),
        ignore_case ==> without_error(parsed) == without_error(
            parsed_size(ascii_lowercase(value@), ignore_case),
        ),
        moderate_size_is_read(value@, ignore_case, with_error_text(parsed)),
{
    byte_unit::Byte::parse_str(value, ignore_case)
        .map(|size| size.as_u64_checked())
        .map_err(|error| error.to_string())
}

/// The size limit that a parsed text stands for.
pub fn limit_from_parsed(value: &str, parsed: Result<Option<u64>, String>) -> (limit: Result<
    usize,
    String,
>)
    ensures
        with_error_text(limit) == limit_from(value@, with_error_text(parsed)),
{
    match parsed {
        Ok(Some(bytes)) => match usize::try_from(bytes) {
            Ok(limit) => Ok(limit),
            Err(_) => Err(oversized(value)),
        },
        Ok(None) => Err(oversized(value)),
        Err(error) => {
            let mut message = "invalid size '".to_owned();
            message.append(value);
            message.append("': ");
            message.append(error.as_str());
            Err(message)
        },
    }
}

/// The error for a size that is too large.
fn oversized(value: &str) -> (message: String)
    ensures
        message@ == oversized_text(value@),
{
    let mut message = "size limit '".to_owned();
    message.append(value);
    message.append("' exceeds usize maximum");
    message
}

/// Parses a directory size limit into a number of bytes.
/// Supports human-readable values such as `10MiB`, `1.5GiB`, `10000`, and `8 KB`. The letter case
/// makes no difference to the size: a value and the same value in lower case give the same limit, or
/// both give none.
pub fn parse_dir_size_limit(value: &str) -> (limit: Result<usize, String>)
    ensures
        with_error_text(limit) == limit_from(value@, parsed_size(value@, true)),
        without_error(limit) == without_error(
            limit_from(ascii_lowercase(value@), parsed_size(ascii_lowercase(value@), true)),
        ),
        forall|size: WrittenSize|
            ascii_lowercase(value@) == ascii_lowercase(#[trigger] size.text()) && size.moderate()
                && size.bytes() <= usize::MAX ==> limit == Ok::<usize, String>(
                size.bytes() as usize,
            ),
{
    let parsed = parse_byte_size(value, true);
    proof {
        assert forall|size: WrittenSize|
            ascii_lowercase(value@) == ascii_lowercase(#[trigger] size.text())
                && size.moderate() implies size.bytes() <= u64::MAX by {
            lemma_bytes_at_most_scaled(size);
        }
    }
    limit_from_parsed(value, parsed)
}

/// Dividing by the number of steps does not make a size larger.
proof fn lemma_bytes_at_most_scaled(size: WrittenSize)
    ensures
        size.bytes() <= size.scaled_bytes(),
{
    lemma_pow_positive(10, size.places);
    let steps = size.steps() as int;
    let scaled = size.scaled_bytes() as int;
    assert((scaled + steps - 1) / steps <= scaled) by (nonlinear_arith)
        requires
            steps >= 1,
            scaled >= 0,
    ;
}

/// A number of bytes that was read is the limit itself wherever it fits into a `usize`. A larger one
/// is refused, and so is a text that is no size, each with a message that quotes the text.
pub proof fn law_limit_is_the_size_that_was_read(
    value: Seq<char>,
    parsed: Result<Option<u64>, Seq<char>>,
)
    ensures
        match parsed {
            Ok(Some(bytes)) => if bytes <= usize::MAX {
                limit_from(value, parsed) is Ok && limit_from(value, parsed)->Ok_0 == bytes
            } else {
                limit_from(value, parsed) == Err::<usize, Seq<char>>(
                    "size limit '"@ + value + "' exceeds usize maximum"@,
                )
            },
            Ok(None) => limit_from(value, parsed) == Err::<usize, Seq<char>>(
                "size limit '"@ + value + "' exceeds usize maximum"@,
            ),
            Err(error) => limit_from(value, parsed) == Err::<usize, Seq<char>>(
                "invalid size '"@ + value + "': "@ + error,
            ),
        },
{
}

} // verus!
