//! Picking single characters out of a secret.

use vstd::prelude::*;
use vstd::string::StringSliceAdditionalSpecFns;
use vstd::utf8::is_char_boundary;

use crate::text::chars_of;
use crate::text::trim;
use crate::text::trimmed;

verus! {

/// Why no character could be shown.
#[derive(Clone, Copy, Debug, PartialEq, Eq, Structural)]
pub enum LookupError {
    /// Nothing was entered.
    Empty,
    /// What was entered is not a number in decimal digits.
    InvalidDigit,
    /// The number entered is larger than any position can be.
    TooLarge,
    /// The position was zero; positions count from one.
    NotPositive,
    /// No single-byte character starts at this index of a secret of this
    /// many bytes.
    OutOfBounds { index: usize, length: usize },
}

/// Whether one character of `bytes` starts at `index` and ends one byte later.
pub open spec fn single_byte_at(bytes: Seq<u8>, index: int) -> bool {
    &&& 0 <= index < bytes.len()
    &&& is_char_boundary(bytes, index)
    &&& is_char_boundary(bytes.subrange(index, bytes.len() as int), 1)
}

/// The character at `position` of a secret, where positions count from one
/// and in bytes.
///
/// Fails for position zero. Fails also where the byte at that position is
/// not a character by itself: behind the end, or inside a character that
/// takes several bytes.
pub fn lookup_character<'a>(secret: &'a str, position: usize) -> (result: Result<
    &'a str,
    LookupError,
>)
    ensures
        character_at(secret.spec_bytes(), position) == match result {
            Ok(c) => Ok::<Seq<u8>, LookupError>(c.spec_bytes()),
            Err(e) => Err::<Seq<u8>, LookupError>(e),
        },
{
    if position == 0 {
        return Err(LookupError::NotPositive);
    }
    let index = position - 1;
    let length = secret.as_bytes().len();
    if index >= length || !secret.is_char_boundary(index) {
        return Err(LookupError::OutOfBounds { index, length });
    }
    let (_, tail) = secret.split_at(index);
    if !tail.is_char_boundary(1) {
        return Err(LookupError::OutOfBounds { index, length });
    }
    let (c, _) = tail.split_at(1);
    assert(c.spec_bytes() == secret.spec_bytes().subrange(index as int, index + 1));
    Ok(c)
}

/// Whether a character is a decimal digit.
pub open spec fn is_digit(c: char) -> bool {
    0x30 <= (c as u32) <= 0x39
}

/// Whether a text holds decimal digits only.
pub open spec fn all_digits(digits: Seq<char>) -> bool {
    forall|i: int| 0 <= i < digits.len() ==> is_digit(#[trigger] digits[i])
}

/// The number that decimal digits write.
pub open spec fn number(digits: Seq<char>) -> nat
    decreases digits.len(),
{
    if digits.len() == 0 {
        0
    } else {
        number(digits.drop_last()) * 10 + ((digits.last() as u32) - 0x30) as nat
    }
}

/// The digits of a reply: the reply without the white space around it and
/// without a plus sign in front.
pub open spec fn digits_of(reply: Seq<char>) -> Seq<char> {
    let entered = trimmed(reply);
    if entered.len() > 0 && entered[0] == '+' {
        entered.skip(1)
    } else {
        entered
    }
}

/// The position that a reply names: the number its digits write, where it
/// holds digits only and the number is one that a position can be.
pub open spec fn position_of(reply: Seq<char>) -> Result<usize, LookupError> {
    let digits = digits_of(reply);
    if trimmed(reply).len() == 0 {
        Err(LookupError::Empty)
    } else if digits.len() == 0 || !all_digits(digits) {
        Err(LookupError::InvalidDigit)
    } else if number(digits) > usize::MAX {
        Err(LookupError::TooLarge)
    } else {
        Ok(number(digits) as usize)
    }
}

/// The character at a position of a secret, as bytes, or why there is none.
pub open spec fn character_at(bytes: Seq<u8>, position: usize) -> Result<Seq<u8>, LookupError> {
    if position == 0 {
        Err(LookupError::NotPositive)
    } else if single_byte_at(bytes, position - 1) {
        Ok(bytes.subrange(position - 1, position as int))
    } else {
        Err(
            LookupError::OutOfBounds {
                index: (position - 1) as usize,
                length: bytes.len() as usize,
            },
        )
    }
}

/// More digits never write a smaller number.
pub proof fn lemma_number_grows(digits: Seq<char>, k: int)
    requires
        0 <= k <= digits.len(),
    ensures
        number(digits.take(k)) <= number(digits),
    decreases digits.len(),
{
    if k == digits.len() {
        assert(digits.take(k) == digits);
    } else {
        let front = digits.drop_last();
        assert(front.take(k) == digits.take(k));
        lemma_number_grows(front, k);
    }
}

/// Reads the position that a reply names.
pub fn parse_position(reply: &str) -> (position: Result<usize, LookupError>)
    ensures
        position == position_of(reply@),
{
    let entered = trim(reply);
    let chars = chars_of(entered.as_str());
    let n = chars.len();
    if n == 0 {
        return Err(LookupError::Empty);
    }
    let first: usize = if chars[0] == '+' {
        1
    } else {
        0
    };
    let ghost digits = digits_of(reply@);
    assert(digits == chars@.skip(first as int));
    if first == n {
        return Err(LookupError::InvalidDigit);
    }
    let mut i: usize = first;
    while i < n
        invariant
            first <= i <= n,
            first < n,
            n == chars@.len(),
            chars@ == trimmed(reply@),
            digits == digits_of(reply@),
            digits == chars@.skip(first as int),
            all_digits(digits.take(i - first)),
        decreases n - i,
    {
        let code = chars[i] as u32;
        if code < 0x30 || code > 0x39 {
            assert(!is_digit(digits[i - first]));
            return Err(LookupError::InvalidDigit);
        }
        assert forall|k: int| 0 <= k < i + 1 - first implies is_digit(
            #[trigger] digits.take(i + 1 - first)[k],
        ) by {
            if k < i - first {
                assert(digits.take(i - first)[k] == digits[k]);
            }
        }
        i += 1;
    }
    assert(digits.take(n - first) == digits);
    let mut value: usize = 0;
    let mut j: usize = first;
    assert(digits.take(0) =~= Seq::<char>::empty());
    while j < n
        invariant
            first <= j <= n,
            first < n,
            n == chars@.len(),
            chars@ == trimmed(reply@),
            digits == digits_of(reply@),
            digits == chars@.skip(first as int),
            all_digits(digits),
            value == number(digits.take(j - first)),
        decreases n - j,
    {
        assert(is_digit(digits[j - first]));
        let digit = (chars[j] as u32 - 0x30) as usize;
        proof {
            let next = digits.take(j + 1 - first);
            assert(next.drop_last() == digits.take(j - first));
            assert(next.last() == chars@[j as int]);
            lemma_number_grows(digits, j + 1 - first);
        }
        let tens = match value.checked_mul(10) {
            Some(tens) => tens,
            None => {
                return Err(LookupError::TooLarge);
            },
        };
        value = match tens.checked_add(digit) {
            Some(sum) => sum,
            None => {
                return Err(LookupError::TooLarge);
            },
        };
        j += 1;
    }
    assert(digits.take(n - first) == digits);
    Ok(value)
}

/// What a reply to the question for a position leads to.
#[derive(Debug, PartialEq, Eq)]
pub enum Reply<'a> {
    /// Show this character, which stands at this index of the secret, and
    /// ask again.
    Show { index: usize, character: &'a str },
    /// The user has had enough: stop asking.
    Stop,
    /// Stop with this error.
    Fail(LookupError),
}

/// Decides what a reply to the question for a position leads to. `reply` is
/// what the user entered, or `None` where they cancelled.
///
/// Cancelling stops the asking. A reply that names a position at which one
/// character stands shows that character. Every other reply is an error:
/// one that is no number, the position zero, and a position behind the end
/// or inside a character of several bytes.
pub fn lookup_reply<'a>(secret: &'a str, reply: Option<&str>) -> (outcome: Reply<'a>)
    ensures
        match reply {
            None => outcome == Reply::Stop,
            Some(text) => match position_of(text@) {
                Err(e) => outcome == Reply::Fail(e),
                Ok(position) => match character_at(secret.spec_bytes(), position) {
                    Err(e) => outcome == Reply::Fail(e),
                    Ok(bytes) => {
                        &&& outcome matches Reply::Show { index, character }
                        &&& index == position - 1
                        &&& character.spec_bytes() == bytes
                    },
                },
            },
        },
{
    match reply {
        None => Reply::Stop,
        Some(text) => match parse_position(text) {
            Err(e) => Reply::Fail(e),
            Ok(position) => match lookup_character(secret, position) {
                Ok(character) => Reply::Show { index: position - 1, character },
                Err(e) => Reply::Fail(e),
            },
        },
    }
}

} // verus!
