//! Transformations applied to a secret before it is shown.
//!
//! A secret that is an `otpauth://` URL is not shown as it is: what the user
//! wants is the one-time code it stands for. This module recognises such a
//! secret and hands out the URL; making the code from it needs the clock and
//! is the caller's part.

use vstd::prelude::*;

use crate::text::bytes_to_string;
use crate::text::text_of;

verus! {

/// What every `otpauth` URL starts with, as bytes.
pub open spec fn otpauth_prefix() -> Seq<u8> {
    seq![0x6f, 0x74, 0x70, 0x61, 0x75, 0x74, 0x68, 0x3a, 0x2f, 0x2f]
}

/// Why a secret could not be transformed.
#[derive(Clone, Copy, Debug, PartialEq, Eq, Structural)]
pub enum TransformError {
    /// The secret is not UTF-8 text.
    NotUtf8,
}

/// What is to be shown in place of a secret.
#[derive(Debug)]
pub enum Transformed {
    /// The secret itself, as it was.
    Unchanged(Vec<u8>),
    /// The current one-time code of this `otpauth` URL.
    OneTimeCode(String),
}

/// The transformation of `otpauth://` URLs into one-time codes.
pub struct OtpauthUrl {}

impl OtpauthUrl {
    /// Whether the secret is an `otpauth` URL: whether it starts with
    /// `otpauth://`. Never fails.
    pub fn applies(data: &[u8]) -> (result: Result<bool, TransformError>)
        ensures
            result == Ok::<bool, TransformError>(otpauth_prefix().is_prefix_of(data@)),
    {
        let expected: [u8; 10] = [0x6f, 0x74, 0x70, 0x61, 0x75, 0x74, 0x68, 0x3a, 0x2f, 0x2f];
        assert(expected@ =~= otpauth_prefix());
        if data.len() < 10 {
            return Ok(false);
        }
        let mut i: usize = 0;
        while i < 10
            invariant
                i <= 10,
                data@.len() >= 10,
                expected@ == otpauth_prefix(),
                forall|j: int| 0 <= j < i ==> data@[j] == expected@[j],
            decreases 10 - i,
        {
            if data[i] != expected[i] {
                assert(data@.subrange(0, 10)[i as int] != otpauth_prefix()[i as int]);
                return Ok(false);
            }
            i += 1;
        }
        assert(data@.subrange(0, 10) =~= otpauth_prefix());
        Ok(true)
    }

    /// The URL in the secret: its text without the white space around it.
    /// Fails exactly when the secret is not UTF-8.
    pub fn apply(data: &[u8]) -> (result: Result<String, TransformError>)
        ensures
            match result {
                Ok(url) => text_of(data@) == Some(url@),
                Err(e) => text_of(data@) is None && e == TransformError::NotUtf8,
            },
    {
        match bytes_to_string(data) {
            Some(url) => Ok(url),
            None => Err(TransformError::NotUtf8),
        }
    }
}

/// Decides what is shown for a secret: the one-time code of its URL where
/// it is an `otpauth` URL, and the secret unchanged where it is not.
pub fn process(data: Vec<u8>) -> (result: Result<Transformed, TransformError>)
    ensures
        match result {
            Ok(Transformed::Unchanged(same)) => {
                &&& !otpauth_prefix().is_prefix_of(data@)
                &&& same@ == data@
            },
            Ok(Transformed::OneTimeCode(url)) => {
                &&& otpauth_prefix().is_prefix_of(data@)
                &&& text_of(data@) == Some(url@)
            },
            Err(e) => {
                &&& otpauth_prefix().is_prefix_of(data@)
                &&& text_of(data@) is None
                &&& e == TransformError::NotUtf8
            },
        },
{
    match OtpauthUrl::applies(data.as_slice()) {
        Ok(true) => match OtpauthUrl::apply(data.as_slice()) {
            Ok(url) => Ok(Transformed::OneTimeCode(url)),
            Err(e) => Err(e),
        },
        _ => Ok(Transformed::Unchanged(data)),
    }
}

} // verus!
