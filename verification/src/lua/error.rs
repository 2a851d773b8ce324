//! Errors that a native function hands back to the engine.

use vstd::prelude::*;
use vstd::string::StringExecFns;
use vstd::utf8::{decode_utf8, valid_utf8};
use core::str::Utf8Error;
use crate::lua::stack::FromStackError;

verus! {

/// std's report of where bytes stop being UTF-8.
#[verifier::external_type_specification]
#[verifier::external_body]
pub struct ExUtf8Error(Utf8Error);

/// Reads `bytes` as UTF-8 text with `std::str::from_utf8`: it succeeds exactly on well-formed
/// UTF-8, and the text is then what the bytes encode.
#[verifier::external_body]
pub(crate) fn text_of(bytes: &[u8]) -> (text: Result<&str, Utf8Error>)
    ensures
        text is Ok <==> valid_utf8(bytes@),
        text matches Ok(s) ==> s@ == decode_utf8(bytes@),
{
    core::str::from_utf8(bytes)
}

/// The text that std shows for a UTF-8 error.
pub uninterp spec fn utf8_error_text(err: Utf8Error) -> Seq<char>;

/// Renders a UTF-8 error as std displays it, with `ToString::to_string`.
#[verifier::external_body]
pub(crate) fn describe_utf8_error(err: &Utf8Error) -> (text: String)
    ensures
        text@ == utf8_error_text(*err),
{
    err.to_string()
}

/// The decimal digit `d`.
pub open spec fn digit_text(d: int) -> Seq<char> {
    if d == 0 {
        "0"@
    } else if d == 1 {
        "1"@
    } else if d == 2 {
        "2"@
    } else if d == 3 {
        "3"@
    } else if d == 4 {
        "4"@
    } else if d == 5 {
        "5"@
    } else if d == 6 {
        "6"@
    } else if d == 7 {
        "7"@
    } else if d == 8 {
        "8"@
    } else {
        "9"@
    }
}

/// The decimal digits of `n`, most significant first.
pub open spec fn digits_text(n: nat) -> Seq<char>
    decreases n,
{
    if n < 10 {
        digit_text(n as int)
    } else {
        digits_text(n / 10) + digit_text((n % 10) as int)
    }
}

/// `n` in decimal, with a minus sign where it is negative.
pub open spec fn decimal_text(n: int) -> Seq<char> {
    if n < 0 {
        "-"@ + digits_text((-n) as nat)
    } else {
        digits_text(n as nat)
    }
}

fn digit(d: u32) -> (text: &'static str)
    requires
        d < 10,
    ensures
        text@ == digit_text(d as int),
{
    match d {
        0 => "0",
        1 => "1",
        2 => "2",
        3 => "3",
        4 => "4",
        5 => "5",
        6 => "6",
        7 => "7",
        8 => "8",
        _ => "9",
    }
}

fn digits(n: u32) -> (text: String)
    ensures
        text@ == digits_text(n as nat),
    decreases n,
{
    if n < 10 {
        String::from_str(digit(n))
    } else {
        let mut text = digits(n / 10);
        text.append(digit(n % 10));
        text
    }
}

/// Renders `n` in decimal.
pub fn decimal(n: i32) -> (text: String)
    ensures
        text@ == decimal_text(n as int),
{
    if n < 0 {
        let magnitude: u32 = if n == i32::MIN { 2147483648u32 } else { (-n) as u32 };
        let mut text = String::from_str("-");
        let tail = digits(magnitude);
        text.append(tail.as_str());
        text
    } else {
        digits(n as u32)
    }
}

/// What a native function fails with.
#[derive(Debug, PartialEq, Eq)]
pub enum Error {
    /// A message of the caller's own.
    CustomMessage(String),
    /// The engine's own error value, as bytes.
    CustomBytes(Vec<u8>),
    /// A value on the stack is not what the function takes.
    Generic(FromStackError),
}

/// What is shown for engine bytes that are no text.
pub open spec fn unreadable_bytes_message() -> Seq<char> {
    "Error::CustomBytes, failed to convert to string"@
}

impl Error {
    /// The text that the engine is given for this error.
    pub open spec fn message_text(self) -> Seq<char> {
        match self {
            Error::CustomMessage(msg) => msg@,
            Error::CustomBytes(bytes) => if valid_utf8(bytes@) {
                decode_utf8(bytes@)
            } else {
                unreadable_bytes_message()
            },
            Error::Generic(err) => err.message_text(),
        }
    }

    /// The message of the error, as text.
    pub fn message(&self) -> (text: String)
        ensures
            text@ == self.message_text(),
    {
        match self {
            Error::CustomMessage(msg) => msg.clone(),
            Error::CustomBytes(bytes) => match text_of(bytes.as_slice()) {
                Ok(string) => String::from_str(string),
                Err(_) => String::from_str("Error::CustomBytes, failed to convert to string"),
            },
            Error::Generic(err) => err.message(),
        }
    }
}

/// Returns an error with custom message.
pub fn error_message(message: &str) -> (failed: Result<(), Error>)
    ensures
        failed matches Err(Error::CustomMessage(msg)) && msg@ == message@,
{
    Err(Error::CustomMessage(String::from_str(message)))
}

} // verus!
