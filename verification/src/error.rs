//! What can go wrong in a line of a device.
use vstd::prelude::*;
use vstd::string::*;

use crate::number::{decimal, push_decimal, IntFault};
use crate::text::Utf8Fault;

verus! {

/// Why a line cannot be decoded.
#[derive(Clone, Copy, Debug, PartialEq, Eq)]
pub enum CodecError {
    /// The line is not UTF-8.
    Utf8(Utf8Fault),
    /// One of its numbers cannot be read.
    Number(IntFault),
}

impl CodecError {
    /// The error in words.
    pub open spec fn message(self) -> Seq<char> {
        match self {
            CodecError::Number(IntFault::Empty) => "cannot parse integer from empty string"@,
            CodecError::Number(IntFault::InvalidDigit) => "invalid digit found in string"@,
            CodecError::Number(
                IntFault::PosOverflow,
            ) => "number too large to fit in target type"@,
            CodecError::Number(
                IntFault::NegOverflow,
            ) => "number too small to fit in target type"@,
            CodecError::Utf8(fault) => match fault.error_len {
                Some(len) => "invalid utf-8 sequence of "@ + decimal(len as nat)
                    + " bytes from index "@ + decimal(fault.valid_up_to as nat),
                None => "incomplete utf-8 byte sequence from index "@ + decimal(
                    fault.valid_up_to as nat,
                ),
            },
        }
    }

    /// Gives the error in words.
    pub fn to_string(&self) -> (text: String)
        ensures
            text@ == self.message(),
    {
        let mut text = String::new();
        match self {
            CodecError::Number(fault) => {
                let words = match fault {
                    IntFault::Empty => "cannot parse integer from empty string",
                    IntFault::InvalidDigit => "invalid digit found in string",
                    IntFault::PosOverflow => "number too large to fit in target type",
                    IntFault::NegOverflow => "number too small to fit in target type",
                };
                text.append(words);
            },
            CodecError::Utf8(fault) => {
                match fault.error_len {
                    Some(len) => {
                        text.append("invalid utf-8 sequence of ");
                        push_decimal(&mut text, len as u64);
                        text.append(" bytes from index ");
                    },
                    None => {
                        text.append("incomplete utf-8 byte sequence from index ");
                    },
                }
                push_decimal(&mut text, fault.valid_up_to as u64);
            },
        }
        proof {
            assert(text@ =~= self.message());
        }
        text
    }
}

/// What is said of bytes that are not UTF-8: where the text ends, and how many bytes there are no
/// character, or that the bytes end too early.
pub proof fn utf8_fault_in_words(valid_up_to: usize, len: usize)
    ensures
        CodecError::Utf8(Utf8Fault { valid_up_to, error_len: Some(len) }).message()
            == "invalid utf-8 sequence of "@ + decimal(len as nat) + " bytes from index "@
            + decimal(valid_up_to as nat),
        CodecError::Utf8(Utf8Fault { valid_up_to, error_len: None }).message()
            == "incomplete utf-8 byte sequence from index "@ + decimal(valid_up_to as nat),
{
}

/// No two faults of a number are described alike.
pub proof fn number_faults_differ_in_words(a: IntFault, b: IntFault)
    requires
        CodecError::Number(a).message() == CodecError::Number(b).message(),
    ensures
        a == b,
{
    reveal_strlit("cannot parse integer from empty string");
    reveal_strlit("invalid digit found in string");
    reveal_strlit("number too large to fit in target type");
    reveal_strlit("number too small to fit in target type");
    assert("number too large to fit in target type"@[11] == 'l');
    assert("number too small to fit in target type"@[11] == 's');
    assert("cannot parse integer from empty string"@[0] == 'c');
}

} // verus!
