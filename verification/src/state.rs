//! The state stored in a greeted account.

use crate::wire::{borsh_read_text, borsh_write_text, encodable, parse_wire, wire_bytes};
use vstd::prelude::*;
use vstd::string::StringExecFns;

verus! {

/// The record kept in an account: one text.
#[derive(Debug, Clone, PartialEq, Eq)]
pub struct GreetingAccount {
    /// The greeting text.
    pub name: String,
}

impl View for GreetingAccount {
    type V = Seq<char>;

    open spec fn view(&self) -> Seq<char> {
        self.name@
    }
}

/// The placeholder text: forty-five zero digits.
pub open spec fn placeholder_text() -> Seq<char> {
    Seq::new(45, |i: int| '0')
}

/// The record that stands in for stored bytes that cannot be read.
pub fn init_greeting_account() -> (r: GreetingAccount)
    ensures
        r@ == placeholder_text(),
{
    let name = String::from_str("000000000000000000000000000000000000000000000");
    proof {
        reveal_strlit("000000000000000000000000000000000000000000000");
        assert(name@ =~= placeholder_text());
    }
    GreetingAccount { name }
}

/// Why a record could not be written or read.
#[derive(Debug, Clone, Copy, PartialEq, Eq, Structural)]
pub enum RecordError {
    /// The text is too long for the length prefix.
    TooLong,
    /// The bytes are not one well-formed record.
    Malformed,
}

impl GreetingAccount {
    /// The bytes of this record, unless its text is too long for the
    /// length prefix.
    pub fn try_to_vec(&self) -> (r: Result<Vec<u8>, RecordError>)
        ensures
            match r {
                Ok(bytes) => encodable(self@) && bytes@ == wire_bytes(self@),
                Err(e) => !encodable(self@) && e == RecordError::TooLong,
            },
    {
        match borsh_write_text(&self.name) {
            Ok(bytes) => Ok(bytes),
            Err(_) => Err(RecordError::TooLong),
        }
    }

    /// Reads a record from `v`, which must hold one well-formed record and
    /// nothing else.
    pub fn try_from_slice(v: &[u8]) -> (r: Result<GreetingAccount, RecordError>)
        ensures
            match r {
                Ok(record) => parse_wire(v@) == Some(record@),
                Err(e) => parse_wire(v@) is None && e == RecordError::Malformed,
            },
    {
        match borsh_read_text(v) {
            Ok(name) => Ok(GreetingAccount { name }),
            Err(_) => Err(RecordError::Malformed),
        }
    }
}

/// What `decode_or_default` returns for `bytes`.
pub open spec fn stored_text(bytes: Seq<u8>) -> Seq<char> {
    match parse_wire(bytes) {
        Some(text) => text,
        None => placeholder_text(),
    }
}

/// Reads the record stored in `bytes`; unreadable bytes give the
/// placeholder record instead of an error.
pub fn decode_or_default(bytes: &[u8]) -> (r: GreetingAccount)
    ensures
        r@ == stored_text(bytes@),
{
    match GreetingAccount::try_from_slice(bytes) {
        Ok(record) => record,
        Err(_) => init_greeting_account(),
    }
}

} // verus!
