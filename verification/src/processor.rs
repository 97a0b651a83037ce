//! The instruction handler: replaces the greeting stored in the first
//! account with the one carried by the instruction.

use crate::account::{overlay, Account, AccountView};
use crate::pubkey::Pubkey;
use crate::state::{decode_or_default, GreetingAccount};
use crate::wire::{lemma_wire_bytes_of_parse, parse_wire, prefix_value, wire_bytes};
use vstd::prelude::*;

verus! {

/// Why an instruction was refused.
#[derive(Debug, Clone, Copy, PartialEq, Eq, Structural)]
pub enum HandlerError {
    /// No account was supplied.
    MissingAccount,
    /// The first account belongs to another program.
    Unauthorized,
    /// The instruction data is not a well-formed record.
    InvalidPayload,
    /// The record is longer than the account's storage.
    BufferTooSmall,
}

/// The accounts as contracts see them.
pub open spec fn views(accounts: Seq<Account>) -> Seq<AccountView> {
    accounts.map_values(|a: Account| a@)
}

/// Whether an instruction is carried out, and if not, why. The checks run
/// in this order: an account is there, the program owns it, the payload is a
/// record, the record fits.
pub open spec fn verdict(program_id: Pubkey, accounts: Seq<AccountView>, payload: Seq<u8>) -> Result<
    (),
    HandlerError,
> {
    if accounts.len() == 0 {
        Err(HandlerError::MissingAccount)
    } else if accounts[0].owner != program_id {
        Err(HandlerError::Unauthorized)
    } else {
        match parse_wire(payload) {
            None => Err(HandlerError::InvalidPayload),
            Some(text) => if wire_bytes(text).len() > accounts[0].data.len() {
                Err(HandlerError::BufferTooSmall)
            } else {
                Ok(())
            },
        }
    }
}

/// The accounts after an instruction. A refused instruction changes
/// nothing; one carried out lays the record's bytes over the start of the
/// first account's storage.
pub open spec fn accounts_after(
    program_id: Pubkey,
    accounts: Seq<AccountView>,
    payload: Seq<u8>,
) -> Seq<AccountView> {
    if verdict(program_id, accounts, payload) is Ok {
        accounts.update(
            0,
            AccountView {
                data: overlay(accounts[0].data, 0, wire_bytes(parse_wire(payload)->Some_0)),
                ..accounts[0]
            },
        )
    } else {
        accounts
    }
}

/// Stores the greeting carried by `instruction_data` in the first of
/// `accounts`, which `program_id` must own. What the account held before
/// is read, and replaced by the placeholder where it cannot be read, but
/// none of it survives: the stored text becomes the instruction's text.
pub fn process_instruction(
    program_id: &Pubkey,
    accounts: &mut Vec<Account>,
    instruction_data: &[u8],
) -> (r: Result<(), HandlerError>)
    ensures
        r == verdict(*program_id, views(old(accounts)@), instruction_data@),
        views(final(accounts)@) == accounts_after(
            *program_id,
            views(old(accounts)@),
            instruction_data@,
        ),
{
    if accounts.len() == 0 {
        return Err(HandlerError::MissingAccount);
    }
    if accounts[0].owner != *program_id {
        return Err(HandlerError::Unauthorized);
    }
    let mut greeting_account = decode_or_default(accounts[0].data.as_slice());
    let message = match GreetingAccount::try_from_slice(instruction_data) {
        Ok(message) => message,
        Err(_) => {
            return Err(HandlerError::InvalidPayload);
        },
    };
    greeting_account.name = message.name;
    proof {
        // A text read from a record is never too long to be written again.
        lemma_wire_bytes_of_parse(instruction_data@);
    }
    let bytes = match greeting_account.try_to_vec() {
        Ok(bytes) => bytes,
        Err(_) => {
            return Err(HandlerError::InvalidPayload);
        },
    };
    let written = accounts[0].write_bytes(0, bytes.as_slice());
    proof {
        assert(views(accounts@) =~= accounts_after(
            *program_id,
            views(old(accounts)@),
            instruction_data@,
        ));
    }
    match written {
        Ok(()) => Ok(()),
        Err(_) => Err(HandlerError::BufferTooSmall),
    }
}

/// What an account holds before an instruction never decides whether the
/// instruction is carried out: two runs that differ only in the bytes
/// stored in the first account, readable or not, end with the same verdict
/// and, where carried out, with the same record at the start of the storage.
pub proof fn lemma_stored_bytes_do_not_decide(
    program_id: Pubkey,
    first: Seq<AccountView>,
    second: Seq<AccountView>,
    payload: Seq<u8>,
)
    requires
        first.len() == second.len(),
        first.len() > 0 ==> first[0].owner == second[0].owner,
        first.len() > 0 ==> first[0].data.len() == second[0].data.len(),
    ensures
        verdict(program_id, first, payload) == verdict(program_id, second, payload),
        verdict(program_id, first, payload) is Ok ==> accounts_after(
            program_id,
            first,
            payload,
        )[0].data.take(payload.len() as int) == accounts_after(
            program_id,
            second,
            payload,
        )[0].data.take(payload.len() as int),
{
    if verdict(program_id, first, payload) is Ok {
        lemma_record_is_stored(program_id, first, payload);
        lemma_record_is_stored(program_id, second, payload);
    }
}

/// An account of another owner is refused, and nothing is written.
pub proof fn lemma_ownership_gate(program_id: Pubkey, accounts: Seq<AccountView>, payload: Seq<u8>)
    requires
        accounts.len() > 0,
        accounts[0].owner != program_id,
    ensures
        verdict(program_id, accounts, payload) == Err::<(), HandlerError>(
            HandlerError::Unauthorized,
        ),
        accounts_after(program_id, accounts, payload) == accounts,
{
}

/// A payload that is not a record is refused, and nothing is written.
pub proof fn lemma_payload_rejection(
    program_id: Pubkey,
    accounts: Seq<AccountView>,
    payload: Seq<u8>,
)
    requires
        accounts.len() > 0,
        accounts[0].owner == program_id,
        parse_wire(payload) is None,
    ensures
        verdict(program_id, accounts, payload) == Err::<(), HandlerError>(
            HandlerError::InvalidPayload,
        ),
        accounts_after(program_id, accounts, payload) == accounts,
{
}

/// A prefix that announces more, or fewer, bytes than follow it makes the
/// payload no record.
pub proof fn lemma_wrong_length_is_no_record(payload: Seq<u8>)
    requires
        payload.len() < 4 || prefix_value(payload) != payload.len() - 4,
    ensures
        parse_wire(payload) is None,
{
}

/// After an instruction that was carried out, the storage starts with the
/// payload itself, byte for byte, and reading those bytes gives the
/// payload's text: nothing of the text held before is left in the record.
/// The bytes behind the record, the owner and the other accounts stay.
pub proof fn lemma_record_is_stored(
    program_id: Pubkey,
    accounts: Seq<AccountView>,
    payload: Seq<u8>,
)
    requires
        verdict(program_id, accounts, payload) is Ok,
    ensures
        ({
            let after = accounts_after(program_id, accounts, payload);
            let n = payload.len() as int;
            &&& after.len() == accounts.len()
            &&& after[0].owner == accounts[0].owner
            &&& after[0].is_writable == accounts[0].is_writable
            &&& after[0].data.len() == accounts[0].data.len()
            &&& after[0].data.take(n) == payload
            &&& after[0].data.skip(n) == accounts[0].data.skip(n)
            &&& parse_wire(after[0].data.take(n)) == parse_wire(payload)
            &&& forall|i: int| 1 <= i < accounts.len() ==> after[i] == accounts[i]
        }),
{
    lemma_wire_bytes_of_parse(payload);
    let after = accounts_after(program_id, accounts, payload);
    let n = payload.len() as int;
    assert(after[0].data.take(n) =~= payload);
    assert(after[0].data.skip(n) =~= accounts[0].data.skip(n));
}

/// Storage of exactly the record's size takes the record and then reads
/// back as the payload's text; storage one byte shorter is refused.
pub proof fn lemma_capacity_boundary(
    program_id: Pubkey,
    accounts: Seq<AccountView>,
    payload: Seq<u8>,
)
    requires
        accounts.len() > 0,
        accounts[0].owner == program_id,
        parse_wire(payload) is Some,
    ensures
        verdict(program_id, accounts, payload) is Ok <==> payload.len() <= accounts[0].data.len(),
        accounts[0].data.len() == payload.len() ==> parse_wire(
            accounts_after(program_id, accounts, payload)[0].data,
        ) == parse_wire(payload),
        accounts[0].data.len() + 1 == payload.len() ==> verdict(program_id, accounts, payload)
            == Err::<(), HandlerError>(HandlerError::BufferTooSmall),
{
    lemma_wire_bytes_of_parse(payload);
    if accounts[0].data.len() == payload.len() {
        lemma_record_is_stored(program_id, accounts, payload);
        let after = accounts_after(program_id, accounts, payload);
        assert(after[0].data.take(payload.len() as int) =~= after[0].data);
    }
}

} // verus!
