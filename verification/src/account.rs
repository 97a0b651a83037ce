//! Accounts: owner-tagged storage slots of fixed capacity.

use crate::pubkey::Pubkey;
use vstd::prelude::*;

verus! {

/// A storage slot. The length of `data` is the slot's capacity; nothing
/// here ever changes it.
#[derive(Debug, Clone, PartialEq, Eq)]
pub struct Account {
    /// The identity that may change `data`.
    pub owner: Pubkey,
    /// The stored bytes.
    pub data: Vec<u8>,
    /// Whether the environment handed the account out for writing.
    pub is_writable: bool,
}

/// An account as contracts see it.
pub struct AccountView {
    pub owner: Pubkey,
    pub data: Seq<u8>,
    pub is_writable: bool,
}

impl View for Account {
    type V = AccountView;

    open spec fn view(&self) -> AccountView {
        AccountView { owner: self.owner, data: self.data@, is_writable: self.is_writable }
    }
}

/// Why a write was refused.
#[derive(Debug, Clone, Copy, PartialEq, Eq, Structural)]
pub enum WriteError {
    /// The bytes would reach past the end of the slot.
    OutOfCapacity,
}

/// `data` with `bytes` laid over it from `offset` on.
pub open spec fn overlay(data: Seq<u8>, offset: int, bytes: Seq<u8>) -> Seq<u8>
    recommends
        0 <= offset,
        offset + bytes.len() <= data.len(),
{
    data.take(offset) + bytes + data.skip(offset + bytes.len())
}

impl Account {
    /// Copies `bytes` into the slot, starting at `offset`. Bytes that would
    /// not fit are refused as a whole: the slot is then left as it was.
    pub fn write_bytes(&mut self, offset: usize, bytes: &[u8]) -> (r: Result<(), WriteError>)
        ensures
            r is Ok <==> offset + bytes@.len() <= old(self).data@.len(),
            r is Ok ==> final(self)@ == (AccountView {
                data: overlay(old(self).data@, offset as int, bytes@),
                ..old(self)@
            }),
            r is Err ==> *final(self) == *old(self),
    {
        let capacity = self.data.len();
        if offset > capacity || bytes.len() > capacity - offset {
            return Err(WriteError::OutOfCapacity);
        }
        let mut i: usize = 0;
        while i < bytes.len()
            invariant
                i <= bytes@.len(),
                offset + bytes@.len() <= capacity,
                self.data@.len() == capacity,
                self.owner == old(self).owner,
                self.is_writable == old(self).is_writable,
                old(self).data@.len() == capacity,
                self.data@ == overlay(old(self).data@, offset as int, bytes@.take(i as int)),
            decreases bytes@.len() - i,
        {
            self.data.set(offset + i, bytes[i]);
            i = i + 1;
        }
        proof {
            assert(bytes@.take(i as int) =~= bytes@);
        }
        Ok(())
    }
}

} // verus!
