//! Plain-value types shared by the three contracts.

use vstd::prelude::*;

verus! {

broadcast use vstd::array::group_array_axioms;

/// Identifies a trade. The same 32 bytes name it in all three contracts.
pub type TradeId = [u8; 32];

/// A 32-byte digest over a canonical serialisation of a trade record.
pub type Digest = [u8; 32];

/// A ledger address, held as the 56 characters of its strkey
/// (`G...` for an account, `C...` for a contract).
#[derive(Clone, Copy, Debug, PartialEq, Eq)]
pub struct Address {
    pub strkey: [u8; 56],
}

/// What an operation reads from the ledger it runs on.
#[derive(Clone, Copy, Debug, PartialEq, Eq)]
pub struct Context {
    /// The address of the contract being invoked.
    pub contract: Address,
    /// The ledger's close time, in seconds.
    pub timestamp: u64,
    /// The ledger's sequence number.
    pub sequence: u32,
}

/// A movement of `amount` units of the token at `token` from `from` to `to`.
#[derive(Clone, Copy, Debug, PartialEq, Eq)]
pub struct Transfer {
    pub token: Address,
    pub from: Address,
    pub to: Address,
    pub amount: i128,
}

/// The outcome of invoking a contract operation: the addresses whose
/// signature it demands, in the order it demands them, and its result.
///
/// A demanded signature that is missing aborts the whole invocation, and with
/// it every change the operation made; the result and the contract's new state
/// are what holds when every demanded signature was given.
#[derive(Debug)]
pub struct Invocation<T, E> {
    pub signers: Vec<Address>,
    pub result: Result<T, E>,
}

/// Whether two 32-byte values are the same.
pub fn same_bytes(a: &[u8; 32], b: &[u8; 32]) -> (r: bool)
    ensures
        r == (*a == *b),
{
    let mut i: usize = 0;
    while i < 32
        invariant
            i <= 32,
            forall|j: int| 0 <= j < i ==> a[j] == b[j],
        decreases 32 - i,
    {
        if a[i] != b[i] {
            return false;
        }
        i = i + 1;
    }
    assert(*a =~= *b);
    true
}

} // verus!
