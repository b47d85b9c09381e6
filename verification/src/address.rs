use vstd::prelude::*;

verus! {

/// Whether an address names an account (an Ed25519 key) or a contract.
#[derive(Clone, Copy, Debug, PartialEq, Eq, Structural)]
pub enum AddressKind {
    Account,
    Contract,
}

/// An address on the ledger: its kind and the 32 bytes of its payload.
#[derive(Clone, Copy, Debug)]
pub struct Address {
    pub kind: AddressKind,
    pub key: [u8; 32],
}

/// Two addresses are the same when they have the same kind and payload.
pub open spec fn same_address(a: Address, b: Address) -> bool {
    a.kind == b.kind && a.key@ == b.key@
}

/// Compares two 32-byte strings byte by byte.
pub fn bytes32_eq(a: &[u8; 32], b: &[u8; 32]) -> (r: bool)
    ensures
        r == (a@ == b@),
{
    let mut i: usize = 0;
    while i < 32
        invariant
            0 <= i <= 32,
            a@.len() == 32,
            b@.len() == 32,
            forall|j: int| 0 <= j < i ==> a@[j] == b@[j],
        decreases 32 - i,
    {
        if a[i] != b[i] {
            return false;
        }
        i = i + 1;
    }
    assert(a@ =~= b@);
    true
}

impl Address {
    /// Whether `self` and `other` are the same address.
    pub fn same_as(&self, other: &Address) -> (r: bool)
        ensures
            r == same_address(*self, *other),
    {
        self.kind == other.kind && bytes32_eq(&self.key, &other.key)
    }
}

} // verus!
