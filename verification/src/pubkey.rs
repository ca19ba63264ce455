//! Identities: the addresses of accounts and of signers.

use vstd::prelude::*;
use vstd::std_specs::cmp::PartialEqSpecImpl;

verus! {

/// Number of bytes in an identity.
pub const PUBKEY_BYTES: usize = 32;

/// The identity of an account or of a signer: 32 bytes with no inner
/// structure. Two identities are the same when their bytes are.
#[derive(Clone, Copy, Debug)]
pub struct Pubkey {
    pub bytes: [u8; 32],
}

impl View for Pubkey {
    type V = Seq<u8>;

    open spec fn view(&self) -> Seq<u8> {
        self.bytes@
    }
}

impl Pubkey {
    /// Makes an identity of the given bytes.
    pub fn new_from_array(bytes: [u8; 32]) -> (key: Pubkey)
        ensures
            key@ == bytes@,
            key.bytes == bytes,
    {
        Pubkey { bytes }
    }

    /// The bytes of the identity.
    pub fn to_bytes(&self) -> (bytes: [u8; 32])
        ensures
            bytes@ == self@,
    {
        self.bytes
    }

    /// Reads an identity from the first 32 bytes of `data` at `offset`.
    pub fn read_from(data: &[u8], offset: usize) -> (key: Pubkey)
        requires
            offset + PUBKEY_BYTES <= data.len(),
        ensures
            key@ == data@.subrange(offset as int, offset + PUBKEY_BYTES),
    {
        let mut bytes: [u8; 32] = [0u8; 32];
        let mut i: usize = 0;
        while i < 32
            invariant
                i <= 32,
                offset + 32 <= data.len(),
                forall|j: int| 0 <= j < i ==> bytes@[j] == data@[offset + j],
            decreases 32 - i,
        {
            bytes[i] = data[offset + i];
            i += 1;
        }
        assert(bytes@ =~= data@.subrange(offset as int, offset + PUBKEY_BYTES));
        Pubkey { bytes }
    }
}

/// The address of the program that owns the records of this ledger.
pub const ID: [u8; 32] = [
    50, 19, 222, 157, 233, 191, 116, 170, 130, 40, 255, 46, 112, 203, 68, 52, 172, 126, 245, 246,
    4, 56, 22, 212, 15, 94, 204, 173, 20, 11, 13, 245,
];

/// The address of the program that owns the records of this ledger.
pub fn id() -> (key: Pubkey)
    ensures
        key@ == ID@,
{
    Pubkey { bytes: ID }
}

impl PartialEq for Pubkey {
    fn eq(&self, other: &Pubkey) -> (same: bool) {
        let mut i: usize = 0;
        while i < 32
            invariant
                i <= 32,
                forall|j: int| 0 <= j < i ==> self.bytes@[j] == other.bytes@[j],
            decreases 32 - i,
        {
            if self.bytes[i] != other.bytes[i] {
                return false;
            }
            i += 1;
        }
        assert(self.bytes@ =~= other.bytes@);
        true
    }
}

impl PartialEqSpecImpl for Pubkey {
    open spec fn obeys_eq_spec() -> bool {
        true
    }

    open spec fn eq_spec(&self, other: &Pubkey) -> bool {
        self@ == other@
    }
}

} // verus!
