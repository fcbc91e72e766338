//! The bytes of a stored vault record: a structure of fixed size that holds
//! the seed, the bump seed, the two mints, the initializer and the two
//! amounts, integers in little-endian order.

use crate::address::{address_of, lemma_address_of, lemma_address_of_bytes, Address};
use crate::states::Vault;
use vstd::bytes::{
    lemma_auto_spec_u64_to_from_le_bytes, spec_u64_from_le_bytes, spec_u64_to_le_bytes,
    u64_from_le_bytes, u64_to_le_bytes,
};
use vstd::prelude::*;
use vstd::slice::slice_subrange;

verus! {

/// The size of a stored vault record in bytes.
pub const VAULT_LEN: usize = 121;

/// The bytes of a vault record.
pub open spec fn packed(v: Vault) -> Seq<u8> {
    spec_u64_to_le_bytes(v.seed) + seq![v.bump] + v.mint_a@ + v.mint_b@ + v.initializer@
        + spec_u64_to_le_bytes(v.initializer_amount) + spec_u64_to_le_bytes(v.taker_amount)
}

/// The vault record that bytes stand for, where they have the size of one.
pub open spec fn unpacked(b: Seq<u8>) -> Option<Vault> {
    if b.len() != VAULT_LEN {
        None
    } else {
        Some(
            Vault {
                seed: spec_u64_from_le_bytes(b.subrange(0, 8)),
                bump: b[8],
                mint_a: address_of(b.subrange(9, 41)),
                mint_b: address_of(b.subrange(41, 73)),
                initializer: address_of(b.subrange(73, 105)),
                initializer_amount: spec_u64_from_le_bytes(b.subrange(105, 113)),
                taker_amount: spec_u64_from_le_bytes(b.subrange(113, 121)),
            },
        )
    }
}

/// The bytes of a record have the fixed size, and stand for the record.
pub proof fn law_unpack_pack(v: Vault)
    ensures
        packed(v).len() == VAULT_LEN,
        unpacked(packed(v)) == Some(v),
{
    lemma_auto_spec_u64_to_from_le_bytes();
    let b = packed(v);
    assert(v.mint_a@.len() == 32 && v.mint_b@.len() == 32 && v.initializer@.len() == 32);
    assert(b.subrange(0, 8) =~= spec_u64_to_le_bytes(v.seed));
    assert(b.subrange(9, 41) =~= v.mint_a@);
    assert(b.subrange(41, 73) =~= v.mint_b@);
    assert(b.subrange(73, 105) =~= v.initializer@);
    assert(b.subrange(105, 113) =~= spec_u64_to_le_bytes(v.initializer_amount));
    assert(b.subrange(113, 121) =~= spec_u64_to_le_bytes(v.taker_amount));
    lemma_address_of(v.mint_a);
    lemma_address_of(v.mint_b);
    lemma_address_of(v.initializer);
}

/// Bytes of the fixed size are the bytes of the record that they stand for.
pub proof fn law_pack_unpack(b: Seq<u8>)
    requires
        b.len() == VAULT_LEN,
    ensures
        unpacked(b) matches Some(v) && packed(v) == b,
{
    lemma_auto_spec_u64_to_from_le_bytes();
    lemma_address_of_bytes(b.subrange(9, 41));
    lemma_address_of_bytes(b.subrange(41, 73));
    lemma_address_of_bytes(b.subrange(73, 105));
    let v = unpacked(b)->0;
    assert(spec_u64_to_le_bytes(v.seed) == b.subrange(0, 8));
    assert(spec_u64_to_le_bytes(v.initializer_amount) == b.subrange(105, 113));
    assert(spec_u64_to_le_bytes(v.taker_amount) == b.subrange(113, 121));
    assert(packed(v) =~= b);
}

impl Vault {
    /// The bytes of the record.
    pub fn pack(&self) -> (r: Vec<u8>)
        ensures
            r@ == packed(*self),
            r@.len() == VAULT_LEN,
    {
        let mut r = u64_to_le_bytes(self.seed);
        r.push(self.bump);
        let mint_a = self.mint_a.to_vec();
        r.extend_from_slice(mint_a.as_slice());
        let mint_b = self.mint_b.to_vec();
        r.extend_from_slice(mint_b.as_slice());
        let initializer = self.initializer.to_vec();
        r.extend_from_slice(initializer.as_slice());
        let initializer_amount = u64_to_le_bytes(self.initializer_amount);
        r.extend_from_slice(initializer_amount.as_slice());
        let taker_amount = u64_to_le_bytes(self.taker_amount);
        r.extend_from_slice(taker_amount.as_slice());
        proof {
            assert(r@ =~= packed(*self));
            law_unpack_pack(*self);
        }
        r
    }

    /// The record that `bytes` stand for, where they have the size of one.
    pub fn unpack(bytes: &[u8]) -> (r: Option<Vault>)
        ensures
            r == unpacked(bytes@),
    {
        if bytes.len() != VAULT_LEN {
            return None;
        }
        let seed = u64_from_le_bytes(slice_subrange(bytes, 0, 8));
        let bump = bytes[8];
        let mint_a = Address::from_slice(slice_subrange(bytes, 9, 41));
        let mint_b = Address::from_slice(slice_subrange(bytes, 41, 73));
        let initializer = Address::from_slice(slice_subrange(bytes, 73, 105));
        let initializer_amount = u64_from_le_bytes(slice_subrange(bytes, 105, 113));
        let taker_amount = u64_from_le_bytes(slice_subrange(bytes, 113, 121));
        match (mint_a, mint_b, initializer) {
            (Some(mint_a), Some(mint_b), Some(initializer)) => Some(
                Vault {
                    seed,
                    bump,
                    mint_a,
                    mint_b,
                    initializer,
                    initializer_amount,
                    taker_amount,
                },
            ),
            _ => None,
        }
    }
}

} // verus!
