use vstd::prelude::*;

use crate::address::{zero_address, Address};
use crate::error::TokenMillError;
use crate::merkle::{keccak_of, merkle_fold, proof_view, verify_proof};
use crate::state::AirdropState;

verus! {

/// The bit of `index` in a claim bitmap is set.
pub open spec fn is_claimed(bitmap: Seq<u8>, index: u64) -> bool {
    index / 8 < bitmap.len() && bitmap[(index / 8) as int] & (1u8 << ((index % 8) as u8)) != 0
}

/// Setting bit `k` of a byte sets it and keeps every other bit.
proof fn lemma_set_bit(b: u8, k: u8, j: u8)
    requires
        k < 8,
        j < 8,
    ensures
        (b | (1u8 << k)) & (1u8 << j) != 0 <==> (k == j || b & (1u8 << j) != 0),
{
    assert((b | (1u8 << k)) & (1u8 << j) != 0 <==> (k == j || b & (1u8 << j) != 0)) by (bit_vector)
        requires
            k < 8,
            j < 8,
    ;
}

/// What an expired airdrop does with the unclaimed tokens.
#[derive(Clone, Copy, Debug, PartialEq, Eq, Structural)]
pub struct ExpiryPlan {
    /// Tokens to burn: three quarters, rounded down.
    pub burn_amount: u64,
    /// The rest, to be swapped.
    pub swap_amount: u64,
    /// Forward the supplied swap instruction to the external program.
    pub forward_swap: bool,
}

impl AirdropState {
    /// A new airdrop under `root` with `bitmap_len` bytes of unclaimed bits.
    pub fn new(bump: u8, root: [u8; 32], expiry: i64, bitmap_len: u32) -> (r: AirdropState)
        ensures
            r.bump == bump,
            r.root == root,
            r.expiry == expiry,
            r.claimed_bitmap@.len() == bitmap_len,
            forall|i: int| 0 <= i < bitmap_len ==> r.claimed_bitmap@[i] == 0,
    {
        AirdropState { bump, root, expiry, claimed_bitmap: vec![0u8; bitmap_len as usize] }
    }

    /// Outcome of claiming `index` with `leaf` and `proof` at time `now`: the
    /// claim bitmap afterwards.
    pub open spec fn claim_spec(self, now: i64, index: u64, leaf: Seq<u8>, proof: Seq<Seq<u8>>) -> Result<
        Seq<u8>,
        TokenMillError,
    > {
        let bitmap = self.claimed_bitmap@;
        if self.expiry > 0 && now > self.expiry {
            Err(TokenMillError::InvalidMarketState)
        } else if merkle_fold(keccak_of(seq![leaf]), proof, index as nat) != self.root@ {
            Err(TokenMillError::InvalidMarketState)
        } else if index / 8 >= bitmap.len() {
            Err(TokenMillError::InvalidMarketState)
        } else if is_claimed(bitmap, index) {
            Err(TokenMillError::InvalidMarketState)
        } else {
            Ok(
                bitmap.update(
                    (index / 8) as int,
                    bitmap[(index / 8) as int] | (1u8 << ((index % 8) as u8)),
                ),
            )
        }
    }

    /// Claims `index`: the airdrop must not have expired, the proof must
    /// place `leaf` at `index` under the root, and the index must be in range
    /// and unclaimed. Only the bit of `index` changes.
    pub fn claim(&mut self, now: i64, index: u64, leaf: &[u8; 32], proof: &Vec<[u8; 32]>) -> (r: Result<
        (),
        TokenMillError,
    >)
        ensures
            final(self).bump == old(self).bump,
            final(self).root == old(self).root,
            final(self).expiry == old(self).expiry,
            match r {
                Ok(()) => old(self).claim_spec(now, index, leaf@, proof_view(proof@)) == Ok::<
                    Seq<u8>,
                    TokenMillError,
                >(final(self).claimed_bitmap@),
                Err(e) => old(self).claim_spec(now, index, leaf@, proof_view(proof@)) == Err::<
                    Seq<u8>,
                    TokenMillError,
                >(e) && final(self).claimed_bitmap@ == old(self).claimed_bitmap@,
            },
            r is Ok ==> is_claimed(final(self).claimed_bitmap@, index),
            r is Ok ==> forall|j: u64|
                j != index ==> #[trigger] is_claimed(final(self).claimed_bitmap@, j) == is_claimed(
                    old(self).claimed_bitmap@,
                    j,
                ),
    {
        if self.expiry > 0 && now > self.expiry {
            return Err(TokenMillError::InvalidMarketState);
        }
        if !verify_proof(leaf.as_slice(), proof, &self.root, index) {
            return Err(TokenMillError::InvalidMarketState);
        }
        let byte_index = index / 8;
        let bit_index = (index % 8) as u8;
        if byte_index >= self.claimed_bitmap.len() as u64 {
            return Err(TokenMillError::InvalidMarketState);
        }
        let mask = 1u8 << bit_index;
        let byte = self.claimed_bitmap[byte_index as usize];
        if byte & mask != 0 {
            return Err(TokenMillError::InvalidMarketState);
        }
        let ghost old_bitmap = self.claimed_bitmap@;
        self.claimed_bitmap.set(byte_index as usize, byte | mask);
        proof {
            lemma_set_bit(byte, bit_index, bit_index);
            assert forall|j: u64| j != index implies #[trigger] is_claimed(self.claimed_bitmap@, j) == is_claimed(
                old_bitmap,
                j,
            ) by {
                if j / 8 == index / 8 {
                    lemma_set_bit(byte, bit_index, (j % 8) as u8);
                }
            }
        }
        Ok(())
    }

    /// Plan for the tokens left unclaimed once the airdrop expired: three
    /// quarters are burned and the rest swapped, through the supplied
    /// instruction when it is non-empty and the program non-zero, which then
    /// needs at least one auxiliary account.
    pub fn expiry_plan(
        &self,
        now: i64,
        total_unclaimed: u64,
        swap_ix: &Option<Vec<u8>>,
        external_program: &Address,
        n_accounts: usize,
    ) -> (r: Result<ExpiryPlan, TokenMillError>)
        ensures
            ({
                let forward = swap_ix matches Some(v) && v@.len() > 0 && external_program@ != zero_address();
                if self.expiry <= 0 || now <= self.expiry {
                    r == Err::<ExpiryPlan, TokenMillError>(TokenMillError::InvalidMarketState)
                } else if total_unclaimed * 75 > u64::MAX {
                    r == Err::<ExpiryPlan, TokenMillError>(TokenMillError::MathOverflow)
                } else if forward && n_accounts == 0 {
                    r == Err::<ExpiryPlan, TokenMillError>(TokenMillError::InvalidMarketState)
                } else {
                    r == Ok::<ExpiryPlan, TokenMillError>(
                        ExpiryPlan {
                            burn_amount: (total_unclaimed * 75 / 100) as u64,
                            swap_amount: (total_unclaimed - total_unclaimed * 75 / 100) as u64,
                            forward_swap: forward,
                        },
                    )
                }
            }),
    {
        if self.expiry <= 0 || now <= self.expiry {
            return Err(TokenMillError::InvalidMarketState);
        }
        let burn_amount = match total_unclaimed.checked_mul(75) {
            Some(v) => v / 100,
            None => return Err(TokenMillError::MathOverflow),
        };
        let swap_amount = total_unclaimed - burn_amount;
        let forward_swap = match swap_ix {
            Some(v) => v.len() > 0 && !external_program.is_zero(),
            None => false,
        };
        if forward_swap && n_accounts == 0 {
            return Err(TokenMillError::InvalidMarketState);
        }
        Ok(ExpiryPlan { burn_amount, swap_amount, forward_swap })
    }
}

} // verus!
