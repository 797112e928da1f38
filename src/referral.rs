use vstd::prelude::*;

use crate::address::Address;
use crate::error::TokenMillError;
use crate::state::ReferralAccount;

verus! {

impl ReferralAccount {
    /// A referral record of `owner` under `config`, crediting `referrer`.
    pub fn new(bump: u8, config: Address, referrer: Address, owner: Address) -> (r: ReferralAccount)
        ensures
            r.bump == bump,
            r.config == config,
            r.referrer == referrer,
            r.owner == owner,
            r.pending_lamports == 0,
    {
        ReferralAccount { bump, config, referrer, owner, pending_lamports: 0 }
    }

    /// Records a referral fee paid into this record; unchanged on overflow.
    pub fn credit(&mut self, lamports: u64) -> (r: Result<(), TokenMillError>)
        ensures
            old(self).pending_lamports + lamports <= u64::MAX ==> r is Ok && *final(self) == (ReferralAccount {
                pending_lamports: (old(self).pending_lamports + lamports) as u64,
                ..*old(self)
            }),
            old(self).pending_lamports + lamports > u64::MAX ==> r == Err::<(), TokenMillError>(
                TokenMillError::MathOverflow,
            ) && *final(self) == *old(self),
    {
        match self.pending_lamports.checked_add(lamports) {
            Some(v) => {
                self.pending_lamports = v;
                Ok(())
            },
            None => Err(TokenMillError::MathOverflow),
        }
    }

    /// Hands out the pending lamports for the referrer to claim and clears them.
    pub fn take_pending(&mut self) -> (r: u64)
        ensures
            r == old(self).pending_lamports,
            *final(self) == (ReferralAccount { pending_lamports: 0, ..*old(self) }),
    {
        let pending = self.pending_lamports;
        self.pending_lamports = 0;
        pending
    }
}

} // verus!
