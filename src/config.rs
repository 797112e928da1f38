use vstd::prelude::*;

use crate::address::Address;
use crate::state::{Market, TokenMillConfig};

verus! {

impl TokenMillConfig {
    /// A configuration with the given authority, fee recipient and shares, an
    /// empty forwarding allow-list and no forwarded accounts allowed.
    pub fn new(
        authority: Address,
        protocol_fee_recipient: Address,
        protocol_fee_share: u16,
        referral_fee_share: u16,
    ) -> (r: TokenMillConfig)
        ensures
            r.authority == authority,
            r.pending_authority is None,
            r.protocol_fee_recipient == protocol_fee_recipient,
            r.default_protocol_fee_share == protocol_fee_share,
            r.referral_fee_share == referral_fee_share,
            r.cpi_whitelist@.len() == 0,
            r.max_forwarded_accounts == 0,
    {
        TokenMillConfig {
            authority,
            pending_authority: None,
            protocol_fee_recipient,
            default_protocol_fee_share: protocol_fee_share,
            referral_fee_share,
            cpi_whitelist: Vec::new(),
            max_forwarded_accounts: 0,
        }
    }

    /// Replaces the forwarding allow-list and the forwarded-account cap.
    pub fn set_cpi_whitelist(&mut self, whitelist: Vec<Address>, max_forwarded_accounts: u8)
        ensures
            final(self).cpi_whitelist@ == whitelist@,
            final(self).max_forwarded_accounts == max_forwarded_accounts,
            final(self).authority == old(self).authority,
            final(self).pending_authority == old(self).pending_authority,
            final(self).protocol_fee_recipient == old(self).protocol_fee_recipient,
            final(self).default_protocol_fee_share == old(self).default_protocol_fee_share,
            final(self).referral_fee_share == old(self).referral_fee_share,
    {
        self.cpi_whitelist = whitelist;
        self.max_forwarded_accounts = max_forwarded_accounts;
    }
}

/// A mint whose authorities are revoked, and which of them.
#[derive(Clone, Copy, Debug)]
pub struct Revocation {
    pub mint: Address,
    /// The minting authority is revoked.
    pub mint_tokens: bool,
    /// The freeze authority is revoked.
    pub freeze_account: bool,
}

/// The mints whose minting and freeze authorities the market gives up: the
/// base mint, and the quote mint too when it is a different mint.
pub fn revocation_targets(base_mint: &Address, quote_mint: &Address) -> (r: Vec<Revocation>)
    ensures
        r@.len() == if base_mint@ == quote_mint@ {
            1int
        } else {
            2int
        },
        r@[0].mint@ == base_mint@,
        r@.len() == 2 ==> r@[1].mint@ == quote_mint@,
        forall|i: int| 0 <= i < r@.len() ==> (#[trigger] r@[i]).mint_tokens && r@[i].freeze_account,
{
    let mut targets: Vec<Revocation> = Vec::new();
    targets.push(Revocation { mint: *base_mint, mint_tokens: true, freeze_account: true });
    if !quote_mint.same(base_mint) {
        targets.push(Revocation { mint: *quote_mint, mint_tokens: true, freeze_account: true });
    }
    targets
}

impl Market {
    /// Records that the mint and freeze authorities were given up.
    pub fn mark_authorities_revoked(&mut self)
        ensures
            *final(self) == (Market { mint_revoked: true, freeze_revoked: true, ..*old(self) }),
    {
        self.mint_revoked = true;
        self.freeze_revoked = true;
    }
}

} // verus!
