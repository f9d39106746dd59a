//! Dispute resolution: an approved mediator splits the escrow balance by
//! percentages, finalizing the purchase.

use vstd::prelude::*;
use vstd::arithmetic::div_mod::{
    lemma_div_is_ordered,
    lemma_div_multiples_vanish,
    lemma_fundamental_div_mod,
    lemma_mod_bound,
};
use vstd::arithmetic::mul::{
    lemma_mul_inequality,
    lemma_mul_is_commutative,
    lemma_mul_is_distributive_add,
    lemma_mul_upper_bound,
};
use crate::error::{InglError, MarketError};
use crate::state::{
    escrow_account_seed, is_approved_mediator, program_storage_seed, spec_check_parsed,
    spec_escrow_account_seed, spec_mediators, spec_program_storage_seed, spec_team_address,
    team_address, MediationShares, Purchase, Storage, StorageView,
};
use crate::utils::{spec_assert_seed, AccountFacts, AccountInfoHelpers, Address};

verus! {

/// How a mediation decision pays the escrow balance out: the buyer's and the
/// seller's percentage shares rounded down, and the rest — remainder included
/// — to the team.
#[derive(Clone, Copy, Debug, PartialEq, Eq, Structural)]
pub struct MediationPayout {
    pub to_buyer: u64,
    pub to_seller: u64,
    pub to_team: u64,
}

/// A percentage share of the escrow balance, rounded down.
pub open spec fn spec_share_of(escrow_balance: u64, percent: u8) -> int {
    escrow_balance * percent / 100
}

/// A percentage share of at most 100 never exceeds the balance.
proof fn lemma_share_fits(escrow_balance: u64, percent: u8)
    requires
        percent <= 100,
    ensures
        0 <= spec_share_of(escrow_balance, percent) <= escrow_balance,
{
    let e = escrow_balance as int;
    lemma_mul_inequality(percent as int, 100, e);
    lemma_mul_is_commutative(percent as int, e);
    lemma_mul_is_commutative(100, e);
    lemma_div_is_ordered(e * percent, e * 100, 100);
    lemma_div_multiples_vanish(e, 100);
    lemma_div_is_ordered(0, e * percent, 100);
}

/// Two percentage shares that together stay within 100 percent pay out at
/// most the whole balance, so the team's remainder never underflows.
pub proof fn lemma_shares_fit(escrow_balance: u64, buyer_percent: u8, seller_percent: u8)
    requires
        buyer_percent + seller_percent <= 100,
    ensures
        0 <= spec_share_of(escrow_balance, buyer_percent) + spec_share_of(
            escrow_balance,
            seller_percent,
        ) <= escrow_balance,
{
    let e = escrow_balance as int;
    let b = buyer_percent as int;
    let sl = seller_percent as int;
    lemma_share_fits(escrow_balance, buyer_percent);
    lemma_share_fits(escrow_balance, seller_percent);
    lemma_fundamental_div_mod(e * b, 100);
    lemma_fundamental_div_mod(e * sl, 100);
    lemma_mod_bound(e * b, 100);
    lemma_mod_bound(e * sl, 100);
    lemma_mul_is_distributive_add(e, b, sl);
    lemma_mul_inequality(b + sl, 100, e);
    lemma_mul_is_commutative(b + sl, e);
    lemma_mul_is_commutative(100, e);
    assert(100 * (e * b / 100 + e * sl / 100) <= e * 100);
}

/// What a mediation decision decides and changes: each precondition in its
/// order; then the escrow balance split by the shares — buyer and seller
/// rounded down, the team absorbing the remainder — the dispute marked
/// resolved, the shares recorded, and the purchase finalized.
pub open spec fn spec_mediate(
    program_id: Address,
    payer_account: AccountFacts,
    authorized_withdrawer_key: Address,
    storage_account: AccountFacts,
    s: StorageView,
    buyer_key: Address,
    escrow_account: AccountFacts,
    team_key: Address,
    shares: MediationShares,
    now: u32,
) -> Result<(StorageView, MediationPayout), MarketError> {
    if !payer_account.is_signer {
        Err(MarketError::MissingRequiredSignature)
    } else if !spec_mediators().contains(payer_account.key) {
        Err(MarketError::Ingl(InglError::NotAuthorized))
    } else {
        match spec_assert_seed(storage_account.key, spec_program_storage_seed(), program_id) {
            Err(e) => Err(e),
            Ok(_) => match spec_assert_seed(
                escrow_account.key,
                spec_escrow_account_seed(),
                program_id,
            ) {
                Err(e) => Err(e),
                Ok(_) => if team_key != spec_team_address() {
                    Err(MarketError::Ingl(InglError::AddressMismatch))
                } else {
                    match spec_check_parsed(
                        storage_account.owner,
                        program_id,
                        s.validation_phrase,
                    ) {
                        Err(e) => Err(e),
                        Ok(_) => if s.purchase matches Some(p) && p.date_finalized is Some {
                            Err(MarketError::Ingl(InglError::TooLate))
                        } else if authorized_withdrawer_key != s.authorized_withdrawer {
                            Err(MarketError::Ingl(InglError::AddressMismatch))
                        } else if s.request_mediation_date is None {
                            Err(MarketError::Ingl(InglError::TooEarly))
                        } else if s.mediation_date is Some {
                            Err(MarketError::Ingl(InglError::TooLate))
                        } else {
                            match s.purchase {
                                None => Err(MarketError::Ingl(InglError::OptionUnwrapError)),
                                Some(p) => if buyer_key != p.buyer {
                                    Err(MarketError::Ingl(InglError::AddressMismatch))
                                } else if !shares.sums_to_100() {
                                    Err(MarketError::Ingl(InglError::InvalidData))
                                } else {
                                    let e = escrow_account.lamports;
                                    let to_buyer = spec_share_of(e, shares.buyer);
                                    let to_seller = spec_share_of(e, shares.seller);
                                    let payout = MediationPayout {
                                        to_buyer: to_buyer as u64,
                                        to_seller: to_seller as u64,
                                        to_team: (e - to_buyer - to_seller) as u64,
                                    };
                                    let s2 = StorageView {
                                        mediation_date: Some(now),
                                        mediation_shares: Some(shares),
                                        purchase: Some(Purchase { date_finalized: Some(now), ..p }),
                                        ..s
                                    };
                                    Ok((s2, payout))
                                },
                            }
                        },
                    }
                },
            },
        }
    }
}

/// Splits the escrow balance by a mediation decision and marks the dispute
/// resolved. On any failure the ledger is left untouched and the failing
/// check's error is returned. The whole balance is always paid out: the
/// rounding remainder goes to the team, so the three payouts never exceed
/// the balance.
pub fn mediate(
    program_id: &Address,
    payer_account: &AccountFacts,
    authorized_withdrawer: &AccountFacts,
    storage_account: &AccountFacts,
    storage: &mut Storage,
    buyer_account: &AccountFacts,
    escrow_account: &AccountFacts,
    team_account: &AccountFacts,
    mediation_shares: MediationShares,
    now: u32,
) -> (r: Result<MediationPayout, MarketError>)
    ensures
        ({
            let t = spec_mediate(
                *program_id,
                *payer_account,
                authorized_withdrawer.key,
                *storage_account,
                old(storage)@,
                buyer_account.key,
                *escrow_account,
                team_account.key,
                mediation_shares,
                now,
            );
            match r {
                Ok(payout) => t matches Ok(p) && final(storage)@ == p.0 && payout == p.1
                    && payout.to_buyer + payout.to_seller + payout.to_team
                    == escrow_account.lamports,
                Err(e) => t == Err::<(StorageView, MediationPayout), MarketError>(e)
                    && final(storage)@ == old(storage)@,
            }
        }),
{
    if let Err(e) = payer_account.assert_signer() {
        return Err(e);
    }
    if !is_approved_mediator(&payer_account.key) {
        return Err(InglError::NotAuthorized.utilize());
    }
    let seed = program_storage_seed();
    if let Err(e) = storage_account.assert_seed(program_id, seed.as_slice()) {
        return Err(e);
    }
    let escrow_seed = escrow_account_seed();
    if let Err(e) = escrow_account.assert_seed(program_id, escrow_seed.as_slice()) {
        return Err(e);
    }
    let team = team_address();
    if let Err(e) = team_account.assert_key_match(&team) {
        return Err(e);
    }
    if let Err(e) = storage.check_parsed(&storage_account.owner, program_id) {
        return Err(e);
    }
    if let Some(p) = storage.purchase {
        if p.date_finalized.is_some() {
            return Err(InglError::TooLate.utilize());
        }
    }
    if let Err(e) = authorized_withdrawer.assert_key_match(&storage.authorized_withdrawer) {
        return Err(e);
    }
    if storage.request_mediation_date.is_none() {
        return Err(InglError::TooEarly.utilize());
    }
    if storage.mediation_date.is_some() {
        return Err(InglError::TooLate.utilize());
    }
    let purchase = match storage.purchase {
        Some(p) => p,
        None => {
            return Err(InglError::OptionUnwrapError.utilize());
        },
    };
    if let Err(e) = buyer_account.assert_key_match(&purchase.buyer) {
        return Err(e);
    }
    if let Err(e) = mediation_shares.verify_sum() {
        return Err(e);
    }
    let e_bal = escrow_account.lamports;
    proof {
        lemma_mul_upper_bound(e_bal as int, u64::MAX as int, mediation_shares.buyer as int, 100);
        lemma_mul_upper_bound(e_bal as int, u64::MAX as int, mediation_shares.seller as int, 100);
        lemma_share_fits(e_bal, mediation_shares.buyer);
        lemma_share_fits(e_bal, mediation_shares.seller);
        lemma_shares_fit(e_bal, mediation_shares.buyer, mediation_shares.seller);
    }
    let to_buyer = ((e_bal as u128) * (mediation_shares.buyer as u128) / 100) as u64;
    let to_seller = ((e_bal as u128) * (mediation_shares.seller as u128) / 100) as u64;
    let to_team = e_bal - to_buyer - to_seller;
    storage.mediation_date = Some(now);
    storage.mediation_shares = Some(mediation_shares);
    storage.purchase = Some(Purchase { date_finalized: Some(now), ..purchase });
    let payout = MediationPayout { to_buyer, to_seller, to_team };
    proof {
        let t = spec_mediate(
            *program_id,
            *payer_account,
            authorized_withdrawer.key,
            *storage_account,
            old(storage)@,
            buyer_account.key,
            *escrow_account,
            team_account.key,
            mediation_shares,
            now,
        );
        assert(t matches Ok(p) && storage@ =~= p.0 && payout == p.1);
    }
    Ok(payout)
}


/// A mediation decision keeps the ledger well formed: the decision date is
/// set only after a request was found recorded, and the stored shares passed
/// the sum check.
pub proof fn lemma_mediate_preserves_well_formed(
    program_id: Address,
    payer_account: AccountFacts,
    authorized_withdrawer_key: Address,
    storage_account: AccountFacts,
    s: StorageView,
    buyer_key: Address,
    escrow_account: AccountFacts,
    team_key: Address,
    shares: MediationShares,
    now: u32,
)
    requires
        crate::state::spec_storage_well_formed(s),
    ensures
        spec_mediate(
            program_id,
            payer_account,
            authorized_withdrawer_key,
            storage_account,
            s,
            buyer_key,
            escrow_account,
            team_key,
            shares,
            now,
        ) matches Ok(p) ==> crate::state::spec_storage_well_formed(p.0),
{
}

} // verus!
