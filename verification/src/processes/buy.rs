//! Purchase of the listing: the fee split over the price, the escrow deposit,
//! the ledger transition that records the purchase, and the checks before the
//! validator's withdrawal authority moves to the buyer.

use vstd::prelude::*;
use vstd::arithmetic::div_mod::{
    lemma_div_is_ordered,
    lemma_div_multiples_vanish,
    lemma_fundamental_div_mod,
};
use vstd::arithmetic::mul::{lemma_mul_inequality, lemma_mul_upper_bound};
use crate::error::{InglError, MarketError};
use crate::state::{
    spec_check_parsed, spec_clock_sysvar_id, spec_escrow_account_seed, spec_items_cost,
    spec_pda_authorized_withdrawer_seed, spec_program_storage_seed, spec_team_address,
    spec_vote_program_id, escrow_account_seed, pda_authorized_withdrawer_seed,
    program_storage_seed, sum_secondary_item_costs, team_address, Purchase, Storage, StorageView,
    ESCROWED_BASIS_POINTS, TEAM_FEES_BASIS_POINTS,
};
use crate::utils::{spec_assert_seed, AccountFacts, AccountInfoHelpers, Address};

verus! {

/// How the payment for a purchase splits: the seller's cut, the escrow
/// deposit (price carve-out plus twice the secondary items' total cost), and
/// the team's fee.
#[derive(Clone, Copy, Debug, PartialEq, Eq, Structural)]
pub struct FeeSplit {
    pub to_owner: u64,
    pub to_escrow: u64,
    pub to_team: u64,
}

/// Basis points of the price carved out to escrow: the full carve-out when
/// secondary items exist, none otherwise.
pub open spec fn spec_escrow_basis_points(has_items: bool) -> int {
    if has_items {
        ESCROWED_BASIS_POINTS as int
    } else {
        0
    }
}

/// The seller's cut of the price: the price scaled by the basis points left
/// after the escrow carve-out and the team fee, rounded down.
pub open spec fn spec_owner_cut(cost: u64, has_items: bool) -> int {
    cost * (10000 - spec_escrow_basis_points(has_items) - TEAM_FEES_BASIS_POINTS as int) / 10000
}

/// The escrow carve-out of the price, rounded down.
pub open spec fn spec_escrow_cut(cost: u64, has_items: bool) -> int {
    cost * spec_escrow_basis_points(has_items) / 10000
}

/// The team's fee on the price, rounded down.
pub open spec fn spec_team_cut(cost: u64) -> int {
    cost * TEAM_FEES_BASIS_POINTS as int / 10000
}

/// A cut of the price at `bp` of 10000 basis points never exceeds the price.
proof fn lemma_cut_fits(cost: u64, bp: int)
    requires
        0 <= bp <= 10000,
    ensures
        0 <= cost * bp / 10000 <= cost,
{
    lemma_mul_inequality(bp, 10000, cost as int);
    lemma_div_is_ordered(cost as int * bp, cost as int * 10000, 10000);
    lemma_div_multiples_vanish(cost as int, 10000);
    lemma_div_is_ordered(0, cost as int * bp, 10000);
}

/// Computes the split of the price for a purchase. The escrow receives the
/// price carve-out plus twice the items' total cost: the buyer's item payment
/// and a matching seller-side security deposit. Fails only when that escrow
/// deposit does not fit in 64 bits.
pub fn compute_fee_split(cost: u64, items_cost: u64, has_items: bool) -> (r: Result<
    FeeSplit,
    MarketError,
>)
    ensures
        r matches Ok(split) ==> ({
            &&& split.to_owner == spec_owner_cut(cost, has_items)
            &&& split.to_escrow == 2 * items_cost + spec_escrow_cut(cost, has_items)
            &&& split.to_team == spec_team_cut(cost)
        }),
        r is Ok <==> 2 * items_cost + spec_escrow_cut(cost, has_items) <= u64::MAX,
        r is Err ==> r == Err::<FeeSplit, MarketError>(MarketError::Ingl(InglError::BeyondBounds)),
{
    let bp: u16 = if has_items {
        ESCROWED_BASIS_POINTS
    } else {
        0
    };
    let owner_bp: u16 = 10000 - bp - TEAM_FEES_BASIS_POINTS;
    proof {
        lemma_mul_upper_bound(cost as int, u64::MAX as int, owner_bp as int, 10000);
        lemma_mul_upper_bound(cost as int, u64::MAX as int, bp as int, 10000);
        lemma_mul_upper_bound(cost as int, u64::MAX as int, TEAM_FEES_BASIS_POINTS as int, 10000);
        lemma_cut_fits(cost, owner_bp as int);
        lemma_cut_fits(cost, bp as int);
        lemma_cut_fits(cost, TEAM_FEES_BASIS_POINTS as int);
    }
    let to_owner = ((cost as u128) * (owner_bp as u128) / 10000) as u64;
    let escrow_cut = ((cost as u128) * (bp as u128) / 10000) as u64;
    let to_team = ((cost as u128) * (TEAM_FEES_BASIS_POINTS as u128) / 10000) as u64;
    let to_escrow_wide = 2 * (items_cost as u128) + (escrow_cut as u128);
    if to_escrow_wide > u64::MAX as u128 {
        return Err(InglError::BeyondBounds.utilize());
    }
    Ok(FeeSplit { to_owner, to_escrow: to_escrow_wide as u64, to_team })
}

/// What a purchase decides and changes: each precondition in its order, then
/// the fee split and the ledger with the purchase recorded. The purchase is
/// finalized immediately exactly when there is nothing left to settle.
pub open spec fn spec_verify_transfer(
    program_id: Address,
    payer_key: Address,
    storage_account: AccountFacts,
    s: StorageView,
    registered_aw_key: Address,
    escrow_key: Address,
    team_key: Address,
    now: u32,
) -> Result<(StorageView, FeeSplit), MarketError> {
    match spec_assert_seed(storage_account.key, spec_program_storage_seed(), program_id) {
        Err(e) => Err(e),
        Ok(_) => match spec_check_parsed(storage_account.owner, program_id, s.validation_phrase) {
            Err(e) => Err(e),
            Ok(_) => if registered_aw_key != s.authorized_withdrawer {
                Err(MarketError::Ingl(InglError::AddressMismatch))
            } else {
                match spec_assert_seed(escrow_key, spec_escrow_account_seed(), program_id) {
                    Err(e) => Err(e),
                    Ok(_) => if team_key != spec_team_address() {
                        Err(MarketError::Ingl(InglError::AddressMismatch))
                    } else if s.purchase is Some {
                        Err(MarketError::Ingl(InglError::TooLate))
                    } else {
                        let has_items = s.secondary_items.len() > 0;
                        let items_cost = spec_items_cost(s.secondary_items);
                        if items_cost > u64::MAX {
                            Err(MarketError::Ingl(InglError::BeyondBounds))
                        } else if 2 * items_cost + spec_escrow_cut(
                            s.authorized_withdrawer_cost,
                            has_items,
                        ) > u64::MAX {
                            Err(MarketError::Ingl(InglError::BeyondBounds))
                        } else {
                            let purchase = Purchase {
                                buyer: payer_key,
                                date: now,
                                date_finalized: if s.secondary_items.len() == 0 {
                                    Some(now)
                                } else {
                                    None
                                },
                            };
                            let split = FeeSplit {
                                to_owner: spec_owner_cut(
                                    s.authorized_withdrawer_cost,
                                    has_items,
                                ) as u64,
                                to_escrow: (2 * items_cost + spec_escrow_cut(
                                    s.authorized_withdrawer_cost,
                                    has_items,
                                )) as u64,
                                to_team: spec_team_cut(s.authorized_withdrawer_cost) as u64,
                            };
                            Ok((StorageView { purchase: Some(purchase), ..s }, split))
                        }
                    },
                }
            },
        },
    }
}

/// Checks the purchase's preconditions against the ledger and the supplied accounts,
/// computes the fee split, and records the purchase. On any failure the
/// ledger is left untouched and the failing check's error is returned.
pub fn verify_transfer_cost_and_edit_storage(
    program_id: &Address,
    payer_account: &AccountFacts,
    storage_account: &AccountFacts,
    storage: &mut Storage,
    registered_authorized_withdrawer: &AccountFacts,
    escrow_account: &AccountFacts,
    team_account: &AccountFacts,
    now: u32,
) -> (r: Result<FeeSplit, MarketError>)
    ensures
        ({
            let t = spec_verify_transfer(
                *program_id,
                payer_account.key,
                *storage_account,
                old(storage)@,
                registered_authorized_withdrawer.key,
                escrow_account.key,
                team_account.key,
                now,
            );
            match r {
                Ok(split) => t matches Ok(p) && final(storage)@ == p.0 && split == p.1,
                Err(e) => t == Err::<(StorageView, FeeSplit), MarketError>(e) && final(storage)@
                    == old(storage)@,
            }
        }),
{
    let seed = program_storage_seed();
    if let Err(e) = storage_account.assert_seed(program_id, seed.as_slice()) {
        return Err(e);
    }
    if let Err(e) = storage.check_parsed(&storage_account.owner, program_id) {
        return Err(e);
    }
    if let Err(e) = registered_authorized_withdrawer.assert_key_match(
        &storage.authorized_withdrawer,
    ) {
        return Err(e);
    }
    let escrow_seed = escrow_account_seed();
    if let Err(e) = escrow_account.assert_seed(program_id, escrow_seed.as_slice()) {
        return Err(e);
    }
    let team = team_address();
    if let Err(e) = team_account.assert_key_match(&team) {
        return Err(e);
    }
    if storage.purchase.is_some() {
        return Err(InglError::TooLate.utilize());
    }
    let items_cost = match sum_secondary_item_costs(&storage.secondary_items) {
        Ok(v) => v,
        Err(e) => { return Err(e) },
    };
    let has_items = storage.secondary_items.len() > 0;
    let split = match compute_fee_split(storage.authorized_withdrawer_cost, items_cost, has_items) {
        Ok(v) => v,
        Err(e) => { return Err(e) },
    };
    let date_finalized: Option<u32> = if storage.secondary_items.len() == 0 {
        Some(now)
    } else {
        None
    };
    storage.purchase = Some(Purchase { buyer: payer_account.key, date: now, date_finalized });
    proof {
        let t = spec_verify_transfer(
            *program_id,
            payer_account.key,
            *storage_account,
            old(storage)@,
            registered_authorized_withdrawer.key,
            escrow_account.key,
            team_account.key,
            now,
        );
        assert(t matches Ok(p) && storage@ =~= p.0 && split == p.1);
    }
    Ok(split)
}

/// The checks before the validator's withdrawal authority is reassigned by
/// the protocol's withdrawer proxy: the vote account is owned by the vote
/// program, the supplied clock account is the clock sysvar, and the proxy
/// account is the derived withdrawer-proxy identity, whose bump seed is
/// returned for signing.
pub open spec fn spec_change_authorized_withdrawer(
    program_id: Address,
    vote_account: AccountFacts,
    sysvar_clock_key: Address,
    pda_authorized_withdrawer_key: Address,
) -> Result<u8, MarketError> {
    if vote_account.owner != spec_vote_program_id() {
        Err(MarketError::Ingl(InglError::AddressMismatch))
    } else if sysvar_clock_key != spec_clock_sysvar_id() {
        Err(MarketError::Ingl(InglError::AddressMismatch))
    } else {
        match spec_assert_seed(
            pda_authorized_withdrawer_key,
            spec_pda_authorized_withdrawer_seed(),
            program_id,
        ) {
            Ok((key, bump)) => Ok(bump),
            Err(e) => Err(e),
        }
    }
}

/// Checks the preconditions of the withdrawal-authority handover to the buyer; the
/// handover itself is a runtime instruction signed with the returned bump
/// seed.
pub fn change_authorized_withdrawer(
    program_id: &Address,
    vote_account: &AccountFacts,
    pda_authorized_withdrawer: &AccountFacts,
    sysvar_clock_account: &AccountFacts,
) -> (r: Result<u8, MarketError>)
    ensures
        r == spec_change_authorized_withdrawer(
            *program_id,
            *vote_account,
            sysvar_clock_account.key,
            pda_authorized_withdrawer.key,
        ),
{
    let vote_program = crate::state::vote_program_id();
    if let Err(e) = vote_account.assert_owner(&vote_program) {
        return Err(e);
    }
    let clock_id = crate::state::clock_sysvar_id();
    if let Err(e) = sysvar_clock_account.assert_key_match(&clock_id) {
        return Err(e);
    }
    let seed = pda_authorized_withdrawer_seed();
    match pda_authorized_withdrawer.assert_seed(program_id, seed.as_slice()) {
        Ok((_key, bump)) => Ok(bump),
        Err(e) => Err(e),
    }
}

/// What buying the listing decides as a whole: the authority-handover preconditions,
/// then the payment preconditions and the ledger transition.
pub open spec fn spec_buy_validator(
    program_id: Address,
    payer: AccountFacts,
    storage_account: AccountFacts,
    s: StorageView,
    registered_aw_key: Address,
    vote_account: AccountFacts,
    sysvar_clock_key: Address,
    pda_authorized_withdrawer_key: Address,
    escrow_key: Address,
    team_key: Address,
    now: u32,
) -> Result<(StorageView, FeeSplit, u8), MarketError> {
    match spec_change_authorized_withdrawer(
        program_id,
        vote_account,
        sysvar_clock_key,
        pda_authorized_withdrawer_key,
    ) {
        Err(e) => Err(e),
        Ok(bump) => match spec_verify_transfer(
            program_id,
            payer.key,
            storage_account,
            s,
            registered_aw_key,
            escrow_key,
            team_key,
            now,
        ) {
            Err(e) => Err(e),
            Ok((s2, split)) => Ok((s2, split, bump)),
        },
    }
}

/// Buys the listing: verifies every precondition, records the purchase in the ledger
/// and returns the fee split together with the withdrawer proxy's bump seed
/// for the authority handover. The handover preconditions are checked before the
/// ledger is edited, so any failure leaves the record untouched.
pub fn buy_validator(
    program_id: &Address,
    payer_account: &AccountFacts,
    storage_account: &AccountFacts,
    storage: &mut Storage,
    registered_authorized_withdrawer: &AccountFacts,
    vote_account: &AccountFacts,
    sysvar_clock_account: &AccountFacts,
    pda_authorized_withdrawer: &AccountFacts,
    escrow_account: &AccountFacts,
    team_account: &AccountFacts,
    now: u32,
) -> (r: Result<(FeeSplit, u8), MarketError>)
    ensures
        ({
            let t = spec_buy_validator(
                *program_id,
                *payer_account,
                *storage_account,
                old(storage)@,
                registered_authorized_withdrawer.key,
                *vote_account,
                sysvar_clock_account.key,
                pda_authorized_withdrawer.key,
                escrow_account.key,
                team_account.key,
                now,
            );
            match r {
                Ok((split, bump)) => t matches Ok(p) && final(storage)@ == p.0 && split == p.1
                    && bump == p.2,
                Err(e) => t == Err::<(StorageView, FeeSplit, u8), MarketError>(e)
                    && final(storage)@ == old(storage)@,
            }
        }),
{
    let bump = match change_authorized_withdrawer(
        program_id,
        vote_account,
        pda_authorized_withdrawer,
        sysvar_clock_account,
    ) {
        Ok(b) => b,
        Err(e) => { return Err(e) },
    };
    let split = match verify_transfer_cost_and_edit_storage(
        program_id,
        payer_account,
        storage_account,
        storage,
        registered_authorized_withdrawer,
        escrow_account,
        team_account,
        now,
    ) {
        Ok(s) => s,
        Err(e) => { return Err(e) },
    };
    Ok((split, bump))
}

/// For every price, the three shares of the fee split when secondary items
/// exist return the whole price up to an integer rounding loss of at most two
/// units: the seller's cut plus the escrow carve-out plus the team fee is
/// between the price minus two and the price.
pub proof fn lemma_fee_split_conserves_price(cost: u64)
    ensures
        spec_owner_cut(cost, true) + spec_escrow_cut(cost, true) + spec_team_cut(cost) <= cost,
        cost - 2 <= spec_owner_cut(cost, true) + spec_escrow_cut(cost, true) + spec_team_cut(cost),
{
    let c = cost as int;
    let a1 = c * 7990;
    let a2 = c * 2000;
    let a3 = c * 10;
    lemma_fundamental_div_mod(a1, 10000);
    lemma_fundamental_div_mod(a2, 10000);
    lemma_fundamental_div_mod(a3, 10000);
    let q1 = a1 / 10000;
    let q2 = a2 / 10000;
    let q3 = a3 / 10000;
    let r1 = a1 % 10000;
    let r2 = a2 % 10000;
    let r3 = a3 % 10000;
    vstd::arithmetic::div_mod::lemma_mod_bound(a1, 10000);
    vstd::arithmetic::div_mod::lemma_mod_bound(a2, 10000);
    vstd::arithmetic::div_mod::lemma_mod_bound(a3, 10000);
    assert(a1 + a2 + a3 == c * 10000);
    assert(c * 10000 == 10000 * (q1 + q2 + q3) + (r1 + r2 + r3));
    assert(0 <= r1 + r2 + r3 < 30000);
    assert(q1 + q2 + q3 <= c);
    assert(c - 2 <= q1 + q2 + q3);
    assert(spec_owner_cut(cost, true) == q1);
    assert(spec_escrow_cut(cost, true) == q2);
    assert(spec_team_cut(cost) == q3);
}

/// Once a purchase succeeds, the ledger records the buyer and the purchase
/// date, is finalized immediately exactly when there are no secondary items,
/// and a second purchase against the new ledger fails with `TooLate`,
/// whoever attempts it and whenever.
pub proof fn lemma_buy_twice_fails(
    program_id: Address,
    payer1: Address,
    payer2: Address,
    storage_account: AccountFacts,
    s: StorageView,
    registered_aw_key: Address,
    escrow_key: Address,
    team_key: Address,
    now1: u32,
    now2: u32,
)
    requires
        spec_verify_transfer(
            program_id,
            payer1,
            storage_account,
            s,
            registered_aw_key,
            escrow_key,
            team_key,
            now1,
        ) is Ok,
    ensures
        spec_verify_transfer(
            program_id,
            payer1,
            storage_account,
            s,
            registered_aw_key,
            escrow_key,
            team_key,
            now1,
        ) matches Ok(p) ==> ({
            &&& p.0.purchase matches Some(purchase) && purchase.buyer == payer1 && purchase.date
                == now1
            &&& ((p.0.purchase matches Some(purchase) && purchase.date_finalized is Some) <==> s.secondary_items.len() == 0)
            &&& spec_verify_transfer(
                program_id,
                payer2,
                storage_account,
                p.0,
                registered_aw_key,
                escrow_key,
                team_key,
                now2,
            ) == Err::<(StorageView, FeeSplit), MarketError>(MarketError::Ingl(InglError::TooLate))
        }),
{
}


/// A purchase keeps the ledger well formed: it touches only the purchase
/// block, so the record's invariants carry over.
pub proof fn lemma_buy_preserves_well_formed(
    program_id: Address,
    payer_key: Address,
    storage_account: AccountFacts,
    s: StorageView,
    registered_aw_key: Address,
    escrow_key: Address,
    team_key: Address,
    now: u32,
)
    requires
        crate::state::spec_storage_well_formed(s),
    ensures
        spec_verify_transfer(
            program_id,
            payer_key,
            storage_account,
            s,
            registered_aw_key,
            escrow_key,
            team_key,
            now,
        ) matches Ok(p) ==> crate::state::spec_storage_well_formed(p.0),
{
}

} // verus!
