//! Reward withdrawal: the registered seller sweeps whatever the validator
//! holds above its minimum required reserve.

use vstd::prelude::*;
use crate::error::{InglError, MarketError};
use crate::state::{
    pda_authorized_withdrawer_seed, program_storage_seed, spec_check_parsed,
    spec_pda_authorized_withdrawer_seed, spec_program_storage_seed, spec_vote_program_id,
    vote_program_id, Storage, StorageView,
};
use crate::utils::{spec_assert_seed, AccountFacts, AccountInfoHelpers, Address};

verus! {

/// What a reward withdrawal decides: each precondition in its order — the
/// supplied validator account must be vote-program-owned and must match the
/// ledger's recorded reference, the presented withdrawer must be the
/// registered one — and then the withdrawer proxy's bump seed together with
/// the amount, which is always the validator's balance minus the minimum
/// reserve.
pub open spec fn spec_withdraw_rewards(
    program_id: Address,
    authorized_withdrawer_key: Address,
    vote_account: AccountFacts,
    pda_authorized_withdrawer_key: Address,
    storage_account: AccountFacts,
    s: StorageView,
    minimum_reserve: u64,
) -> Result<(u8, u64), MarketError> {
    match spec_assert_seed(
        pda_authorized_withdrawer_key,
        spec_pda_authorized_withdrawer_seed(),
        program_id,
    ) {
        Err(e) => Err(e),
        Ok((key, bump)) => match spec_assert_seed(
            storage_account.key,
            spec_program_storage_seed(),
            program_id,
        ) {
            Err(e) => Err(e),
            Ok(_) => match spec_check_parsed(
                storage_account.owner,
                program_id,
                s.validation_phrase,
            ) {
                Err(e) => Err(e),
                Ok(_) => if vote_account.owner != spec_vote_program_id() {
                    Err(MarketError::Ingl(InglError::AddressMismatch))
                } else if vote_account.key != s.vote_account {
                    Err(MarketError::Ingl(InglError::AddressMismatch))
                } else if authorized_withdrawer_key != s.authorized_withdrawer {
                    Err(MarketError::Ingl(InglError::AddressMismatch))
                } else if vote_account.lamports < minimum_reserve {
                    Err(MarketError::Ingl(InglError::OptionUnwrapError))
                } else {
                    Ok((bump, (vote_account.lamports - minimum_reserve) as u64))
                },
            },
        },
    }
}

/// Checks the preconditions of a reward withdrawal and computes the amount: the
/// validator's balance minus the minimum reserve, never anything else. The
/// withdrawal itself is a runtime instruction signed with the returned bump
/// seed.
pub fn withdraw_rewards(
    program_id: &Address,
    authorized_withdrawer: &AccountFacts,
    vote_account: &AccountFacts,
    pda_authorized_withdrawer: &AccountFacts,
    storage_account: &AccountFacts,
    storage: &Storage,
    minimum_reserve: u64,
) -> (r: Result<(u8, u64), MarketError>)
    ensures
        r == spec_withdraw_rewards(
            *program_id,
            authorized_withdrawer.key,
            *vote_account,
            pda_authorized_withdrawer.key,
            *storage_account,
            storage@,
            minimum_reserve,
        ),
        r matches Ok((bump, amount)) ==> amount == vote_account.lamports - minimum_reserve,
{
    let seed = pda_authorized_withdrawer_seed();
    let bump = match pda_authorized_withdrawer.assert_seed(program_id, seed.as_slice()) {
        Ok((_key, b)) => b,
        Err(e) => { return Err(e) },
    };
    let storage_seed = program_storage_seed();
    if let Err(e) = storage_account.assert_seed(program_id, storage_seed.as_slice()) {
        return Err(e);
    }
    if let Err(e) = storage.check_parsed(&storage_account.owner, program_id) {
        return Err(e);
    }
    let vote_program = vote_program_id();
    if let Err(e) = vote_account.assert_owner(&vote_program) {
        return Err(e);
    }
    if let Err(e) = vote_account.assert_key_match(&storage.vote_account) {
        return Err(e);
    }
    if let Err(e) = authorized_withdrawer.assert_key_match(&storage.authorized_withdrawer) {
        return Err(e);
    }
    if vote_account.lamports < minimum_reserve {
        return Err(InglError::OptionUnwrapError.utilize());
    }
    Ok((bump, vote_account.lamports - minimum_reserve))
}

/// A withdrawal pays exactly the validator's balance above the minimum
/// reserve; and a supplied validator account whose address differs from the
/// ledger's recorded reference always fails with `AddressMismatch` once the
/// derived-identity and record preconditions hold.
pub proof fn lemma_withdraw_amount(
    program_id: Address,
    authorized_withdrawer_key: Address,
    vote_account: AccountFacts,
    pda_authorized_withdrawer_key: Address,
    storage_account: AccountFacts,
    s: StorageView,
    minimum_reserve: u64,
)
    ensures
        spec_withdraw_rewards(
            program_id,
            authorized_withdrawer_key,
            vote_account,
            pda_authorized_withdrawer_key,
            storage_account,
            s,
            minimum_reserve,
        ) matches Ok(p) ==> p.1 == vote_account.lamports - minimum_reserve,
        (spec_assert_seed(
            pda_authorized_withdrawer_key,
            spec_pda_authorized_withdrawer_seed(),
            program_id,
        ) is Ok && spec_assert_seed(
            storage_account.key,
            spec_program_storage_seed(),
            program_id,
        ) is Ok && spec_check_parsed(storage_account.owner, program_id, s.validation_phrase) is Ok
            && vote_account.owner == spec_vote_program_id() && vote_account.key != s.vote_account)
            ==> spec_withdraw_rewards(
            program_id,
            authorized_withdrawer_key,
            vote_account,
            pda_authorized_withdrawer_key,
            storage_account,
            s,
            minimum_reserve,
        ) == Err::<(u8, u64), MarketError>(MarketError::Ingl(InglError::AddressMismatch)),
{
}

} // verus!
