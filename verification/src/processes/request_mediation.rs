//! Opening a dispute: the buyer or the seller may request mediation once the
//! mediation window has been reached, and only once.

use vstd::prelude::*;
use crate::error::{InglError, MarketError};
use crate::state::{
    program_storage_seed, spec_check_parsed, spec_program_storage_seed, Storage, StorageView,
};
use crate::utils::{spec_assert_seed, AccountFacts, AccountInfoHelpers, Address};

verus! {

/// What requesting mediation decides and changes: each precondition in its
/// order, then the request date recorded. Only the buyer or the seller may
/// request, only at or after the mediation window's start, and only once.
pub open spec fn spec_request_mediation(
    program_id: Address,
    payer_account: AccountFacts,
    storage_account: AccountFacts,
    s: StorageView,
    now: u32,
) -> Result<StorageView, MarketError> {
    if !payer_account.is_signer {
        Err(MarketError::MissingRequiredSignature)
    } else {
        match spec_assert_seed(storage_account.key, spec_program_storage_seed(), program_id) {
            Err(e) => Err(e),
            Ok(_) => match spec_check_parsed(
                storage_account.owner,
                program_id,
                s.validation_phrase,
            ) {
                Err(e) => Err(e),
                Ok(_) => match s.purchase {
                    None => Err(MarketError::Ingl(InglError::OptionUnwrapError)),
                    Some(p) => if payer_account.key != s.authorized_withdrawer
                        && payer_account.key != p.buyer {
                        Err(MarketError::Ingl(InglError::NotAuthorized))
                    } else if now < s.mediatable_date {
                        Err(MarketError::Ingl(InglError::TooEarly))
                    } else if s.request_mediation_date is Some {
                        Err(MarketError::Ingl(InglError::TooLate))
                    } else {
                        Ok(StorageView { request_mediation_date: Some(now), ..s })
                    },
                },
            },
        }
    }
}

/// Records a mediation request in the ledger. On any failure the ledger is
/// left untouched and the failing check's error is returned.
pub fn request_mediation(
    program_id: &Address,
    payer_account: &AccountFacts,
    storage_account: &AccountFacts,
    storage: &mut Storage,
    now: u32,
) -> (r: Result<(), MarketError>)
    ensures
        ({
            let t = spec_request_mediation(
                *program_id,
                *payer_account,
                *storage_account,
                old(storage)@,
                now,
            );
            match r {
                Ok(()) => t matches Ok(s2) && final(storage)@ == s2,
                Err(e) => t == Err::<StorageView, MarketError>(e) && final(storage)@ == old(
                    storage,
                )@,
            }
        }),
{
    if let Err(e) = payer_account.assert_signer() {
        return Err(e);
    }
    let seed = program_storage_seed();
    if let Err(e) = storage_account.assert_seed(program_id, seed.as_slice()) {
        return Err(e);
    }
    if let Err(e) = storage.check_parsed(&storage_account.owner, program_id) {
        return Err(e);
    }
    let purchase = match storage.purchase {
        Some(p) => p,
        None => {
            return Err(InglError::OptionUnwrapError.utilize());
        },
    };
    if !(payer_account.key == storage.authorized_withdrawer) && !(payer_account.key
        == purchase.buyer) {
        return Err(InglError::NotAuthorized.utilize());
    }
    if now < storage.mediatable_date {
        return Err(InglError::TooEarly.utilize());
    }
    if storage.request_mediation_date.is_some() {
        return Err(InglError::TooLate.utilize());
    }
    storage.request_mediation_date = Some(now);
    proof {
        let t = spec_request_mediation(
            *program_id,
            *payer_account,
            *storage_account,
            old(storage)@,
            now,
        );
        assert(t matches Ok(s2) && storage@ =~= s2);
    }
    Ok(())
}

/// Requesting mediation before the window's start fails with `TooEarly`
/// whenever the earlier preconditions hold; and once a request succeeds, a second
/// request at or after the window against the resulting ledger fails with
/// `TooLate`.
pub proof fn lemma_request_mediation_window(
    program_id: Address,
    payer_account: AccountFacts,
    storage_account: AccountFacts,
    s: StorageView,
    now1: u32,
    now2: u32,
)
    ensures
        (spec_request_mediation(program_id, payer_account, storage_account, s, now1) is Ok
            && now2 >= s.mediatable_date) ==> ({
            let s2 = match spec_request_mediation(
                program_id,
                payer_account,
                storage_account,
                s,
                now1,
            ) {
                Ok(s2) => s2,
                Err(_) => s,
            };
            spec_request_mediation(program_id, payer_account, storage_account, s2, now2)
                == Err::<StorageView, MarketError>(MarketError::Ingl(InglError::TooLate))
        }),
        (payer_account.is_signer && spec_assert_seed(
            storage_account.key,
            spec_program_storage_seed(),
            program_id,
        ) is Ok && spec_check_parsed(storage_account.owner, program_id, s.validation_phrase) is Ok
            && (s.purchase matches Some(p) && (payer_account.key == s.authorized_withdrawer
            || payer_account.key == p.buyer)) && now1 < s.mediatable_date) ==> spec_request_mediation(
            program_id,
            payer_account,
            storage_account,
            s,
            now1,
        ) == Err::<StorageView, MarketError>(MarketError::Ingl(InglError::TooEarly)),
{
}


/// A mediation request keeps the ledger well formed: it only sets the
/// request date, which no invariant restricts.
pub proof fn lemma_request_mediation_preserves_well_formed(
    program_id: Address,
    payer_account: AccountFacts,
    storage_account: AccountFacts,
    s: StorageView,
    now: u32,
)
    requires
        crate::state::spec_storage_well_formed(s),
    ensures
        spec_request_mediation(program_id, payer_account, storage_account, s, now) matches Ok(s2)
            ==> crate::state::spec_storage_well_formed(s2),
{
}

} // verus!
