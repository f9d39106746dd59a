//! Buyer acknowledgement of a secondary item's transfer, and the all-or-
//! nothing escrow settlement once the last item clears.

use vstd::prelude::*;
use crate::error::{InglError, MarketError};
use crate::state::{
    escrow_account_seed, items_view, lemma_items_view_update, program_storage_seed,
    spec_all_validated, spec_check_parsed, spec_escrow_account_seed, spec_items_cost,
    spec_program_storage_seed, sum_secondary_item_costs, Purchase, Storage, StorageView,
    StoredSecondaryItem, StoredSecondaryItemView,
};
use crate::utils::{spec_assert_seed, AccountFacts, AccountInfoHelpers, Address};

verus! {

/// What settles when the last secondary item is validated: the items' total
/// cost refunded to the buyer, and the entire remaining escrow balance to the
/// seller.
#[derive(Clone, Copy, Debug, PartialEq, Eq, Structural)]
pub struct EscrowRelease {
    pub to_buyer: u64,
    pub to_seller: u64,
}

/// Whether every item other than the one at `index` has been validated.
pub open spec fn spec_all_validated_except(items: Seq<StoredSecondaryItemView>, index: int) -> bool {
    forall|j: int| 0 <= j < items.len() && j != index ==> items[j].date_validated is Some
}

/// Whether every item other than the one at `index` has been validated.
fn all_items_validated_except(items: &Vec<StoredSecondaryItem>, index: usize) -> (r: bool)
    ensures
        r <==> spec_all_validated_except(items_view(*items), index as int),
{
    let ghost view = items_view(*items);
    let mut i: usize = 0;
    while i < items.len()
        invariant
            i <= items.len(),
            view == items_view(*items),
            view.len() == items@.len(),
            forall|j: int| 0 <= j < i && j != index ==> view[j].date_validated is Some,
        decreases items.len() - i,
    {
        proof {
            assert(view[i as int] == items@[i as int]@);
        }
        if i != index && items[i].date_validated.is_none() {
            assert(view[i as int].date_validated is None);
            return false;
        }
        i = i + 1;
    }
    true
}

/// What validating one secondary item decides and changes: each precondition in its
/// order; then the item at `item_index` is marked validated, and — only
/// if it was the last unvalidated one — the escrow settles (the items' total
/// cost back to the buyer, the rest of the escrow balance to the seller) and
/// the purchase is finalized. Partial validation moves no funds.
pub open spec fn spec_validate_secondary_items_transfers(
    program_id: Address,
    buyer_account: AccountFacts,
    storage_account: AccountFacts,
    s: StorageView,
    escrow_account: AccountFacts,
    authorized_withdrawer_key: Address,
    item_index: u32,
    now: u32,
) -> Result<(StorageView, Option<EscrowRelease>), MarketError>
    recommends
        item_index < s.secondary_items.len(),
{
    if !buyer_account.is_signer {
        Err(MarketError::MissingRequiredSignature)
    } else {
        match spec_assert_seed(storage_account.key, spec_program_storage_seed(), program_id) {
            Err(e) => Err(e),
            Ok(_) => match spec_assert_seed(
                escrow_account.key,
                spec_escrow_account_seed(),
                program_id,
            ) {
                Err(e) => Err(e),
                Ok(_) => match spec_check_parsed(
                    storage_account.owner,
                    program_id,
                    s.validation_phrase,
                ) {
                    Err(e) => Err(e),
                    Ok(_) => if authorized_withdrawer_key != s.authorized_withdrawer {
                        Err(MarketError::Ingl(InglError::AddressMismatch))
                    } else if s.purchase matches Some(p) && p.date_finalized is Some {
                        Err(MarketError::Ingl(InglError::TooLate))
                    } else {
                        match s.purchase {
                            None => Err(MarketError::Ingl(InglError::OptionUnwrapError)),
                            Some(p) => if buyer_account.key != p.buyer {
                                Err(MarketError::Ingl(InglError::AddressMismatch))
                            } else {
                                let i = item_index as int;
                                let item = s.secondary_items[i];
                                if item.date_validated is Some {
                                    Err(MarketError::Ingl(InglError::TooLate))
                                } else {
                                    let items2 = s.secondary_items.update(
                                        i,
                                        StoredSecondaryItemView {
                                            date_validated: Some(now),
                                            ..item
                                        },
                                    );
                                    if !spec_all_validated_except(s.secondary_items, i) {
                                        Ok(
                                            (
                                                StorageView { secondary_items: items2, ..s },
                                                None::<EscrowRelease>,
                                            ),
                                        )
                                    } else {
                                        let total = spec_items_cost(s.secondary_items);
                                        if total > u64::MAX {
                                            Err(MarketError::Ingl(InglError::BeyondBounds))
                                        } else if total > escrow_account.lamports {
                                            Err(MarketError::Ingl(InglError::BeyondBounds))
                                        } else {
                                            let s2 = StorageView {
                                                secondary_items: items2,
                                                purchase: Some(
                                                    Purchase { date_finalized: Some(now), ..p },
                                                ),
                                                ..s
                                            };
                                            let release = EscrowRelease {
                                                to_buyer: total as u64,
                                                to_seller: (escrow_account.lamports - total) as u64,
                                            };
                                            Ok((s2, Some(release)))
                                        }
                                    }
                                }
                            },
                        }
                    },
                },
            },
        }
    }
}

/// Marks one secondary item validated; when it was the last unvalidated one,
/// settles the escrow and finalizes the purchase. On any failure the ledger
/// is left untouched and the failing check's error is returned.
pub fn validate_secondary_items_transfers(
    program_id: &Address,
    buyer_account: &AccountFacts,
    storage_account: &AccountFacts,
    storage: &mut Storage,
    escrow_account: &AccountFacts,
    authorized_withdrawer: &AccountFacts,
    item_index: u32,
    now: u32,
) -> (r: Result<Option<EscrowRelease>, MarketError>)
    requires
        item_index < old(storage)@.secondary_items.len(),
    ensures
        ({
            let t = spec_validate_secondary_items_transfers(
                *program_id,
                *buyer_account,
                *storage_account,
                old(storage)@,
                *escrow_account,
                authorized_withdrawer.key,
                item_index,
                now,
            );
            match r {
                Ok(release) => t matches Ok(p) && final(storage)@ == p.0 && release == p.1,
                Err(e) => t == Err::<(StorageView, Option<EscrowRelease>), MarketError>(e)
                    && final(storage)@ == old(storage)@,
            }
        }),
{
    if let Err(e) = buyer_account.assert_signer() {
        return Err(e);
    }
    let seed = program_storage_seed();
    if let Err(e) = storage_account.assert_seed(program_id, seed.as_slice()) {
        return Err(e);
    }
    let escrow_seed = escrow_account_seed();
    if let Err(e) = escrow_account.assert_seed(program_id, escrow_seed.as_slice()) {
        return Err(e);
    }
    if let Err(e) = storage.check_parsed(&storage_account.owner, program_id) {
        return Err(e);
    }
    if let Err(e) = authorized_withdrawer.assert_key_match(&storage.authorized_withdrawer) {
        return Err(e);
    }
    let purchase = match storage.purchase {
        Some(p) => {
            if p.date_finalized.is_some() {
                return Err(InglError::TooLate.utilize());
            }
            p
        },
        None => {
            return Err(InglError::OptionUnwrapError.utilize());
        },
    };
    if !(buyer_account.key == purchase.buyer) {
        return Err(InglError::AddressMismatch.utilize());
    }
    let idx = item_index as usize;
    if storage.secondary_items[idx].date_validated.is_some() {
        return Err(InglError::TooLate.utilize());
    }
    let will_settle = all_items_validated_except(&storage.secondary_items, idx);
    let mut release: Option<EscrowRelease> = None;
    if will_settle {
        let total = match sum_secondary_item_costs(&storage.secondary_items) {
            Ok(t) => t,
            Err(e) => { return Err(e) },
        };
        if total > escrow_account.lamports {
            return Err(InglError::BeyondBounds.utilize());
        }
        release = Some(
            EscrowRelease { to_buyer: total, to_seller: escrow_account.lamports - total },
        );
    }
    let ghost old_items = old(storage)@.secondary_items;
    storage.secondary_items[idx].date_validated = Some(now);
    proof {
        lemma_items_view_update(
            old(storage).secondary_items@,
            idx as int,
            storage.secondary_items@[idx as int],
        );
        assert(storage@.secondary_items =~= old_items.update(
            idx as int,
            StoredSecondaryItemView { date_validated: Some(now), ..old_items[idx as int] },
        ));
    }
    if release.is_some() {
        storage.purchase = Some(Purchase { date_finalized: Some(now), ..purchase });
    }
    proof {
        let t = spec_validate_secondary_items_transfers(
            *program_id,
            *buyer_account,
            *storage_account,
            old(storage)@,
            *escrow_account,
            authorized_withdrawer.key,
            item_index,
            now,
        );
        assert(t matches Ok(p) && storage@ =~= p.0 && release == p.1);
    }
    Ok(release)
}

/// Validating the same item index twice fails: once a validation succeeds,
/// repeating it against the resulting ledger returns `TooLate`, at any later
/// time and with any escrow balance at the same escrow address.
pub proof fn lemma_validate_twice_fails(
    program_id: Address,
    buyer_account: AccountFacts,
    storage_account: AccountFacts,
    s: StorageView,
    escrow_account: AccountFacts,
    escrow_account2: AccountFacts,
    authorized_withdrawer_key: Address,
    item_index: u32,
    now1: u32,
    now2: u32,
)
    requires
        item_index < s.secondary_items.len(),
        escrow_account2.key == escrow_account.key,
        spec_validate_secondary_items_transfers(
            program_id,
            buyer_account,
            storage_account,
            s,
            escrow_account,
            authorized_withdrawer_key,
            item_index,
            now1,
        ) is Ok,
    ensures
        spec_validate_secondary_items_transfers(
            program_id,
            buyer_account,
            storage_account,
            s,
            escrow_account,
            authorized_withdrawer_key,
            item_index,
            now1,
        ) matches Ok(p) ==> spec_validate_secondary_items_transfers(
            program_id,
            buyer_account,
            storage_account,
            p.0,
            escrow_account2,
            authorized_withdrawer_key,
            item_index,
            now2,
        ) == Err::<(StorageView, Option<EscrowRelease>), MarketError>(
            MarketError::Ingl(InglError::TooLate),
        ),
{
}

/// Validating the last unvalidated item settles: the buyer is refunded the
/// items' total cost, the seller receives the entire remaining escrow
/// balance, and the purchase is finalized at the validation time.
pub proof fn lemma_last_validation_settles(
    program_id: Address,
    buyer_account: AccountFacts,
    storage_account: AccountFacts,
    s: StorageView,
    escrow_account: AccountFacts,
    authorized_withdrawer_key: Address,
    item_index: u32,
    now: u32,
)
    requires
        item_index < s.secondary_items.len(),
        spec_all_validated_except(s.secondary_items, item_index as int),
        spec_validate_secondary_items_transfers(
            program_id,
            buyer_account,
            storage_account,
            s,
            escrow_account,
            authorized_withdrawer_key,
            item_index,
            now,
        ) is Ok,
    ensures
        spec_validate_secondary_items_transfers(
            program_id,
            buyer_account,
            storage_account,
            s,
            escrow_account,
            authorized_withdrawer_key,
            item_index,
            now,
        ) matches Ok(p) ==> ({
            &&& spec_all_validated(p.0.secondary_items)
            &&& p.0.purchase matches Some(purchase) && purchase.date_finalized == Some(now)
            &&& p.1 == Some(
                EscrowRelease {
                    to_buyer: spec_items_cost(s.secondary_items) as u64,
                    to_seller: (escrow_account.lamports - spec_items_cost(
                        s.secondary_items,
                    )) as u64,
                },
            )
        }),
{
    let t = spec_validate_secondary_items_transfers(
        program_id,
        buyer_account,
        storage_account,
        s,
        escrow_account,
        authorized_withdrawer_key,
        item_index,
        now,
    );
    match t {
        Ok(p) => {
            assert forall|j: int|
                0 <= j < p.0.secondary_items.len() implies p.0.secondary_items[j].date_validated is Some by {
                if j != item_index as int {
                    assert(s.secondary_items[j].date_validated is Some);
                }
            }
        },
        Err(_) => {},
    }
}


/// A validation keeps the ledger well formed, and an item's validation date
/// is monotonic: every date already set survives unchanged, and only the
/// named item's date is set.
pub proof fn lemma_validate_preserves_well_formed(
    program_id: Address,
    buyer_account: AccountFacts,
    storage_account: AccountFacts,
    s: StorageView,
    escrow_account: AccountFacts,
    authorized_withdrawer_key: Address,
    item_index: u32,
    now: u32,
)
    requires
        item_index < s.secondary_items.len(),
        crate::state::spec_storage_well_formed(s),
    ensures
        spec_validate_secondary_items_transfers(
            program_id,
            buyer_account,
            storage_account,
            s,
            escrow_account,
            authorized_withdrawer_key,
            item_index,
            now,
        ) matches Ok(p) ==> ({
            &&& crate::state::spec_storage_well_formed(p.0)
            &&& p.0.secondary_items.len() == s.secondary_items.len()
            &&& forall|j: int|
                0 <= j < s.secondary_items.len() && s.secondary_items[j].date_validated is Some
                    ==> (#[trigger] p.0.secondary_items[j]).date_validated
                    == s.secondary_items[j].date_validated
            &&& forall|j: int|
                0 <= j < s.secondary_items.len() && j != item_index ==> (
                #[trigger] p.0.secondary_items[j]) == s.secondary_items[j]
        }),
{
}

} // verus!
