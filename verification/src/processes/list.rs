//! Listing: both of the seller's authorities move to the protocol's derived
//! proxies, and the listing record is created and populated at its derived
//! storage address.

use vstd::prelude::*;
use crate::codec::{address_bytes, address_to_byte_vec, spec_address_from_bytes,
    address_from_byte_vec};
use crate::error::{InglError, MarketError};
use crate::instruction::{spec_to_stored, SecondaryItem, SecondaryItemView};
use crate::state::{
    bpf_loader_upgradeable_id, pda_authorized_withdrawer_seed, pda_upgrade_authority_seed,
    program_storage_seed, spec_bpf_loader_upgradeable_id, spec_clock_sysvar_id,
    spec_pda_authorized_withdrawer_seed, spec_pda_upgrade_authority_seed,
    spec_program_storage_seed, spec_storage_space, spec_vote_program_id, vote_program_id,
    clock_sysvar_id, Storage, StorageView, StoredSecondaryItem, STORAGE_VALIDATION_PHRASE,
};
use crate::utils::{spec_assert_seed, AccountFacts, AccountInfoHelpers, Address};

verus! {

/// Everything a listing hands back to the runtime: the populated record, the
/// space it needs at its derived address, and the bump seeds of the two proxy
/// identities.
#[derive(Debug)]
pub struct ListOutcome {
    pub storage: Storage,
    pub space: usize,
    pub upgrade_authority_bump: u8,
    pub withdrawer_bump: u8,
}

/// Seconds in the thirty days the mediation window may at most be set ahead.
pub const THIRTY_DAYS_SECONDS: u32 = 2_592_000;

/// The checks before the seller's upgrade authority over this program moves
/// to the protocol's upgrade proxy: the program account is owned by the
/// upgradeable loader, the caller signed, the program-data account is the one
/// derived from the program's address under the loader, the caller is the
/// authority recorded in the program-data account (bytes 13 to 45 of its
/// data), the program account is this program, and the proxy account is the
/// derived upgrade-proxy identity, whose bump seed is returned.
pub open spec fn spec_verify_and_change_program_authority(
    program_id: Address,
    current_authority: AccountFacts,
    pda_authority_key: Address,
    this_program: AccountFacts,
    this_program_data_key: Address,
    program_data_bytes: Seq<u8>,
) -> Result<u8, MarketError>
    recommends
        program_data_bytes.len() >= 45,
{
    if this_program.owner != spec_bpf_loader_upgradeable_id() {
        Err(MarketError::Ingl(InglError::AddressMismatch))
    } else if !current_authority.is_signer {
        Err(MarketError::MissingRequiredSignature)
    } else {
        match spec_assert_seed(
            this_program_data_key,
            address_bytes(this_program.key),
            spec_bpf_loader_upgradeable_id(),
        ) {
            Err(e) => Err(e),
            Ok(_) => if current_authority.key != spec_address_from_bytes(
                program_data_bytes.subrange(13, 45),
            ) {
                Err(MarketError::Ingl(InglError::AddressMismatch))
            } else if this_program.key != program_id {
                Err(MarketError::Ingl(InglError::AddressMismatch))
            } else {
                match spec_assert_seed(
                    pda_authority_key,
                    spec_pda_upgrade_authority_seed(),
                    program_id,
                ) {
                    Ok((key, bump)) => Ok(bump),
                    Err(e) => Err(e),
                }
            },
        }
    }
}

/// Checks the preconditions of the upgrade-authority handover to the protocol's
/// proxy, reading the current authority out of the program-data account's
/// bytes; the handover itself is a runtime instruction.
pub fn verify_and_change_program_authority(
    program_id: &Address,
    current_authority: &AccountFacts,
    pda_authority: &AccountFacts,
    this_program: &AccountFacts,
    this_program_data: &AccountFacts,
    program_data_bytes: &Vec<u8>,
) -> (r: Result<u8, MarketError>)
    requires
        program_data_bytes@.len() >= 45,
    ensures
        r == spec_verify_and_change_program_authority(
            *program_id,
            *current_authority,
            pda_authority.key,
            *this_program,
            this_program_data.key,
            program_data_bytes@,
        ),
{
    let loader = bpf_loader_upgradeable_id();
    if let Err(e) = this_program.assert_owner(&loader) {
        return Err(e);
    }
    if let Err(e) = current_authority.assert_signer() {
        return Err(e);
    }
    let program_key_bytes = address_to_byte_vec(&this_program.key);
    if let Err(e) = this_program_data.assert_seed(&loader, program_key_bytes.as_slice()) {
        return Err(e);
    }
    let recorded_authority = address_from_byte_vec(program_data_bytes, 13);
    proof {
        assert(program_data_bytes@.subrange(13int, 45int) =~= program_data_bytes@.subrange(13, 45));
    }
    if let Err(e) = current_authority.assert_key_match(&recorded_authority) {
        return Err(e);
    }
    if let Err(e) = this_program.assert_key_match(program_id) {
        return Err(e);
    }
    let seed = pda_upgrade_authority_seed();
    match pda_authority.assert_seed(program_id, seed.as_slice()) {
        Ok((_key, bump)) => Ok(bump),
        Err(e) => Err(e),
    }
}

/// The checks before the seller's withdrawal authority on the validator moves
/// to the protocol's withdrawer proxy: the seller signed, the vote account is
/// vote-program-owned, the seller is the authority the vote account itself
/// records, the supplied clock account is the clock sysvar, and the proxy
/// account is the derived withdrawer-proxy identity, whose bump seed is
/// returned.
pub open spec fn spec_verify_and_change_authorized_withdrawer(
    program_id: Address,
    vote_account: AccountFacts,
    current_authorized_withdrawer: AccountFacts,
    vote_state_authorized_withdrawer: Address,
    sysvar_clock_key: Address,
    pda_authorized_withdrawer_key: Address,
) -> Result<u8, MarketError> {
    if !current_authorized_withdrawer.is_signer {
        Err(MarketError::MissingRequiredSignature)
    } else if vote_account.owner != spec_vote_program_id() {
        Err(MarketError::Ingl(InglError::AddressMismatch))
    } else if current_authorized_withdrawer.key != vote_state_authorized_withdrawer {
        Err(MarketError::Ingl(InglError::AddressMismatch))
    } else if sysvar_clock_key != spec_clock_sysvar_id() {
        Err(MarketError::Ingl(InglError::AddressMismatch))
    } else {
        match spec_assert_seed(
            pda_authorized_withdrawer_key,
            spec_pda_authorized_withdrawer_seed(),
            program_id,
        ) {
            Ok((key, bump)) => Ok(bump),
            Err(e) => Err(e),
        }
    }
}

/// Checks the preconditions of the withdrawal-authority handover to the protocol's
/// proxy. The authority the vote account records is handed in by the caller,
/// who parses it out of the vote account's data.
pub fn verify_and_change_authorized_withdrawer(
    program_id: &Address,
    vote_account: &AccountFacts,
    current_authorized_withdrawer: &AccountFacts,
    vote_state_authorized_withdrawer: &Address,
    pda_authorized_withdrawer: &AccountFacts,
    sysvar_clock_account: &AccountFacts,
) -> (r: Result<u8, MarketError>)
    ensures
        r == spec_verify_and_change_authorized_withdrawer(
            *program_id,
            *vote_account,
            *current_authorized_withdrawer,
            *vote_state_authorized_withdrawer,
            sysvar_clock_account.key,
            pda_authorized_withdrawer.key,
        ),
{
    if let Err(e) = current_authorized_withdrawer.assert_signer() {
        return Err(e);
    }
    let vote_program = vote_program_id();
    if let Err(e) = vote_account.assert_owner(&vote_program) {
        return Err(e);
    }
    if let Err(e) = current_authorized_withdrawer.assert_key_match(
        vote_state_authorized_withdrawer,
    ) {
        return Err(e);
    }
    let clock_id = clock_sysvar_id();
    if let Err(e) = sysvar_clock_account.assert_key_match(&clock_id) {
        return Err(e);
    }
    let seed = pda_authorized_withdrawer_seed();
    match pda_authorized_withdrawer.assert_seed(program_id, seed.as_slice()) {
        Ok((_key, bump)) => Ok(bump),
        Err(e) => Err(e),
    }
}

/// The record a listing populates: unsold, undisputed, with the supplied
/// terms and the supplied items in their stored form.
pub open spec fn spec_new_storage(
    payer_key: Address,
    vote_key: Address,
    cost: u64,
    items: Seq<SecondaryItemView>,
    description: Seq<u8>,
    validator_name: Seq<u8>,
    validator_logo_url: Seq<u8>,
    mediatable_date: u32,
) -> StorageView {
    StorageView {
        validation_phrase: STORAGE_VALIDATION_PHRASE,
        authorized_withdrawer: payer_key,
        vote_account: vote_key,
        authorized_withdrawer_cost: cost,
        mediatable_date,
        purchase: None,
        request_mediation_date: None,
        mediation_date: None,
        mediation_shares: None,
        secondary_items: items.map_values(|item: SecondaryItemView| spec_to_stored(item)),
        description,
        validator_name,
        validator_logo_url,
    }
}

/// What creating the listing record decides: the storage account must sit at
/// the record's derived address, the record must fit the machine's address
/// range, and then the populated record.
pub open spec fn spec_create_storage(
    program_id: Address,
    storage_account_key: Address,
    payer_key: Address,
    vote_key: Address,
    cost: u64,
    items: Seq<SecondaryItemView>,
    description: Seq<u8>,
    validator_name: Seq<u8>,
    validator_logo_url: Seq<u8>,
    mediatable_date: u32,
) -> Result<StorageView, MarketError> {
    match spec_assert_seed(storage_account_key, spec_program_storage_seed(), program_id) {
        Err(e) => Err(e),
        Ok(_) => {
            let s = spec_new_storage(
                payer_key,
                vote_key,
                cost,
                items,
                description,
                validator_name,
                validator_logo_url,
                mediatable_date,
            );
            if spec_storage_space(s) > usize::MAX {
                Err(MarketError::Ingl(InglError::BeyondBounds))
            } else {
                Ok(s)
            }
        },
    }
}

/// Builds the listing record and the space it needs at its derived storage
/// address; funding and writing the account are the runtime's part.
pub fn create_storage_and_store_data(
    program_id: &Address,
    storage_account: &AccountFacts,
    payer_account: &AccountFacts,
    vote_account: &AccountFacts,
    cost: u64,
    secondary_items: &Vec<SecondaryItem>,
    description: Vec<u8>,
    validator_name: Vec<u8>,
    validator_logo_url: Vec<u8>,
    mediatable_date: u32,
) -> (r: Result<(Storage, usize), MarketError>)
    ensures
        ({
            let t = spec_create_storage(
                *program_id,
                storage_account.key,
                payer_account.key,
                vote_account.key,
                cost,
                secondary_items@.map_values(|item: SecondaryItem| item@),
                description@,
                validator_name@,
                validator_logo_url@,
                mediatable_date,
            );
            match r {
                Ok((storage, space)) => t matches Ok(s) && storage@ == s && space
                    == spec_storage_space(s),
                Err(e) => t == Err::<StorageView, MarketError>(e),
            }
        }),
{
    let seed = program_storage_seed();
    if let Err(e) = storage_account.assert_seed(program_id, seed.as_slice()) {
        return Err(e);
    }
    let ghost supplied = secondary_items@.map_values(|item: SecondaryItem| item@);
    let mut stored_items: Vec<StoredSecondaryItem> = Vec::new();
    let mut i: usize = 0;
    while i < secondary_items.len()
        invariant
            i <= secondary_items.len(),
            supplied == secondary_items@.map_values(|item: SecondaryItem| item@),
            supplied.len() == secondary_items@.len(),
            stored_items@.len() == i,
            stored_items@.map_values(|item: StoredSecondaryItem| item@) =~= supplied.subrange(
                0,
                i as int,
            ).map_values(|item: SecondaryItemView| spec_to_stored(item)),
        decreases secondary_items.len() - i,
    {
        let stored = secondary_items[i].to_stored();
        let ghost prior = stored_items@;
        stored_items.push(stored);
        proof {
            assert(supplied[i as int] == secondary_items@[i as int]@);
            let f = |item: StoredSecondaryItem| item@;
            let g = |item: SecondaryItemView| spec_to_stored(item);
            let a = stored_items@.map_values(f);
            let b = supplied.subrange(0, i + 1).map_values(g);
            assert(a.len() == i + 1);
            assert(b.len() == i + 1);
            assert forall|j: int| 0 <= j < a.len() implies a[j] == b[j] by {
                assert(a[j] == stored_items@[j]@);
                assert(b[j] == g(supplied.subrange(0, i + 1)[j]));
                if j < i {
                    assert(prior.map_values(f)[j] == prior[j]@);
                    assert(supplied.subrange(0, i as int).map_values(g)[j] == g(
                        supplied.subrange(0, i as int)[j],
                    ));
                } else {
                    assert(stored_items@[j] == stored);
                }
            }
            assert(a =~= b);
        }
        i = i + 1;
    }
    proof {
        assert(supplied.subrange(0, supplied.len() as int) =~= supplied);
    }
    let storage = Storage {
        validation_phrase: STORAGE_VALIDATION_PHRASE,
        authorized_withdrawer: payer_account.key,
        vote_account: vote_account.key,
        authorized_withdrawer_cost: cost,
        mediatable_date,
        purchase: None,
        request_mediation_date: None,
        mediation_date: None,
        mediation_shares: None,
        secondary_items: stored_items,
        description,
        validator_name,
        validator_logo_url,
    };
    proof {
        assert(storage@ =~= spec_new_storage(
            payer_account.key,
            vote_account.key,
            cost,
            supplied,
            storage.description@,
            storage.validator_name@,
            storage.validator_logo_url@,
            mediatable_date,
        ));
    }
    let space = match storage.checked_space() {
        Some(space) => space,
        None => {
            return Err(InglError::BeyondBounds.utilize());
        },
    };
    Ok((storage, space))
}

/// What listing the validator decides as a whole: the mediation window may
/// start at most thirty days ahead, the validator's name may not be empty,
/// then the two authority handovers' preconditions and the record's creation.
pub open spec fn spec_list_validator(
    program_id: Address,
    authorized_withdrawer: AccountFacts,
    vote_account: AccountFacts,
    vote_state_authorized_withdrawer: Address,
    pda_authorized_withdrawer_key: Address,
    storage_account_key: Address,
    this_program: AccountFacts,
    this_program_data_key: Address,
    program_data_bytes: Seq<u8>,
    current_upgrade_authority: AccountFacts,
    pda_upgrade_authority_key: Address,
    sysvar_clock_key: Address,
    cost: u64,
    items: Seq<SecondaryItemView>,
    description: Seq<u8>,
    validator_name: Seq<u8>,
    validator_logo_url: Seq<u8>,
    mediatable_date: u32,
    now: u32,
) -> Result<(StorageView, u8, u8), MarketError> {
    if mediatable_date > now + THIRTY_DAYS_SECONDS {
        Err(MarketError::Ingl(InglError::TooLate))
    } else if validator_name.len() == 0 {
        Err(MarketError::Ingl(InglError::InvalidData))
    } else {
        match spec_verify_and_change_program_authority(
            program_id,
            current_upgrade_authority,
            pda_upgrade_authority_key,
            this_program,
            this_program_data_key,
            program_data_bytes,
        ) {
            Err(e) => Err(e),
            Ok(upgrade_bump) => match spec_verify_and_change_authorized_withdrawer(
                program_id,
                vote_account,
                authorized_withdrawer,
                vote_state_authorized_withdrawer,
                sysvar_clock_key,
                pda_authorized_withdrawer_key,
            ) {
                Err(e) => Err(e),
                Ok(withdrawer_bump) => match spec_create_storage(
                    program_id,
                    storage_account_key,
                    authorized_withdrawer.key,
                    vote_account.key,
                    cost,
                    items,
                    description,
                    validator_name,
                    validator_logo_url,
                    mediatable_date,
                ) {
                    Err(e) => Err(e),
                    Ok(s) => Ok((s, upgrade_bump, withdrawer_bump)),
                },
            },
        }
    }
}

/// Lists the validator: verifies the window and name, the preconditions of both
/// authority handovers, and builds the listing record with the space it
/// needs. The handovers, the account's funding and the registry call are
/// runtime instructions around this decision.
pub fn list_validator(
    program_id: &Address,
    authorized_withdrawer: &AccountFacts,
    vote_account: &AccountFacts,
    vote_state_authorized_withdrawer: &Address,
    pda_authorized_withdrawer: &AccountFacts,
    storage_account: &AccountFacts,
    this_program: &AccountFacts,
    this_program_data: &AccountFacts,
    program_data_bytes: &Vec<u8>,
    current_upgrade_authority: &AccountFacts,
    pda_upgrade_authority: &AccountFacts,
    sysvar_clock_account: &AccountFacts,
    cost: u64,
    secondary_items: &Vec<SecondaryItem>,
    description: Vec<u8>,
    validator_name: Vec<u8>,
    validator_logo_url: Vec<u8>,
    mediatable_date: u32,
    now: u32,
) -> (r: Result<ListOutcome, MarketError>)
    requires
        program_data_bytes@.len() >= 45,
    ensures
        ({
            let t = spec_list_validator(
                *program_id,
                *authorized_withdrawer,
                *vote_account,
                *vote_state_authorized_withdrawer,
                pda_authorized_withdrawer.key,
                storage_account.key,
                *this_program,
                this_program_data.key,
                program_data_bytes@,
                *current_upgrade_authority,
                pda_upgrade_authority.key,
                sysvar_clock_account.key,
                cost,
                secondary_items@.map_values(|item: SecondaryItem| item@),
                description@,
                validator_name@,
                validator_logo_url@,
                mediatable_date,
                now,
            );
            match r {
                Ok(outcome) => t matches Ok(p) && outcome.storage@ == p.0 && outcome.space
                    == spec_storage_space(p.0) && outcome.upgrade_authority_bump == p.1
                    && outcome.withdrawer_bump == p.2,
                Err(e) => t == Err::<(StorageView, u8, u8), MarketError>(e),
            }
        }),
{
    if mediatable_date as u64 > now as u64 + THIRTY_DAYS_SECONDS as u64 {
        return Err(InglError::TooLate.utilize());
    }
    if validator_name.len() == 0 {
        return Err(InglError::InvalidData.utilize());
    }
    let upgrade_authority_bump = match verify_and_change_program_authority(
        program_id,
        current_upgrade_authority,
        pda_upgrade_authority,
        this_program,
        this_program_data,
        program_data_bytes,
    ) {
        Ok(b) => b,
        Err(e) => { return Err(e) },
    };
    let withdrawer_bump = match verify_and_change_authorized_withdrawer(
        program_id,
        vote_account,
        authorized_withdrawer,
        vote_state_authorized_withdrawer,
        pda_authorized_withdrawer,
        sysvar_clock_account,
    ) {
        Ok(b) => b,
        Err(e) => { return Err(e) },
    };
    let (storage, space) = match create_storage_and_store_data(
        program_id,
        storage_account,
        authorized_withdrawer,
        vote_account,
        cost,
        secondary_items,
        description,
        validator_name,
        validator_logo_url,
        mediatable_date,
    ) {
        Ok(p) => p,
        Err(e) => { return Err(e) },
    };
    Ok(ListOutcome { storage, space, upgrade_authority_bump, withdrawer_bump })
}


/// A fresh listing establishes the ledger's invariants: the record starts
/// unsold and undisputed, carrying the validation phrase.
pub proof fn lemma_list_establishes_well_formed(
    program_id: Address,
    storage_account_key: Address,
    payer_key: Address,
    vote_key: Address,
    cost: u64,
    items: Seq<SecondaryItemView>,
    description: Seq<u8>,
    validator_name: Seq<u8>,
    validator_logo_url: Seq<u8>,
    mediatable_date: u32,
)
    ensures
        spec_create_storage(
            program_id,
            storage_account_key,
            payer_key,
            vote_key,
            cost,
            items,
            description,
            validator_name,
            validator_logo_url,
            mediatable_date,
        ) matches Ok(s) ==> crate::state::spec_storage_well_formed(s),
{
}

} // verus!
