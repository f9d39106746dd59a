//! Delisting: both authority handovers are reversed back to the seller and
//! the listing record is destroyed, returning its rent balance to the seller.
//! A sold listing may be delisted only once every secondary item is settled.

use vstd::prelude::*;
use crate::codec::{address_bytes, address_to_byte_vec};
use crate::error::{InglError, MarketError};
use crate::state::{
    all_items_validated, bpf_loader_upgradeable_id, pda_authorized_withdrawer_seed,
    pda_upgrade_authority_seed, program_storage_seed, spec_all_validated,
    spec_bpf_loader_upgradeable_id, spec_check_parsed, spec_pda_upgrade_authority_seed,
    spec_program_storage_seed, Storage, StorageView,
};
use crate::processes::buy::spec_change_authorized_withdrawer;
use crate::utils::{spec_assert_seed, AccountFacts, AccountInfoHelpers, Address};

verus! {

/// Everything a delisting hands back to the runtime: the bump seeds of the
/// two proxy identities for the reversing handovers, and the seller's balance
/// once the record's rent is returned.
#[derive(Clone, Copy, Debug, PartialEq, Eq, Structural)]
pub struct DelistOutcome {
    pub upgrade_authority_bump: u8,
    pub withdrawer_bump: u8,
    pub seller_lamports_after: u64,
}

/// The checks before the protocol's upgrade proxy hands the upgrade authority
/// back to the seller: the program account is owned by the upgradeable
/// loader, the program-data account is the one derived from the program's
/// address under the loader, the program account is this program, and the
/// proxy account is the derived upgrade-proxy identity, whose bump seed is
/// returned for signing.
pub open spec fn spec_change_program_authority(
    program_id: Address,
    this_program: AccountFacts,
    this_program_data_key: Address,
    pda_authority_key: Address,
) -> Result<u8, MarketError> {
    if this_program.owner != spec_bpf_loader_upgradeable_id() {
        Err(MarketError::Ingl(InglError::AddressMismatch))
    } else {
        match spec_assert_seed(
            this_program_data_key,
            address_bytes(this_program.key),
            spec_bpf_loader_upgradeable_id(),
        ) {
            Err(e) => Err(e),
            Ok(_) => if this_program.key != program_id {
                Err(MarketError::Ingl(InglError::AddressMismatch))
            } else {
                match spec_assert_seed(
                    pda_authority_key,
                    spec_pda_upgrade_authority_seed(),
                    program_id,
                ) {
                    Ok((key, bump)) => Ok(bump),
                    Err(e) => Err(e),
                }
            },
        }
    }
}

/// Checks the preconditions of the upgrade-authority handover back to the seller; the
/// handover itself is a runtime instruction signed with the returned bump
/// seed.
pub fn change_program_authority(
    program_id: &Address,
    pda_authority: &AccountFacts,
    this_program: &AccountFacts,
    this_program_data: &AccountFacts,
) -> (r: Result<u8, MarketError>)
    ensures
        r == spec_change_program_authority(
            *program_id,
            *this_program,
            this_program_data.key,
            pda_authority.key,
        ),
{
    let loader = bpf_loader_upgradeable_id();
    if let Err(e) = this_program.assert_owner(&loader) {
        return Err(e);
    }
    let program_key_bytes = address_to_byte_vec(&this_program.key);
    if let Err(e) = this_program_data.assert_seed(&loader, program_key_bytes.as_slice()) {
        return Err(e);
    }
    if let Err(e) = this_program.assert_key_match(program_id) {
        return Err(e);
    }
    let seed = pda_upgrade_authority_seed();
    match pda_authority.assert_seed(program_id, seed.as_slice()) {
        Ok((_key, bump)) => Ok(bump),
        Err(e) => Err(e),
    }
}

/// Checks the preconditions of the withdrawal-authority handover back to the seller;
/// the preconditions are those of the purchase-time handover.
pub fn change_authorized_withdrawer(
    program_id: &Address,
    vote_account: &AccountFacts,
    pda_authorized_withdrawer: &AccountFacts,
    sysvar_clock_account: &AccountFacts,
) -> (r: Result<u8, MarketError>)
    ensures
        r == spec_change_authorized_withdrawer(
            *program_id,
            *vote_account,
            sysvar_clock_account.key,
            pda_authorized_withdrawer.key,
        ),
{
    crate::processes::buy::change_authorized_withdrawer(
        program_id,
        vote_account,
        pda_authorized_withdrawer,
        sysvar_clock_account,
    )
}

/// What destroying the listing record decides: each precondition in its
/// order — a sold listing must have every secondary item validated — and then
/// the seller's balance once the record's whole rent balance is returned.
pub open spec fn spec_verify_and_close_storage(
    program_id: Address,
    storage_account: AccountFacts,
    s: StorageView,
    payer_account: AccountFacts,
    vote_key: Address,
) -> Result<u64, MarketError> {
    match spec_assert_seed(storage_account.key, spec_program_storage_seed(), program_id) {
        Err(e) => Err(e),
        Ok(_) => if !payer_account.is_signer {
            Err(MarketError::MissingRequiredSignature)
        } else {
            match spec_check_parsed(storage_account.owner, program_id, s.validation_phrase) {
                Err(e) => Err(e),
                Ok(_) => if payer_account.key != s.authorized_withdrawer {
                    Err(MarketError::Ingl(InglError::AddressMismatch))
                } else if vote_key != s.vote_account {
                    Err(MarketError::Ingl(InglError::AddressMismatch))
                } else if s.purchase is Some && !spec_all_validated(s.secondary_items) {
                    Err(MarketError::Ingl(InglError::TooEarly))
                } else if payer_account.lamports + storage_account.lamports > u64::MAX {
                    Err(MarketError::Ingl(InglError::OptionUnwrapError))
                } else {
                    Ok((payer_account.lamports + storage_account.lamports) as u64)
                },
            }
        },
    }
}

/// Checks that the listing record may be destroyed and returns the seller's
/// balance after the record's whole rent balance moves to them; the zeroing
/// of the record's storage is the runtime's part.
pub fn verify_and_close_storage(
    program_id: &Address,
    storage_account: &AccountFacts,
    storage: &Storage,
    payer_account: &AccountFacts,
    vote_account: &AccountFacts,
) -> (r: Result<u64, MarketError>)
    ensures
        r == spec_verify_and_close_storage(
            *program_id,
            *storage_account,
            storage@,
            *payer_account,
            vote_account.key,
        ),
{
    let seed = program_storage_seed();
    if let Err(e) = storage_account.assert_seed(program_id, seed.as_slice()) {
        return Err(e);
    }
    if let Err(e) = payer_account.assert_signer() {
        return Err(e);
    }
    if let Err(e) = storage.check_parsed(&storage_account.owner, program_id) {
        return Err(e);
    }
    if let Err(e) = payer_account.assert_key_match(&storage.authorized_withdrawer) {
        return Err(e);
    }
    if let Err(e) = vote_account.assert_key_match(&storage.vote_account) {
        return Err(e);
    }
    if storage.purchase.is_some() && !all_items_validated(&storage.secondary_items) {
        return Err(InglError::TooEarly.utilize());
    }
    if payer_account.lamports > u64::MAX - storage_account.lamports {
        return Err(InglError::OptionUnwrapError.utilize());
    }
    Ok(payer_account.lamports + storage_account.lamports)
}

/// What delisting decides as a whole: the upgrade-authority preconditions, the
/// withdrawal-authority preconditions, then the record's destruction preconditions and the
/// seller's resulting balance.
pub open spec fn spec_delist_validator(
    program_id: Address,
    payer_account: AccountFacts,
    vote_account: AccountFacts,
    pda_authorized_withdrawer_key: Address,
    storage_account: AccountFacts,
    s: StorageView,
    this_program: AccountFacts,
    this_program_data_key: Address,
    pda_upgrade_authority_key: Address,
    sysvar_clock_key: Address,
) -> Result<DelistOutcome, MarketError> {
    match spec_change_program_authority(
        program_id,
        this_program,
        this_program_data_key,
        pda_upgrade_authority_key,
    ) {
        Err(e) => Err(e),
        Ok(upgrade_bump) => match spec_change_authorized_withdrawer(
            program_id,
            vote_account,
            sysvar_clock_key,
            pda_authorized_withdrawer_key,
        ) {
            Err(e) => Err(e),
            Ok(withdrawer_bump) => match spec_verify_and_close_storage(
                program_id,
                storage_account,
                s,
                payer_account,
                vote_account.key,
            ) {
                Err(e) => Err(e),
                Ok(lamports) => Ok(
                    DelistOutcome {
                        upgrade_authority_bump: upgrade_bump,
                        withdrawer_bump,
                        seller_lamports_after: lamports,
                    },
                ),
            },
        },
    }
}

/// Delists the validator: verifies every precondition of the two reversing authority
/// handovers and of the record's destruction, and returns the bump seeds for
/// signing together with the seller's balance after the rent returns.
pub fn delist_validator(
    program_id: &Address,
    payer_account: &AccountFacts,
    vote_account: &AccountFacts,
    pda_authorized_withdrawer: &AccountFacts,
    storage_account: &AccountFacts,
    storage: &Storage,
    this_program: &AccountFacts,
    this_program_data: &AccountFacts,
    pda_upgrade_authority: &AccountFacts,
    sysvar_clock_account: &AccountFacts,
) -> (r: Result<DelistOutcome, MarketError>)
    ensures
        r == spec_delist_validator(
            *program_id,
            *payer_account,
            *vote_account,
            pda_authorized_withdrawer.key,
            *storage_account,
            storage@,
            *this_program,
            this_program_data.key,
            pda_upgrade_authority.key,
            sysvar_clock_account.key,
        ),
{
    let upgrade_authority_bump = match change_program_authority(
        program_id,
        pda_upgrade_authority,
        this_program,
        this_program_data,
    ) {
        Ok(b) => b,
        Err(e) => { return Err(e) },
    };
    let withdrawer_bump = match change_authorized_withdrawer(
        program_id,
        vote_account,
        pda_authorized_withdrawer,
        sysvar_clock_account,
    ) {
        Ok(b) => b,
        Err(e) => { return Err(e) },
    };
    let seller_lamports_after = match verify_and_close_storage(
        program_id,
        storage_account,
        storage,
        payer_account,
        vote_account,
    ) {
        Ok(l) => l,
        Err(e) => { return Err(e) },
    };
    Ok(DelistOutcome { upgrade_authority_bump, withdrawer_bump, seller_lamports_after })
}

/// A sold listing with any secondary item still unvalidated cannot be
/// delisted: the settlement precondition fails with `TooEarly`. With every item
/// validated, or with no purchase at all, it succeeds once the identity preconditions
/// pass and the rent fits, and the seller receives the record's full balance.
pub proof fn lemma_delist_settlement_rule(
    program_id: Address,
    storage_account: AccountFacts,
    s: StorageView,
    payer_account: AccountFacts,
    vote_key: Address,
)
    requires
        spec_assert_seed(storage_account.key, spec_program_storage_seed(), program_id) is Ok,
        payer_account.is_signer,
        spec_check_parsed(storage_account.owner, program_id, s.validation_phrase) is Ok,
        payer_account.key == s.authorized_withdrawer,
        vote_key == s.vote_account,
    ensures
        (s.purchase is Some && !spec_all_validated(s.secondary_items))
            ==> spec_verify_and_close_storage(program_id, storage_account, s, payer_account, vote_key)
            == Err::<u64, MarketError>(MarketError::Ingl(InglError::TooEarly)),
        ((s.purchase is None || spec_all_validated(s.secondary_items))
            && payer_account.lamports + storage_account.lamports <= u64::MAX)
            ==> spec_verify_and_close_storage(program_id, storage_account, s, payer_account, vote_key)
            == Ok::<u64, MarketError>((payer_account.lamports + storage_account.lamports) as u64),
{
}

} // verus!
