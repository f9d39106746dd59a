use validator_marketplace::error::{InglError, MarketError};
use validator_marketplace::processes::buy::{
    buy_validator, compute_fee_split, verify_transfer_cost_and_edit_storage,
};
use validator_marketplace::processes::delist::verify_and_close_storage;
use validator_marketplace::processes::mediate::mediate;
use validator_marketplace::processes::request_mediation::request_mediation;
use validator_marketplace::processes::validate_secondary_items_transfers::validate_secondary_items_transfers;
use validator_marketplace::processes::withdraw_rewards::withdraw_rewards;
use validator_marketplace::state::{
    clock_sysvar_id, is_approved_mediator, team_address, vote_program_id, MediationShares,
    Purchase, Storage, StoredSecondaryItem, STORAGE_VALIDATION_PHRASE,
};
use validator_marketplace::utils::{AccountFacts, Address, AccountInfoHelpers};

fn addr(n: u64) -> Address {
    Address { w0: n, w1: n + 7, w2: 3 * n, w3: 1000 + n }
}

fn to_bytes(a: &Address) -> [u8; 32] {
    let mut b = [0u8; 32];
    b[0..8].copy_from_slice(&a.w0.to_le_bytes());
    b[8..16].copy_from_slice(&a.w1.to_le_bytes());
    b[16..24].copy_from_slice(&a.w2.to_le_bytes());
    b[24..32].copy_from_slice(&a.w3.to_le_bytes());
    b
}

fn from_bytes(b: [u8; 32]) -> Address {
    Address {
        w0: u64::from_le_bytes(b[0..8].try_into().unwrap()),
        w1: u64::from_le_bytes(b[8..16].try_into().unwrap()),
        w2: u64::from_le_bytes(b[16..24].try_into().unwrap()),
        w3: u64::from_le_bytes(b[24..32].try_into().unwrap()),
    }
}

fn derived(seed: &[u8], program_id: &Address) -> Address {
    let pid = solana_program::pubkey::Pubkey::new_from_array(to_bytes(program_id));
    let (key, _bump) = solana_program::pubkey::Pubkey::find_program_address(&[seed], &pid);
    from_bytes(key.to_bytes())
}

fn acct(key: Address, owner: Address, is_signer: bool, lamports: u64) -> AccountFacts {
    AccountFacts { key, owner, is_signer, lamports }
}

fn item(cost: u64, validated: Option<u32>) -> StoredSecondaryItem {
    StoredSecondaryItem {
        cost,
        name: b"item".to_vec(),
        description: b"a side deliverable".to_vec(),
        date_validated: validated,
    }
}

fn listed_storage(seller: Address, vote: Address, cost: u64, items: Vec<StoredSecondaryItem>) -> Storage {
    Storage {
        validation_phrase: STORAGE_VALIDATION_PHRASE,
        authorized_withdrawer: seller,
        vote_account: vote,
        authorized_withdrawer_cost: cost,
        mediatable_date: 1000,
        purchase: None,
        request_mediation_date: None,
        mediation_date: None,
        mediation_shares: None,
        secondary_items: items,
        description: b"a validator for sale".to_vec(),
        validator_name: b"validator-one".to_vec(),
        validator_logo_url: b"https://logo.example".to_vec(),
    }
}

fn ingl(e: InglError) -> MarketError {
    MarketError::Ingl(e)
}

struct BuySetup {
    program_id: Address,
    payer: AccountFacts,
    storage_account: AccountFacts,
    registered_aw: AccountFacts,
    escrow: AccountFacts,
    team: AccountFacts,
}

fn buy_setup(seller: Address) -> BuySetup {
    let program_id = addr(1);
    let payer_key = addr(50);
    BuySetup {
        program_id,
        payer: acct(payer_key, addr(99), true, 1_000_000),
        storage_account: acct(derived(b"program_storage", &program_id), program_id, false, 10_000),
        registered_aw: acct(seller, addr(99), false, 0),
        escrow: acct(derived(b"escrow_account", &program_id), program_id, false, 0),
        team: acct(team_address(), addr(99), false, 0),
    }
}

#[test]
fn fee_split_exact_values() {
    // price 10000 with items: seller 7990, team 10, escrow carve-out 2000
    // plus twice the items' cost of 7.
    let split = compute_fee_split(10_000, 7, true).unwrap();
    assert_eq!(split.to_owner, 7990);
    assert_eq!(split.to_escrow, 2000 + 14);
    assert_eq!(split.to_team, 10);
    // without items there is no carve-out
    let split = compute_fee_split(10_000, 0, false).unwrap();
    assert_eq!(split.to_owner, 9990);
    assert_eq!(split.to_escrow, 0);
    assert_eq!(split.to_team, 10);
    // rounding loss stays within two units: 9999 * 7990 / 10000 = 7989,
    // 9999 * 2000 / 10000 = 1999, 9999 * 10 / 10000 = 9.
    let split = compute_fee_split(9999, 0, true).unwrap();
    assert_eq!(split.to_owner, 7989);
    assert_eq!(split.to_escrow, 1999);
    assert_eq!(split.to_team, 9);
    assert!(split.to_owner + split.to_escrow + split.to_team <= 9999);
    assert!(split.to_owner + split.to_escrow + split.to_team >= 9999 - 2);
}

#[test]
fn fee_split_escrow_overflow_fails() {
    assert_eq!(
        compute_fee_split(100, u64::MAX / 2 + 1, true),
        Err(ingl(InglError::BeyondBounds))
    );
}

#[test]
fn buy_records_purchase_and_second_buy_fails() {
    let seller = addr(7);
    let s = buy_setup(seller);
    let mut storage = listed_storage(seller, addr(8), 10_000, vec![item(5, None)]);
    let split = verify_transfer_cost_and_edit_storage(
        &s.program_id, &s.payer, &s.storage_account, &mut storage, &s.registered_aw, &s.escrow,
        &s.team, 123,
    )
    .unwrap();
    assert_eq!(split.to_owner, 7990);
    assert_eq!(split.to_escrow, 2000 + 10);
    assert_eq!(split.to_team, 10);
    let purchase = storage.purchase.expect("purchase must be recorded");
    assert_eq!(purchase.buyer, s.payer.key);
    assert_eq!(purchase.date, 123);
    // items pending: not finalized yet
    assert_eq!(purchase.date_finalized, None);

    let second = verify_transfer_cost_and_edit_storage(
        &s.program_id, &s.payer, &s.storage_account, &mut storage, &s.registered_aw, &s.escrow,
        &s.team, 124,
    );
    assert_eq!(second, Err(ingl(InglError::TooLate)));
}

#[test]
fn buy_without_items_finalizes_immediately() {
    let seller = addr(7);
    let s = buy_setup(seller);
    let mut storage = listed_storage(seller, addr(8), 10_000, vec![]);
    verify_transfer_cost_and_edit_storage(
        &s.program_id, &s.payer, &s.storage_account, &mut storage, &s.registered_aw, &s.escrow,
        &s.team, 123,
    )
    .unwrap();
    assert_eq!(storage.purchase.unwrap().date_finalized, Some(123));
}

#[test]
fn buy_rejects_wrong_team_address() {
    let seller = addr(7);
    let mut s = buy_setup(seller);
    s.team = acct(addr(66), addr(99), false, 0);
    let mut storage = listed_storage(seller, addr(8), 10_000, vec![]);
    let r = verify_transfer_cost_and_edit_storage(
        &s.program_id, &s.payer, &s.storage_account, &mut storage, &s.registered_aw, &s.escrow,
        &s.team, 123,
    );
    assert_eq!(r, Err(ingl(InglError::AddressMismatch)));
    assert!(storage.purchase.is_none());
}

#[test]
fn buy_validator_checks_handover_gates() {
    let seller = addr(7);
    let s = buy_setup(seller);
    let vote_key = addr(8);
    let mut storage = listed_storage(seller, vote_key, 10_000, vec![]);
    let vote_account = acct(vote_key, vote_program_id(), false, 5_000_000);
    let clock = acct(clock_sysvar_id(), addr(99), false, 0);
    let pda_aw = acct(derived(b"authorized_withdrawer", &s.program_id), addr(99), false, 0);
    let r = buy_validator(
        &s.program_id, &s.payer, &s.storage_account, &mut storage, &s.registered_aw,
        &vote_account, &clock, &pda_aw, &s.escrow, &s.team, 200,
    );
    let (split, _bump) = r.unwrap();
    assert_eq!(split.to_owner, 9990);
    // a vote account owned by the wrong program is rejected before anything
    // changes
    let mut storage2 = listed_storage(seller, vote_key, 10_000, vec![]);
    let bad_vote = acct(vote_key, addr(99), false, 5_000_000);
    let r2 = buy_validator(
        &s.program_id, &s.payer, &s.storage_account, &mut storage2, &s.registered_aw, &bad_vote,
        &clock, &pda_aw, &s.escrow, &s.team, 200,
    );
    assert_eq!(r2.unwrap_err(), ingl(InglError::AddressMismatch));
    assert!(storage2.purchase.is_none());
}

struct ValidateSetup {
    program_id: Address,
    buyer: AccountFacts,
    storage_account: AccountFacts,
    escrow: AccountFacts,
    aw: AccountFacts,
}

fn validate_setup(seller: Address, buyer_key: Address, escrow_lamports: u64) -> ValidateSetup {
    let program_id = addr(1);
    ValidateSetup {
        program_id,
        buyer: acct(buyer_key, addr(99), true, 0),
        storage_account: acct(derived(b"program_storage", &program_id), program_id, false, 10_000),
        escrow: acct(derived(b"escrow_account", &program_id), program_id, false, escrow_lamports),
        aw: acct(seller, addr(99), false, 0),
    }
}

fn sold_storage(seller: Address, buyer: Address, items: Vec<StoredSecondaryItem>) -> Storage {
    let mut s = listed_storage(seller, addr(8), 10_000, items);
    s.purchase = Some(Purchase { buyer, date: 100, date_finalized: None });
    s
}

#[test]
fn validate_last_item_settles_escrow() {
    let seller = addr(7);
    let buyer = addr(50);
    let v = validate_setup(seller, buyer, 2030);
    let mut storage = sold_storage(seller, buyer, vec![item(5, None), item(10, None)]);

    // first item: no funds move
    let r1 = validate_secondary_items_transfers(
        &v.program_id, &v.buyer, &v.storage_account, &mut storage, &v.escrow, &v.aw, 0, 150,
    )
    .unwrap();
    assert!(r1.is_none());
    assert_eq!(storage.secondary_items[0].date_validated, Some(150));
    assert_eq!(storage.purchase.unwrap().date_finalized, None);

    // the same index again: too late
    let r2 = validate_secondary_items_transfers(
        &v.program_id, &v.buyer, &v.storage_account, &mut storage, &v.escrow, &v.aw, 0, 151,
    );
    assert_eq!(r2, Err(ingl(InglError::TooLate)));

    // the last item: the items' cost back to the buyer, the rest of the
    // escrow to the seller, and the purchase finalized
    let r3 = validate_secondary_items_transfers(
        &v.program_id, &v.buyer, &v.storage_account, &mut storage, &v.escrow, &v.aw, 1, 152,
    )
    .unwrap()
    .expect("the last validation settles");
    assert_eq!(r3.to_buyer, 15);
    assert_eq!(r3.to_seller, 2030 - 15);
    assert_eq!(storage.purchase.unwrap().date_finalized, Some(152));

    // after settlement every validation is too late
    let r4 = validate_secondary_items_transfers(
        &v.program_id, &v.buyer, &v.storage_account, &mut storage, &v.escrow, &v.aw, 1, 153,
    );
    assert_eq!(r4, Err(ingl(InglError::TooLate)));
}

#[test]
fn validate_requires_buyer_signature_and_identity() {
    let seller = addr(7);
    let buyer = addr(50);
    let v = validate_setup(seller, buyer, 2030);
    let mut storage = sold_storage(seller, buyer, vec![item(5, None)]);
    let unsigned = acct(buyer, addr(99), false, 0);
    let r = validate_secondary_items_transfers(
        &v.program_id, &unsigned, &v.storage_account, &mut storage, &v.escrow, &v.aw, 0, 150,
    );
    assert_eq!(r, Err(MarketError::MissingRequiredSignature));
    let stranger = acct(addr(51), addr(99), true, 0);
    let r = validate_secondary_items_transfers(
        &v.program_id, &stranger, &v.storage_account, &mut storage, &v.escrow, &v.aw, 0, 150,
    );
    assert_eq!(r, Err(ingl(InglError::AddressMismatch)));
}

#[test]
fn request_mediation_window_gates() {
    let program_id = addr(1);
    let seller = addr(7);
    let buyer = addr(50);
    let storage_account = acct(derived(b"program_storage", &program_id), program_id, false, 0);
    let seller_signer = acct(seller, addr(99), true, 0);
    let mut storage = sold_storage(seller, buyer, vec![item(5, None)]);
    storage.mediatable_date = 1000;

    // before the window: too early
    let r = request_mediation(&program_id, &seller_signer, &storage_account, &mut storage, 999);
    assert_eq!(r, Err(ingl(InglError::TooEarly)));
    assert_eq!(storage.request_mediation_date, None);

    // at the window: recorded
    request_mediation(&program_id, &seller_signer, &storage_account, &mut storage, 1000).unwrap();
    assert_eq!(storage.request_mediation_date, Some(1000));

    // a second request: too late
    let r = request_mediation(&program_id, &seller_signer, &storage_account, &mut storage, 1001);
    assert_eq!(r, Err(ingl(InglError::TooLate)));
}

#[test]
fn request_mediation_rejects_strangers_and_unsold() {
    let program_id = addr(1);
    let seller = addr(7);
    let buyer = addr(50);
    let storage_account = acct(derived(b"program_storage", &program_id), program_id, false, 0);
    let stranger = acct(addr(60), addr(99), true, 0);
    let mut storage = sold_storage(seller, buyer, vec![]);
    storage.purchase = Some(Purchase { buyer, date: 100, date_finalized: None });
    let r = request_mediation(&program_id, &stranger, &storage_account, &mut storage, 2000);
    assert_eq!(r, Err(ingl(InglError::NotAuthorized)));

    let seller_signer = acct(seller, addr(99), true, 0);
    let mut unsold = listed_storage(seller, addr(8), 10_000, vec![]);
    let r = request_mediation(&program_id, &seller_signer, &storage_account, &mut unsold, 2000);
    assert_eq!(r, Err(ingl(InglError::OptionUnwrapError)));
}

struct MediateSetup {
    program_id: Address,
    mediator: AccountFacts,
    aw: AccountFacts,
    storage_account: AccountFacts,
    buyer: AccountFacts,
    escrow: AccountFacts,
    team: AccountFacts,
}

fn mediate_setup(seller: Address, buyer_key: Address, escrow_lamports: u64) -> MediateSetup {
    let program_id = addr(1);
    MediateSetup {
        program_id,
        mediator: acct(team_address(), addr(99), true, 0),
        aw: acct(seller, addr(99), false, 0),
        storage_account: acct(derived(b"program_storage", &program_id), program_id, false, 0),
        buyer: acct(buyer_key, addr(99), false, 0),
        escrow: acct(derived(b"escrow_account", &program_id), program_id, false, escrow_lamports),
        team: acct(team_address(), addr(99), false, 0),
    }
}

fn disputed_storage(seller: Address, buyer: Address) -> Storage {
    let mut s = sold_storage(seller, buyer, vec![item(5, None)]);
    s.request_mediation_date = Some(1500);
    s
}

#[test]
fn mediation_shares_split_escrow_with_team_remainder() {
    let seller = addr(7);
    let buyer = addr(50);
    let m = mediate_setup(seller, buyer, 101);
    let mut storage = disputed_storage(seller, buyer);
    let shares = MediationShares { buyer: 40, seller: 40, team: 20 };
    let payout = mediate(
        &m.program_id, &m.mediator, &m.aw, &m.storage_account, &mut storage, &m.buyer, &m.escrow,
        &m.team, shares, 1600,
    )
    .unwrap();
    // 40% and 40% of 101 round down to 40 each; the team absorbs the
    // remainder of 21.
    assert_eq!(payout.to_buyer, 40);
    assert_eq!(payout.to_seller, 40);
    assert_eq!(payout.to_team, 21);
    assert_eq!(storage.mediation_date, Some(1600));
    assert_eq!(storage.mediation_shares, Some(shares));
    assert_eq!(storage.purchase.unwrap().date_finalized, Some(1600));
}

#[test]
fn mediation_shares_must_sum_to_100() {
    let seller = addr(7);
    let buyer = addr(50);
    let m = mediate_setup(seller, buyer, 101);
    let mut storage = disputed_storage(seller, buyer);
    let r = mediate(
        &m.program_id, &m.mediator, &m.aw, &m.storage_account, &mut storage, &m.buyer, &m.escrow,
        &m.team, MediationShares { buyer: 40, seller: 40, team: 19 }, 1600,
    );
    assert_eq!(r, Err(ingl(InglError::InvalidData)));
    let r = mediate(
        &m.program_id, &m.mediator, &m.aw, &m.storage_account, &mut storage, &m.buyer, &m.escrow,
        &m.team, MediationShares { buyer: 40, seller: 40, team: 21 }, 1600,
    );
    assert_eq!(r, Err(ingl(InglError::InvalidData)));
    assert_eq!(storage.mediation_date, None);
}

#[test]
fn mediation_gates() {
    let seller = addr(7);
    let buyer = addr(50);
    let m = mediate_setup(seller, buyer, 101);
    let shares = MediationShares { buyer: 40, seller: 40, team: 20 };

    // only an approved mediator
    assert!(is_approved_mediator(&team_address()));
    assert!(!is_approved_mediator(&addr(3)));
    let stranger = acct(addr(3), addr(99), true, 0);
    let mut storage = disputed_storage(seller, buyer);
    let r = mediate(
        &m.program_id, &stranger, &m.aw, &m.storage_account, &mut storage, &m.buyer, &m.escrow,
        &m.team, shares, 1600,
    );
    assert_eq!(r, Err(ingl(InglError::NotAuthorized)));

    // no request yet: too early
    let mut undisputed = sold_storage(seller, buyer, vec![item(5, None)]);
    let r = mediate(
        &m.program_id, &m.mediator, &m.aw, &m.storage_account, &mut undisputed, &m.buyer,
        &m.escrow, &m.team, shares, 1600,
    );
    assert_eq!(r, Err(ingl(InglError::TooEarly)));

    // already mediated: too late
    let mut resolved = disputed_storage(seller, buyer);
    resolved.mediation_date = Some(1550);
    let r = mediate(
        &m.program_id, &m.mediator, &m.aw, &m.storage_account, &mut resolved, &m.buyer, &m.escrow,
        &m.team, shares, 1600,
    );
    assert_eq!(r, Err(ingl(InglError::TooLate)));
}

#[test]
fn delist_waits_for_unvalidated_items() {
    let program_id = addr(1);
    let seller = addr(7);
    let buyer = addr(50);
    let storage_account = acct(derived(b"program_storage", &program_id), program_id, false, 4000);
    let seller_signer = acct(seller, addr(99), true, 100);
    let vote = acct(addr(8), vote_program_id(), false, 0);

    // one of two items unvalidated: too early
    let storage = sold_storage(seller, buyer, vec![item(5, Some(150)), item(10, None)]);
    let r = verify_and_close_storage(&program_id, &storage_account, &storage, &seller_signer, &vote);
    assert_eq!(r, Err(ingl(InglError::TooEarly)));

    // both validated: the record's full balance goes to the seller
    let storage = sold_storage(seller, buyer, vec![item(5, Some(150)), item(10, Some(151))]);
    let r = verify_and_close_storage(&program_id, &storage_account, &storage, &seller_signer, &vote);
    assert_eq!(r, Ok(4100));

    // no purchase at all: always allowed
    let storage = listed_storage(seller, addr(8), 10_000, vec![item(5, None)]);
    let r = verify_and_close_storage(&program_id, &storage_account, &storage, &seller_signer, &vote);
    assert_eq!(r, Ok(4100));
}

#[test]
fn withdraw_rewards_sweeps_above_reserve() {
    let program_id = addr(1);
    let seller = addr(7);
    let vote_key = addr(8);
    let storage = listed_storage(seller, vote_key, 10_000, vec![]);
    let aw = acct(seller, addr(99), false, 0);
    let vote = acct(vote_key, vote_program_id(), false, 5_000_000);
    let pda_aw = acct(derived(b"authorized_withdrawer", &program_id), addr(99), false, 0);
    let storage_account = acct(derived(b"program_storage", &program_id), program_id, false, 0);

    let (_bump, amount) =
        withdraw_rewards(&program_id, &aw, &vote, &pda_aw, &storage_account, &storage, 3_000_000)
            .unwrap();
    assert_eq!(amount, 2_000_000);

    // a validator below its reserve has nothing to sweep
    let r = withdraw_rewards(&program_id, &aw, &vote, &pda_aw, &storage_account, &storage, 6_000_000);
    assert_eq!(r, Err(ingl(InglError::OptionUnwrapError)));

    // a vote account that is not the recorded one is rejected
    let other_vote = acct(addr(9), vote_program_id(), false, 5_000_000);
    let r = withdraw_rewards(
        &program_id, &aw, &other_vote, &pda_aw, &storage_account, &storage, 3_000_000,
    );
    assert_eq!(r, Err(ingl(InglError::AddressMismatch)));
}

#[test]
fn derived_address_gate_depends_on_seed_and_program() {
    let program_id = addr(1);
    let storage_key = derived(b"program_storage", &program_id);
    // the derived address is none of the inputs
    assert_ne!(storage_key, program_id);
    let right = acct(storage_key, program_id, false, 0);
    assert!(right.assert_seed(&program_id, b"program_storage").is_ok());
    // the same account against another seed fails
    assert_eq!(
        right.assert_seed(&program_id, b"escrow_account").unwrap_err(),
        ingl(InglError::AddressMismatch)
    );
    // an account at the program's own address fails
    let wrong = acct(program_id, program_id, false, 0);
    assert_eq!(
        wrong.assert_seed(&program_id, b"program_storage").unwrap_err(),
        ingl(InglError::AddressMismatch)
    );
}

#[test]
fn sum_of_item_costs_overflow_is_rejected() {
    let items = vec![item(u64::MAX, None), item(2, None)];
    let r = validator_marketplace::state::sum_secondary_item_costs(&items);
    assert_eq!(r, Err(ingl(InglError::BeyondBounds)));
    let items = vec![item(3, None), item(39, None)];
    assert_eq!(validator_marketplace::state::sum_secondary_item_costs(&items), Ok(42));
}

#[test]
fn verify_sum_accepts_exactly_100() {
    assert!(MediationShares { buyer: 0, seller: 0, team: 100 }.verify_sum().is_ok());
    assert!(MediationShares { buyer: 33, seller: 33, team: 33 }.verify_sum().is_err());
    // a sum that would overflow a byte still answers instead of failing
    assert!(MediationShares { buyer: 200, seller: 200, team: 200 }.verify_sum().is_err());
}
