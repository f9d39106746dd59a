use validator_marketplace::error::{InglError, MarketError};
use validator_marketplace::instruction::SecondaryItem;
use validator_marketplace::processes::delist::delist_validator;
use validator_marketplace::processes::list::list_validator;
use validator_marketplace::state::{
    bpf_loader_upgradeable_id, clock_sysvar_id, vote_program_id, Purchase, Storage,
    StoredSecondaryItem, STORAGE_VALIDATION_PHRASE,
};
use validator_marketplace::utils::{AccountFacts, Address};

fn addr(n: u64) -> Address {
    Address { w0: n, w1: n + 7, w2: 3 * n, w3: 1000 + n }
}

fn to_bytes(a: &Address) -> [u8; 32] {
    let mut b = [0u8; 32];
    b[0..8].copy_from_slice(&a.w0.to_le_bytes());
    b[8..16].copy_from_slice(&a.w1.to_le_bytes());
    b[16..24].copy_from_slice(&a.w2.to_le_bytes());
    b[24..32].copy_from_slice(&a.w3.to_le_bytes());
    b
}

fn from_bytes(b: [u8; 32]) -> Address {
    Address {
        w0: u64::from_le_bytes(b[0..8].try_into().unwrap()),
        w1: u64::from_le_bytes(b[8..16].try_into().unwrap()),
        w2: u64::from_le_bytes(b[16..24].try_into().unwrap()),
        w3: u64::from_le_bytes(b[24..32].try_into().unwrap()),
    }
}

fn derived(seed: &[u8], program_id: &Address) -> Address {
    let pid = solana_program::pubkey::Pubkey::new_from_array(to_bytes(program_id));
    let (key, _bump) = solana_program::pubkey::Pubkey::find_program_address(&[seed], &pid);
    from_bytes(key.to_bytes())
}

fn acct(key: Address, owner: Address, is_signer: bool, lamports: u64) -> AccountFacts {
    AccountFacts { key, owner, is_signer, lamports }
}

struct ListSetup {
    program_id: Address,
    seller: AccountFacts,
    vote: AccountFacts,
    vote_state_aw: Address,
    pda_aw: AccountFacts,
    storage_account: AccountFacts,
    this_program: AccountFacts,
    this_program_data: AccountFacts,
    program_data_bytes: Vec<u8>,
    upgrade_authority: AccountFacts,
    pda_upgrade: AccountFacts,
    clock: AccountFacts,
}

fn list_setup() -> ListSetup {
    let program_id = addr(1);
    let seller_key = addr(7);
    let loader = bpf_loader_upgradeable_id();
    let mut program_data_bytes = vec![0u8; 13];
    program_data_bytes.extend_from_slice(&to_bytes(&seller_key));
    program_data_bytes.extend_from_slice(&[0u8; 10]);
    ListSetup {
        program_id,
        seller: acct(seller_key, addr(99), true, 1_000_000),
        vote: acct(addr(8), vote_program_id(), false, 5_000_000),
        vote_state_aw: seller_key,
        pda_aw: acct(derived(b"authorized_withdrawer", &program_id), addr(99), false, 0),
        storage_account: acct(derived(b"program_storage", &program_id), program_id, false, 0),
        this_program: acct(program_id, loader, false, 1),
        this_program_data: acct(derived(&to_bytes(&program_id), &loader), loader, false, 1),
        program_data_bytes,
        upgrade_authority: acct(seller_key, addr(99), true, 0),
        pda_upgrade: acct(derived(b"upgrade_authority", &program_id), addr(99), false, 0),
        clock: acct(clock_sysvar_id(), addr(99), false, 0),
    }
}

fn run_list(
    s: &ListSetup,
    items: &Vec<SecondaryItem>,
    name: Vec<u8>,
    mediatable_date: u32,
    now: u32,
) -> Result<validator_marketplace::processes::list::ListOutcome, MarketError> {
    list_validator(
        &s.program_id,
        &s.seller,
        &s.vote,
        &s.vote_state_aw,
        &s.pda_aw,
        &s.storage_account,
        &s.this_program,
        &s.this_program_data,
        &s.program_data_bytes,
        &s.upgrade_authority,
        &s.pda_upgrade,
        &s.clock,
        10_000,
        items,
        b"a validator for sale".to_vec(),
        name,
        b"https://logo.example".to_vec(),
        mediatable_date,
        now,
    )
}

#[test]
fn list_populates_the_record() {
    let s = list_setup();
    let items = vec![SecondaryItem {
        cost: 5,
        name: b"item".to_vec(),
        description: b"a side deliverable".to_vec(),
    }];
    let outcome = run_list(&s, &items, b"validator-one".to_vec(), 900, 600).unwrap();
    let storage = &outcome.storage;
    assert_eq!(storage.validation_phrase, STORAGE_VALIDATION_PHRASE);
    assert_eq!(storage.authorized_withdrawer, s.seller.key);
    assert_eq!(storage.vote_account, s.vote.key);
    assert_eq!(storage.authorized_withdrawer_cost, 10_000);
    assert_eq!(storage.mediatable_date, 900);
    assert!(storage.purchase.is_none());
    assert!(storage.request_mediation_date.is_none());
    assert!(storage.mediation_date.is_none());
    assert!(storage.mediation_shares.is_none());
    assert_eq!(storage.secondary_items.len(), 1);
    assert_eq!(storage.secondary_items[0].cost, 5);
    assert_eq!(storage.secondary_items[0].name, b"item".to_vec());
    assert!(storage.secondary_items[0].date_validated.is_none());
    assert_eq!(outcome.space, storage.get_space());
}

#[test]
fn list_rejects_far_window_and_empty_name() {
    let s = list_setup();
    let items: Vec<SecondaryItem> = vec![];
    // a window more than thirty days ahead is rejected
    let r = run_list(&s, &items, b"validator-one".to_vec(), 600 + 30 * 86400 + 1, 600);
    assert_eq!(r.unwrap_err(), MarketError::Ingl(InglError::TooLate));
    // an empty validator name is rejected
    let r = run_list(&s, &items, Vec::new(), 900, 600);
    assert_eq!(r.unwrap_err(), MarketError::Ingl(InglError::InvalidData));
    // the window's last allowed second is accepted
    assert!(run_list(&s, &items, b"validator-one".to_vec(), 600 + 30 * 86400, 600).is_ok());
}

#[test]
fn list_rejects_a_stranger_to_both_authorities() {
    let mut s = list_setup();
    // the signer is not the vote account's recorded withdrawer
    s.vote_state_aw = addr(77);
    let items: Vec<SecondaryItem> = vec![];
    let r = run_list(&s, &items, b"validator-one".to_vec(), 900, 600);
    assert_eq!(r.unwrap_err(), MarketError::Ingl(InglError::AddressMismatch));
    // the upgrade authority did not sign
    let mut s = list_setup();
    s.upgrade_authority.is_signer = false;
    let r = run_list(&s, &items, b"validator-one".to_vec(), 900, 600);
    assert_eq!(r.unwrap_err(), MarketError::MissingRequiredSignature);
}

fn stored_item(cost: u64, validated: Option<u32>) -> StoredSecondaryItem {
    StoredSecondaryItem {
        cost,
        name: b"item".to_vec(),
        description: b"a side deliverable".to_vec(),
        date_validated: validated,
    }
}

#[test]
fn delist_returns_the_record_balance() {
    let s = list_setup();
    let loader = bpf_loader_upgradeable_id();
    let mut storage = Storage {
        validation_phrase: STORAGE_VALIDATION_PHRASE,
        authorized_withdrawer: s.seller.key,
        vote_account: s.vote.key,
        authorized_withdrawer_cost: 10_000,
        mediatable_date: 900,
        purchase: Some(Purchase { buyer: addr(50), date: 700, date_finalized: Some(800) }),
        request_mediation_date: None,
        mediation_date: None,
        mediation_shares: None,
        secondary_items: vec![stored_item(5, Some(750)), stored_item(10, Some(760))],
        description: b"a validator for sale".to_vec(),
        validator_name: b"validator-one".to_vec(),
        validator_logo_url: b"https://logo.example".to_vec(),
    };
    let storage_account = acct(s.storage_account.key, s.program_id, false, 4000);
    let this_program = acct(s.program_id, loader, false, 1);
    let outcome = delist_validator(
        &s.program_id,
        &s.seller,
        &s.vote,
        &s.pda_aw,
        &storage_account,
        &storage,
        &this_program,
        &s.this_program_data,
        &s.pda_upgrade,
        &s.clock,
    )
    .unwrap();
    assert_eq!(outcome.seller_lamports_after, 1_000_000 + 4000);

    // with one item unvalidated the same delisting is too early
    storage.secondary_items[1].date_validated = None;
    let r = delist_validator(
        &s.program_id,
        &s.seller,
        &s.vote,
        &s.pda_aw,
        &storage_account,
        &storage,
        &this_program,
        &s.this_program_data,
        &s.pda_upgrade,
        &s.clock,
    );
    assert_eq!(r.unwrap_err(), MarketError::Ingl(InglError::TooEarly));
}
