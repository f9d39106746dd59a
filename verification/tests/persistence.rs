use validator_marketplace::error::{InglError, MarketError};
use validator_marketplace::instruction::SecondaryItem;
use validator_marketplace::state::{
    AuthorizedVoters, CircBuf, MediationShares, Purchase, Storage, StoredSecondaryItem,
    VoteState, VoteState0_23_5, VoteStateVersions, STORAGE_VALIDATION_PHRASE,
};
use validator_marketplace::utils::{AccountFacts, Address};

fn addr(n: u64) -> Address {
    Address { w0: n, w1: n + 7, w2: 3 * n, w3: 1000 + n }
}

fn stored_item(cost: u64, validated: Option<u32>) -> StoredSecondaryItem {
    StoredSecondaryItem {
        cost,
        name: b"item".to_vec(),
        description: b"a side deliverable".to_vec(),
        date_validated: validated,
    }
}

fn full_storage() -> Storage {
    Storage {
        validation_phrase: STORAGE_VALIDATION_PHRASE,
        authorized_withdrawer: addr(7),
        vote_account: addr(8),
        authorized_withdrawer_cost: 10_000,
        mediatable_date: 900,
        purchase: Some(Purchase { buyer: addr(50), date: 700, date_finalized: None }),
        request_mediation_date: Some(950),
        mediation_date: None,
        mediation_shares: Some(MediationShares { buyer: 40, seller: 40, team: 20 }),
        secondary_items: vec![stored_item(5, Some(750)), stored_item(10, None)],
        description: b"a validator for sale".to_vec(),
        validator_name: b"validator-one".to_vec(),
        validator_logo_url: b"https://logo.example".to_vec(),
    }
}

fn assert_storages_equal(a: &Storage, b: &Storage) {
    assert_eq!(a.validation_phrase, b.validation_phrase);
    assert_eq!(a.authorized_withdrawer, b.authorized_withdrawer);
    assert_eq!(a.vote_account, b.vote_account);
    assert_eq!(a.authorized_withdrawer_cost, b.authorized_withdrawer_cost);
    assert_eq!(a.mediatable_date, b.mediatable_date);
    assert_eq!(a.purchase, b.purchase);
    assert_eq!(a.request_mediation_date, b.request_mediation_date);
    assert_eq!(a.mediation_date, b.mediation_date);
    assert_eq!(a.mediation_shares, b.mediation_shares);
    assert_eq!(a.secondary_items.len(), b.secondary_items.len());
    for (x, y) in a.secondary_items.iter().zip(b.secondary_items.iter()) {
        assert_eq!(x.cost, y.cost);
        assert_eq!(x.name, y.name);
        assert_eq!(x.description, y.description);
        assert_eq!(x.date_validated, y.date_validated);
    }
    assert_eq!(a.description, b.description);
    assert_eq!(a.validator_name, b.validator_name);
    assert_eq!(a.validator_logo_url, b.validator_logo_url);
}

#[test]
fn storage_round_trips_through_its_bytes() {
    let storage = full_storage();
    let mut bytes = storage.serialize();
    let serialized_len = bytes.len();
    // the record ignores whatever the allocated account holds after it
    bytes.extend_from_slice(&[0u8; 64]);
    let (parsed, consumed) = Storage::deserialize(&bytes).unwrap();
    assert_eq!(consumed, serialized_len);
    assert_storages_equal(&storage, &parsed);
    assert_eq!(parsed.serialize(), storage.serialize());
}

#[test]
fn storage_layout_starts_with_tag_and_seller() {
    let storage = full_storage();
    let bytes = storage.serialize();
    // 4-byte tag, little endian
    assert_eq!(&bytes[0..4], &STORAGE_VALIDATION_PHRASE.to_le_bytes());
    // then the 32-byte seller address
    assert_eq!(&bytes[4..12], &addr(7).w0.to_le_bytes());
    // price at its fixed offset behind tag and the two addresses
    assert_eq!(&bytes[68..76], &10_000u64.to_le_bytes());
}

#[test]
fn deserialize_rejects_malformed_bytes() {
    // too short
    let r = Storage::deserialize(&vec![1, 2, 3]);
    assert_eq!(r.unwrap_err(), MarketError::Ingl(InglError::InvalidData));
    // an invalid option tag
    let mut bytes = full_storage().serialize();
    bytes[80] = 7; // the purchase block's tag
    let r = Storage::deserialize(&bytes);
    assert_eq!(r.unwrap_err(), MarketError::Ingl(InglError::InvalidData));
    // truncated in the middle of the item list
    let bytes = full_storage().serialize();
    let truncated: Vec<u8> = bytes[0..bytes.len() - 40].to_vec();
    let r = Storage::deserialize(&truncated);
    assert_eq!(r.unwrap_err(), MarketError::Ingl(InglError::InvalidData));
}

#[test]
fn parse_checks_owner_and_validation_phrase() {
    let program_id = addr(1);
    let storage = full_storage();
    let bytes = storage.serialize();
    let owned = AccountFacts { key: addr(2), owner: program_id, is_signer: false, lamports: 0 };
    let parsed = Storage::parse(&bytes, &owned, &program_id).unwrap();
    assert_eq!(parsed.authorized_withdrawer, addr(7));

    let foreign = AccountFacts { key: addr(2), owner: addr(66), is_signer: false, lamports: 0 };
    let r = Storage::parse(&bytes, &foreign, &program_id);
    assert_eq!(r.unwrap_err(), MarketError::Ingl(InglError::AddressMismatch));

    let mut wrong_phrase = full_storage();
    wrong_phrase.validation_phrase = 5;
    let bytes = wrong_phrase.serialize();
    let r = Storage::parse(&bytes, &owned, &program_id);
    assert_eq!(r.unwrap_err(), MarketError::Ingl(InglError::InvalidValPhrase));
}

#[test]
fn get_space_matches_the_layout() {
    let storage = full_storage();
    // fixed part: 4 + 32 + 32 + 8 + 4 + 1 + 41 + 5 + 1 + 24 + 4 = 156; then
    // the items (21 + 4 + 18 each), and 13 more bytes of prefixes around the
    // three strings.
    let items: usize = 2 * (21 + 4 + 18);
    let strings: usize = 20 + 13 + 20;
    assert_eq!(storage.get_space(), 156 + items + 13 + strings);
    assert_eq!(storage.checked_space(), Some(storage.get_space()));
    assert_eq!(Purchase::get_space(), 41);
    assert_eq!(MediationShares::get_space(), 24);
    assert_eq!(stored_item(5, None).get_space(), 21 + 4 + 18);
}

#[test]
fn to_stored_keeps_the_item_unvalidated() {
    let supplied = SecondaryItem {
        cost: 5,
        name: b"item".to_vec(),
        description: b"a side deliverable".to_vec(),
    };
    let stored = supplied.to_stored();
    assert_eq!(stored.cost, 5);
    assert_eq!(stored.name, b"item".to_vec());
    assert_eq!(stored.description, b"a side deliverable".to_vec());
    assert!(stored.date_validated.is_none());
}

#[test]
fn circ_buf_append_wraps_around() {
    let mut ring: CircBuf<u8> = CircBuf { buf: vec![0; 32], idx: 31 };
    ring.append(7);
    assert_eq!(ring.idx, 0);
    assert_eq!(ring.buf[0], 7);
    ring.append(9);
    assert_eq!(ring.idx, 1);
    assert_eq!(ring.buf[1], 9);
    assert_eq!(ring.buf[0], 7);
}

#[test]
fn vote_state_versions_convert_to_current() {
    let old = VoteState0_23_5 {
        node_pubkey: addr(3),
        authorized_voter: addr(4),
        authorized_voter_epoch: 11,
        prior_voters: CircBuf { buf: vec![(addr(0), 0, 0, 0); 32], idx: 31 },
        authorized_withdrawer: addr(5),
        commission: 10,
    };
    let current = VoteStateVersions::V0_23_5(Box::new(old)).convert_to_current();
    assert_eq!(current.node_pubkey, addr(3));
    assert_eq!(current.authorized_withdrawer, addr(5));
    assert_eq!(current.commission, 10);
    assert!(current.votes.is_empty());
    assert!(current.root_slot.is_none());
    assert_eq!(current.authorized_voters.last(), Some((11, addr(4))));

    let newer = VoteState {
        node_pubkey: addr(3),
        authorized_withdrawer: addr(6),
        commission: 9,
        votes: Vec::new(),
        root_slot: Some(42),
        authorized_voters: AuthorizedVoters::new(12, addr(4)),
    };
    let current = VoteStateVersions::Current(Box::new(newer)).convert_to_current();
    assert_eq!(current.authorized_withdrawer, addr(6));
    assert_eq!(current.root_slot, Some(42));
    assert_eq!(VoteState::space(), 3731);
}

#[test]
fn authorized_voters_track_the_latest() {
    let voters = AuthorizedVoters::new(11, addr(4));
    assert_eq!(voters.last(), Some((11, addr(4))));
    let empty = AuthorizedVoters { authorized_voters: Vec::new() };
    assert_eq!(empty.last(), None);
}
