//! The listing ledger: the single persistent record describing the current
//! listing, the protocol's fixed parameters, and the vote-account state the
//! protocol reads.

use vstd::prelude::*;
use crate::error::{InglError, MarketError};
use crate::utils::Address;

verus! {

/// Seed of the protocol's withdrawer-proxy derived identity (the bytes of "authorized_withdrawer").
pub open spec fn spec_pda_authorized_withdrawer_seed() -> Seq<u8> {
    seq![97u8, 117u8, 116u8, 104u8, 111u8, 114u8, 105u8, 122u8, 101u8, 100u8, 95u8, 119u8, 105u8, 116u8, 104u8, 100u8, 114u8, 97u8, 119u8, 101u8, 114u8]
}

/// Seed of the protocol's withdrawer-proxy derived identity.
pub fn pda_authorized_withdrawer_seed() -> (s: Vec<u8>)
    ensures
        s@ == spec_pda_authorized_withdrawer_seed(),
{
    let mut s: Vec<u8> = Vec::new();
    s.push(97);
    s.push(117);
    s.push(116);
    s.push(104);
    s.push(111);
    s.push(114);
    s.push(105);
    s.push(122);
    s.push(101);
    s.push(100);
    s.push(95);
    s.push(119);
    s.push(105);
    s.push(116);
    s.push(104);
    s.push(100);
    s.push(114);
    s.push(97);
    s.push(119);
    s.push(101);
    s.push(114);
    proof {
        assert(s@ =~= spec_pda_authorized_withdrawer_seed());
    }
    s
}

/// Seed of the listing record's derived storage address (the bytes of "program_storage").
pub open spec fn spec_program_storage_seed() -> Seq<u8> {
    seq![112u8, 114u8, 111u8, 103u8, 114u8, 97u8, 109u8, 95u8, 115u8, 116u8, 111u8, 114u8, 97u8, 103u8, 101u8]
}

/// Seed of the listing record's derived storage address.
pub fn program_storage_seed() -> (s: Vec<u8>)
    ensures
        s@ == spec_program_storage_seed(),
{
    let mut s: Vec<u8> = Vec::new();
    s.push(112);
    s.push(114);
    s.push(111);
    s.push(103);
    s.push(114);
    s.push(97);
    s.push(109);
    s.push(95);
    s.push(115);
    s.push(116);
    s.push(111);
    s.push(114);
    s.push(97);
    s.push(103);
    s.push(101);
    proof {
        assert(s@ =~= spec_program_storage_seed());
    }
    s
}

/// Seed of the protocol's upgrade-proxy derived identity (the bytes of "upgrade_authority").
pub open spec fn spec_pda_upgrade_authority_seed() -> Seq<u8> {
    seq![117u8, 112u8, 103u8, 114u8, 97u8, 100u8, 101u8, 95u8, 97u8, 117u8, 116u8, 104u8, 111u8, 114u8, 105u8, 116u8, 121u8]
}

/// Seed of the protocol's upgrade-proxy derived identity.
pub fn pda_upgrade_authority_seed() -> (s: Vec<u8>)
    ensures
        s@ == spec_pda_upgrade_authority_seed(),
{
    let mut s: Vec<u8> = Vec::new();
    s.push(117);
    s.push(112);
    s.push(103);
    s.push(114);
    s.push(97);
    s.push(100);
    s.push(101);
    s.push(95);
    s.push(97);
    s.push(117);
    s.push(116);
    s.push(104);
    s.push(111);
    s.push(114);
    s.push(105);
    s.push(116);
    s.push(121);
    proof {
        assert(s@ =~= spec_pda_upgrade_authority_seed());
    }
    s
}

/// Seed of the escrow vault's derived address (the bytes of "escrow_account").
pub open spec fn spec_escrow_account_seed() -> Seq<u8> {
    seq![101u8, 115u8, 99u8, 114u8, 111u8, 119u8, 95u8, 97u8, 99u8, 99u8, 111u8, 117u8, 110u8, 116u8]
}

/// Seed of the escrow vault's derived address.
pub fn escrow_account_seed() -> (s: Vec<u8>)
    ensures
        s@ == spec_escrow_account_seed(),
{
    let mut s: Vec<u8> = Vec::new();
    s.push(101);
    s.push(115);
    s.push(99);
    s.push(114);
    s.push(111);
    s.push(119);
    s.push(95);
    s.push(97);
    s.push(99);
    s.push(99);
    s.push(111);
    s.push(117);
    s.push(110);
    s.push(116);
    proof {
        assert(s@ =~= spec_escrow_account_seed());
    }
    s
}

/// The address of the runtime's vote program, which owns every vote account.
pub open spec fn spec_vote_program_id() -> Address {
    Address {
        w0: 0xbb7474351d486107,
        w1: 0xb3bdd3eb24764d7c,
        w2: 0xfc4310d1735e35d8,
        w3: 0x000000008053a30d,
    }
}

/// The address of the runtime's vote program, which owns every vote account.
#[verifier::when_used_as_spec(spec_vote_program_id)]
pub fn vote_program_id() -> (r: Address)
    ensures
        r == spec_vote_program_id(),
{
    Address {
        w0: 0xbb7474351d486107,
        w1: 0xb3bdd3eb24764d7c,
        w2: 0xfc4310d1735e35d8,
        w3: 0x000000008053a30d,
    }
}

/// The address of the runtime's clock sysvar account.
pub open spec fn spec_clock_sysvar_id() -> Address {
    Address {
        w0: 0xc974c71817d5a706,
        w1: 0xb65e1d6998635628,
        w2: 0x5c6d4b9ba3b85e8b,
        w3: 0x00000000215b5573,
    }
}

/// The address of the runtime's clock sysvar account.
#[verifier::when_used_as_spec(spec_clock_sysvar_id)]
pub fn clock_sysvar_id() -> (r: Address)
    ensures
        r == spec_clock_sysvar_id(),
{
    Address {
        w0: 0xc974c71817d5a706,
        w1: 0xb65e1d6998635628,
        w2: 0x5c6d4b9ba3b85e8b,
        w3: 0x00000000215b5573,
    }
}

/// The address of the runtime's upgradeable loader, which owns every upgradeable program account.
pub open spec fn spec_bpf_loader_upgradeable_id() -> Address {
    Address {
        w0: 0xb0a1884e91f6a802,
        w1: 0x2bae63f73e1510e2,
        w2: 0xd224c1163db9c200,
        w3: 0x00008004107a53c0,
    }
}

/// The address of the runtime's upgradeable loader, which owns every upgradeable program account.
#[verifier::when_used_as_spec(spec_bpf_loader_upgradeable_id)]
pub fn bpf_loader_upgradeable_id() -> (r: Address)
    ensures
        r == spec_bpf_loader_upgradeable_id(),
{
    Address {
        w0: 0xb0a1884e91f6a802,
        w1: 0x2bae63f73e1510e2,
        w2: 0xd224c1163db9c200,
        w3: 0x00008004107a53c0,
    }
}

/// Basis points of the price carved out to escrow when secondary items exist.
pub const ESCROWED_BASIS_POINTS: u16 = 2000;
/// Basis points of the price paid to the team.
pub const TEAM_FEES_BASIS_POINTS: u16 = 10;

/// The tag every persisted listing record must carry.
pub const STORAGE_VALIDATION_PHRASE: u32 = 838_927_652;

/// The fixed fee-recipient address.
pub open spec fn spec_team_address() -> Address {
    Address {
        w0: 0x59a925e2e9b03ace,
        w1: 0xf3b5773b85e0bafd,
        w2: 0x266f3e6077211f6c,
        w3: 0xbda6dc85133f30b0,
    }
}

/// The fixed fee-recipient address.
#[verifier::when_used_as_spec(spec_team_address)]
pub fn team_address() -> (r: Address)
    ensures
        r == spec_team_address(),
{
    Address {
        w0: 0x59a925e2e9b03ace,
        w1: 0xf3b5773b85e0bafd,
        w2: 0x266f3e6077211f6c,
        w3: 0xbda6dc85133f30b0,
    }
}

/// The fixed allow-list of mediators.
pub open spec fn spec_mediators() -> Seq<Address> {
    seq![spec_team_address()]
}

/// Whether `key` is in the fixed allow-list of mediators.
pub fn is_approved_mediator(key: &Address) -> (r: bool)
    ensures
        r <==> spec_mediators().contains(*key),
{
    let t = team_address();
    let r = *key == t;
    proof {
        if r {
            assert(spec_mediators()[0] == *key);
        }
        if spec_mediators().contains(*key) {
            let i = choose|i: int| 0 <= i < spec_mediators().len() && spec_mediators()[i] == *key;
            assert(spec_mediators()[i] == spec_team_address());
        }
    }
    r
}

/// The verbosity level an operation was invoked with; inert to the protocol's
/// logic.
pub type LogLevel = u8;

/// Colors the runtime's logger can use; inert to the protocol's logic.
pub enum LogColors {
    Red,
    Green,
    Blue,
    Blank,
}

/// A purchase of the listing: the buyer, when it happened, and when it was
/// finalized (once all disputes and settlements resolved).
#[derive(Clone, Copy, Debug, PartialEq, Eq, Structural)]
pub struct Purchase {
    pub buyer: Address,
    pub date: u32,
    pub date_finalized: Option<u32>,
}

impl Purchase {
    /// Space the purchase block occupies in the persisted record.
    pub fn get_space() -> (r: usize)
        ensures
            r == 41,
    {
        32 + 4 + 5
    }
}

/// A secondary item bundled into the sale, as persisted: its cost, its
/// descriptive metadata (held as raw UTF-8 bytes), and when the buyer
/// acknowledged its transfer, if they have.
#[derive(Clone, Debug)]
pub struct StoredSecondaryItem {
    pub cost: u64,
    pub name: Vec<u8>,
    pub description: Vec<u8>,
    pub date_validated: Option<u32>,
}

/// The mathematical content of a stored secondary item.
#[verifier::ext_equal]
pub ghost struct StoredSecondaryItemView {
    pub cost: u64,
    pub name: Seq<u8>,
    pub description: Seq<u8>,
    pub date_validated: Option<u32>,
}

impl View for StoredSecondaryItem {
    type V = StoredSecondaryItemView;

    open spec fn view(&self) -> StoredSecondaryItemView {
        StoredSecondaryItemView {
            cost: self.cost,
            name: self.name@,
            description: self.description@,
            date_validated: self.date_validated,
        }
    }
}

impl StoredSecondaryItem {
    /// Space the item occupies in the persisted record.
    pub fn get_space(&self) -> (r: usize)
        requires
            self@.name.len() + self@.description.len() + 21 <= usize::MAX,
        ensures
            r == spec_item_space(self@),
    {
        8 + self.name.len() + 4 + self.description.len() + 4 + 5
    }
}

/// Space one secondary item occupies in the persisted record.
pub open spec fn spec_item_space(item: StoredSecondaryItemView) -> int {
    8 + item.name.len() as int + 4 + item.description.len() as int + 4 + 5
}

/// Space a list of secondary items occupies in the persisted record.
pub open spec fn spec_items_space(items: Seq<StoredSecondaryItemView>) -> int
    decreases items.len(),
{
    if items.len() == 0 {
        0
    } else {
        spec_item_space(items[0]) + spec_items_space(items.subrange(1, items.len() as int))
    }
}

/// How a mediator splits the escrow balance: percentages for the buyer, the
/// seller and the team, which must sum to exactly 100.
#[derive(Clone, Copy, Debug, PartialEq, Eq, Structural)]
pub struct MediationShares {
    pub buyer: u8,
    pub seller: u8,
    pub team: u8,
}

impl MediationShares {
    /// Whether the three shares sum to exactly 100.
    pub open spec fn sums_to_100(&self) -> bool {
        self.buyer + self.seller + self.team == 100
    }

    /// Accepts exactly when the three shares sum to 100.
    pub fn verify_sum(&self) -> (r: Result<(), MarketError>)
        ensures
            r is Ok <==> self.sums_to_100(),
            r is Err ==> r == Err::<(), MarketError>(MarketError::Ingl(InglError::InvalidData)),
    {
        if self.buyer as u16 + self.seller as u16 + self.team as u16 != 100 {
            return Err(InglError::InvalidData.utilize());
        }
        Ok(())
    }

    /// Space the shares block occupies in the persisted record.
    pub fn get_space() -> (r: usize)
        ensures
            r == 24,
    {
        8 + 8 + 8
    }
}

/// The listing ledger: the one persistent record of this deployed instance,
/// describing the current listing's terms and state.
#[derive(Debug)]
pub struct Storage {
    pub validation_phrase: u32,
    pub authorized_withdrawer: Address,
    pub vote_account: Address,
    pub authorized_withdrawer_cost: u64,
    pub mediatable_date: u32,
    pub purchase: Option<Purchase>,
    pub request_mediation_date: Option<u32>,
    pub mediation_date: Option<u32>,
    pub mediation_shares: Option<MediationShares>,
    pub secondary_items: Vec<StoredSecondaryItem>,
    pub description: Vec<u8>,
    pub validator_name: Vec<u8>,
    pub validator_logo_url: Vec<u8>,
}

/// The mathematical content of the listing ledger.
#[verifier::ext_equal]
pub ghost struct StorageView {
    pub validation_phrase: u32,
    pub authorized_withdrawer: Address,
    pub vote_account: Address,
    pub authorized_withdrawer_cost: u64,
    pub mediatable_date: u32,
    pub purchase: Option<Purchase>,
    pub request_mediation_date: Option<u32>,
    pub mediation_date: Option<u32>,
    pub mediation_shares: Option<MediationShares>,
    pub secondary_items: Seq<StoredSecondaryItemView>,
    pub description: Seq<u8>,
    pub validator_name: Seq<u8>,
    pub validator_logo_url: Seq<u8>,
}

impl View for Storage {
    type V = StorageView;

    open spec fn view(&self) -> StorageView {
        StorageView {
            validation_phrase: self.validation_phrase,
            authorized_withdrawer: self.authorized_withdrawer,
            vote_account: self.vote_account,
            authorized_withdrawer_cost: self.authorized_withdrawer_cost,
            mediatable_date: self.mediatable_date,
            purchase: self.purchase,
            request_mediation_date: self.request_mediation_date,
            mediation_date: self.mediation_date,
            mediation_shares: self.mediation_shares,
            secondary_items: self.secondary_items@.map_values(|item: StoredSecondaryItem| item@),
            description: self.description@,
            validator_name: self.validator_name@,
            validator_logo_url: self.validator_logo_url@,
        }
    }
}

/// Space the listing record occupies in the persisted form: tag, seller,
/// vote-account reference, price, window, the three optional blocks at their
/// full size, the item list and the three length-prefixed strings.
pub open spec fn spec_storage_space(s: StorageView) -> int {
    4 + 32 + 32 + 8 + 4 + 1 + 41 + 5 + 1 + 24 + 4 + spec_items_space(s.secondary_items) + 4
        + s.description.len() + 4 + s.validator_name.len() + 1 + 4 + s.validator_logo_url.len()
}

impl Storage {
    /// Space the listing record occupies in its persisted form.
    pub fn get_space(&self) -> (r: usize)
        requires
            spec_storage_space(self@) <= usize::MAX,
        ensures
            r == spec_storage_space(self@),
    {
        let ghost items = self@.secondary_items;
        let mut items_space: usize = 0;
        let mut i: usize = 0;
        proof {
            lemma_items_space_nonneg(items);
        }
        while i < self.secondary_items.len()
            invariant
                i <= self.secondary_items.len(),
                items == self@.secondary_items,
                items.len() == self.secondary_items.len(),
                spec_storage_space(self@) <= usize::MAX,
                items_space == spec_items_space(items.subrange(0, i as int)),
                items_space <= spec_items_space(items),
            decreases self.secondary_items.len() - i,
        {
            proof {
                lemma_items_space_split(items, i as int);
                lemma_items_space_nonneg(items.subrange(i + 1, items.len() as int));
                lemma_items_space_nonneg(items.subrange(0, i as int));
            }
            let item = &self.secondary_items[i];
            proof {
                assert(items[i as int] == item@);
                assert(spec_items_space(items.subrange(0, i + 1)) <= spec_items_space(items));
                assert(spec_item_space(item@) <= spec_items_space(items.subrange(0, i + 1)));
            }
            items_space = items_space + item.get_space();
            i = i + 1;
        }
        proof {
            assert(items.subrange(0, items.len() as int) =~= items);
        }
        4 + 32 + 32 + 8 + 4 + 1 + Purchase::get_space() + 5 + 1 + MediationShares::get_space()
            + 4 + items_space + 4 + self.description.len() + 4 + self.validator_name.len() + 1 + 4
            + self.validator_logo_url.len()
    }

    /// Space the listing record occupies in its persisted form, or `None`
    /// when that space does not fit the machine's address range.
    pub fn checked_space(&self) -> (r: Option<usize>)
        ensures
            r matches Some(space) ==> space == spec_storage_space(self@),
            r is None <==> spec_storage_space(self@) > usize::MAX,
    {
        let ghost items = self@.secondary_items;
        let mut total: usize = 169;
        let mut i: usize = 0;
        proof {
            lemma_items_space_nonneg(items);
            assert(spec_storage_space(self@) == 169 + spec_items_space(items)
                + self@.description.len() + self@.validator_name.len()
                + self@.validator_logo_url.len());
        }
        while i < self.secondary_items.len()
            invariant
                i <= self.secondary_items.len(),
                items == self@.secondary_items,
                items.len() == self.secondary_items.len(),
                total == 169 + spec_items_space(items.subrange(0, i as int)),
                spec_storage_space(self@) == 169 + spec_items_space(items) + self@.description.len()
                    + self@.validator_name.len() + self@.validator_logo_url.len(),
            decreases self.secondary_items.len() - i,
        {
            proof {
                lemma_items_space_split(items, i as int);
                lemma_items_space_nonneg(items.subrange(i + 1, items.len() as int));
                lemma_items_space_nonneg(items.subrange(0, i as int));
                assert(items[i as int] == self.secondary_items@[i as int]@);
            }
            let name_len = self.secondary_items[i].name.len();
            let desc_len = self.secondary_items[i].description.len();
            if name_len > usize::MAX - 21 {
                return None;
            }
            if desc_len > usize::MAX - 21 - name_len {
                return None;
            }
            let item_space = 21 + name_len + desc_len;
            if item_space > usize::MAX - total {
                return None;
            }
            total = total + item_space;
            i = i + 1;
        }
        proof {
            assert(items.subrange(0, items.len() as int) =~= items);
        }
        if self.description.len() > usize::MAX - total {
            return None;
        }
        total = total + self.description.len();
        if self.validator_name.len() > usize::MAX - total {
            return None;
        }
        total = total + self.validator_name.len();
        if self.validator_logo_url.len() > usize::MAX - total {
            return None;
        }
        total = total + self.validator_logo_url.len();
        Some(total)
    }

    /// The checks a record read back from its account must pass: the account
    /// is owned by this program and the record carries the expected
    /// validation phrase.
    pub fn check_parsed(&self, storage_owner: &Address, program_id: &Address) -> (r: Result<
        (),
        MarketError,
    >)
        ensures
            r == spec_check_parsed(*storage_owner, *program_id, self@.validation_phrase),
    {
        if !(*storage_owner == *program_id) {
            return Err(InglError::AddressMismatch.utilize());
        }
        if self.validation_phrase != STORAGE_VALIDATION_PHRASE {
            return Err(InglError::InvalidValPhrase.utilize());
        }
        Ok(())
    }
}

/// The invariants the ledger keeps in every reachable state: the record
/// carries the validation phrase, a mediation decision presupposes a
/// mediation request, and a recorded mediation split sums to exactly 100.
pub open spec fn spec_storage_well_formed(s: StorageView) -> bool {
    &&& s.validation_phrase == STORAGE_VALIDATION_PHRASE
    &&& (s.mediation_date is Some ==> s.request_mediation_date is Some)
    &&& (s.mediation_shares matches Some(m) ==> m.buyer + m.seller + m.team == 100)
}

/// The outcome of the checks a record read back from its account must pass.
pub open spec fn spec_check_parsed(owner: Address, program_id: Address, phrase: u32) -> Result<
    (),
    MarketError,
> {
    if owner != program_id {
        Err(MarketError::Ingl(InglError::AddressMismatch))
    } else if phrase != STORAGE_VALIDATION_PHRASE {
        Err(MarketError::Ingl(InglError::InvalidValPhrase))
    } else {
        Ok(())
    }
}

/// The sequence of item views a vector of stored items denotes.
pub open spec fn items_view(items: Vec<StoredSecondaryItem>) -> Seq<StoredSecondaryItemView> {
    items@.map_values(|item: StoredSecondaryItem| item@)
}

/// Updating one stored item updates its view pointwise.
pub proof fn lemma_items_view_update(items: Seq<StoredSecondaryItem>, i: int, item: StoredSecondaryItem)
    requires
        0 <= i < items.len(),
    ensures
        items.update(i, item).map_values(|x: StoredSecondaryItem| x@) == items.map_values(
            |x: StoredSecondaryItem| x@,
        ).update(i, item@),
{
    let a = items.update(i, item).map_values(|x: StoredSecondaryItem| x@);
    let b = items.map_values(|x: StoredSecondaryItem| x@).update(i, item@);
    assert forall|j: int| 0 <= j < a.len() implies a[j] == b[j] by {
        if j == i {
        } else {
        }
    }
    assert(a =~= b);
}

/// The total cost of a list of secondary items.
pub open spec fn spec_items_cost(items: Seq<StoredSecondaryItemView>) -> int
    decreases items.len(),
{
    if items.len() == 0 {
        0
    } else {
        items[0].cost + spec_items_cost(items.subrange(1, items.len() as int))
    }
}

/// Each item's cost is nonnegative, so the list's total is too.
pub proof fn lemma_items_cost_nonneg(items: Seq<StoredSecondaryItemView>)
    ensures
        spec_items_cost(items) >= 0,
    decreases items.len(),
{
    if items.len() > 0 {
        lemma_items_cost_nonneg(items.subrange(1, items.len() as int));
    }
}

/// The total cost of the first `i + 1` items is that of the first `i` plus
/// the cost of item `i`; and the whole total splits there too.
pub proof fn lemma_items_cost_split(items: Seq<StoredSecondaryItemView>, i: int)
    requires
        0 <= i < items.len(),
    ensures
        spec_items_cost(items.subrange(0, i + 1)) == spec_items_cost(items.subrange(0, i))
            + items[i].cost,
        spec_items_cost(items) == spec_items_cost(items.subrange(0, i + 1)) + spec_items_cost(
            items.subrange(i + 1, items.len() as int),
        ),
    decreases items.len(),
{
    lemma_items_cost_prefix_general(items, 0, i);
    assert(items.subrange(0, items.len() as int) =~= items);
}

/// Splitting a suffix of the item list at any point splits its cost sum.
#[verifier::spinoff_prover]
#[verifier::rlimit(30)]
proof fn lemma_items_cost_prefix_general(items: Seq<StoredSecondaryItemView>, lo: int, i: int)
    requires
        0 <= lo <= i < items.len(),
    ensures
        spec_items_cost(items.subrange(lo, i + 1)) == spec_items_cost(items.subrange(lo, i))
            + items[i].cost,
        spec_items_cost(items.subrange(lo, items.len() as int)) == spec_items_cost(
            items.subrange(lo, i + 1),
        ) + spec_items_cost(items.subrange(i + 1, items.len() as int)),
    decreases i - lo,
{
    let n = items.len() as int;
    if lo == i {
        assert(items.subrange(lo, lo) =~= Seq::<StoredSecondaryItemView>::empty());
        assert(items.subrange(lo, i + 1).subrange(1, 1) =~= Seq::<
            StoredSecondaryItemView,
        >::empty());
        assert(items.subrange(lo, i + 1)[0] == items[i]);
        assert(items.subrange(lo, n)[0] == items[lo]);
        assert(items.subrange(lo, n).subrange(1, n - lo) =~= items.subrange(lo + 1, n));
    } else {
        lemma_items_cost_prefix_general(items, lo + 1, i);
        assert(items.subrange(lo, i + 1)[0] == items[lo]);
        assert(items.subrange(lo, i + 1).subrange(1, i + 1 - lo) =~= items.subrange(lo + 1, i + 1));
        assert(items.subrange(lo, i)[0] == items[lo]);
        assert(items.subrange(lo, i).subrange(1, i - lo) =~= items.subrange(lo + 1, i));
        assert(items.subrange(lo, n)[0] == items[lo]);
        assert(items.subrange(lo, n).subrange(1, n - lo) =~= items.subrange(lo + 1, n));
    }
}

/// The total cost of the secondary items, when it fits in 64 bits.
pub fn sum_secondary_item_costs(items: &Vec<StoredSecondaryItem>) -> (r: Result<u64, MarketError>)
    ensures
        r matches Ok(total) ==> total == spec_items_cost(items_view(*items)),
        r is Ok <==> spec_items_cost(items_view(*items)) <= u64::MAX,
        r is Err ==> r == Err::<u64, MarketError>(MarketError::Ingl(InglError::BeyondBounds)),
{
    let ghost view = items_view(*items);
    let mut total: u64 = 0;
    let mut i: usize = 0;
    while i < items.len()
        invariant
            i <= items.len(),
            view == items_view(*items),
            view.len() == items@.len(),
            total == spec_items_cost(view.subrange(0, i as int)),
        decreases items.len() - i,
    {
        proof {
            lemma_items_cost_split(view, i as int);
            lemma_items_cost_nonneg(view.subrange(i + 1, view.len() as int));
            assert(view[i as int] == items@[i as int]@);
        }
        let cost = items[i].cost;
        if cost > u64::MAX - total {
            proof {
                lemma_items_cost_nonneg(view.subrange(0, i as int));
            }
            return Err(InglError::BeyondBounds.utilize());
        }
        total = total + cost;
        i = i + 1;
    }
    proof {
        assert(view.subrange(0, view.len() as int) =~= view);
    }
    Ok(total)
}

/// Whether every secondary item has been validated.
pub open spec fn spec_all_validated(items: Seq<StoredSecondaryItemView>) -> bool {
    forall|i: int| 0 <= i < items.len() ==> items[i].date_validated is Some
}

/// Whether every secondary item has been validated.
pub fn all_items_validated(items: &Vec<StoredSecondaryItem>) -> (r: bool)
    ensures
        r <==> spec_all_validated(items_view(*items)),
{
    let ghost view = items_view(*items);
    let mut i: usize = 0;
    while i < items.len()
        invariant
            i <= items.len(),
            view == items_view(*items),
            view.len() == items@.len(),
            forall|j: int| 0 <= j < i ==> view[j].date_validated is Some,
        decreases items.len() - i,
    {
        proof {
            assert(view[i as int] == items@[i as int]@);
        }
        if items[i].date_validated.is_none() {
            assert(view[i as int].date_validated is None);
            return false;
        }
        i = i + 1;
    }
    true
}

/// One vote's lockout, as the vote program records it.
#[derive(Clone, Copy, Debug, PartialEq, Eq, Structural)]
pub struct Lockout {
    pub slot: u64,
    pub confirmation_count: u32,
}

/// Slots a ring of prior voters holds.
pub const MAX_ITEMS: usize = 32;

/// A fixed-size ring of the most recent items; `idx` points at the slot last
/// written.
#[derive(Clone, Debug)]
pub struct CircBuf<I> {
    pub buf: Vec<I>,
    pub idx: usize,
}

impl<I> CircBuf<I> {
    /// The ring holds exactly its fixed capacity and the pointer is in range.
    pub open spec fn well_formed(&self) -> bool {
        self.buf@.len() == MAX_ITEMS && self.idx < MAX_ITEMS
    }

    /// Writes `item` into the slot after the last written one, wrapping
    /// around at the ring's end.
    pub fn append(&mut self, item: I)
        requires
            old(self).well_formed(),
        ensures
            final(self).well_formed(),
            final(self).idx == (old(self).idx + 1) % (MAX_ITEMS as int),
            final(self).buf@ == old(self).buf@.update(final(self).idx as int, item),
    {
        self.idx += 1;
        self.idx = self.idx % MAX_ITEMS;
        self.buf[self.idx] = item;
    }
}

impl<I: Default + Copy> Default for CircBuf<I> {
    /// A full ring of default items, with the pointer on the last slot, so
    /// that the next write lands on the first.
    fn default() -> (r: Self)
        ensures
            r.well_formed(),
            r.idx == MAX_ITEMS - 1,
    {
        let mut buf: Vec<I> = Vec::new();
        let mut i: usize = 0;
        while i < MAX_ITEMS
            invariant
                buf@.len() == i,
                i <= MAX_ITEMS,
            decreases MAX_ITEMS - i,
        {
            buf.push(I::default());
            i = i + 1;
        }
        CircBuf { buf, idx: MAX_ITEMS - 1 }
    }
}

/// The authorized voters of a vote account by epoch, most recent last.
#[derive(Clone, Debug)]
pub struct AuthorizedVoters {
    pub authorized_voters: Vec<(u64, Address)>,
}

impl AuthorizedVoters {
    /// A single entry: `pubkey` authorized from `epoch` on.
    pub fn new(epoch: u64, pubkey: Address) -> (r: AuthorizedVoters)
        ensures
            r.authorized_voters@ == seq![(epoch, pubkey)],
    {
        let mut authorized_voters: Vec<(u64, Address)> = Vec::new();
        authorized_voters.push((epoch, pubkey));
        proof {
            assert(authorized_voters@ =~= seq![(epoch, pubkey)]);
        }
        AuthorizedVoters { authorized_voters }
    }

    /// The most recent entry, if any.
    pub fn last(&self) -> (r: Option<(u64, Address)>)
        ensures
            r matches Some(p) ==> self.authorized_voters@.len() > 0 && p
                == self.authorized_voters@.last(),
            r is None <==> self.authorized_voters@.len() == 0,
    {
        let n = self.authorized_voters.len();
        if n == 0 {
            None
        } else {
            Some(self.authorized_voters[n - 1])
        }
    }
}

/// The part of a vote account's current state the protocol reads.
#[derive(Clone, Debug)]
pub struct VoteState {
    pub node_pubkey: Address,
    pub authorized_withdrawer: Address,
    pub commission: u8,
    pub votes: Vec<Lockout>,
    pub root_slot: Option<u64>,
    pub authorized_voters: AuthorizedVoters,
}

impl VoteState {
    /// Space the runtime reserves for a vote account.
    pub fn space() -> (r: usize)
        ensures
            r == 3731,
    {
        3731
    }
}

/// The oldest persisted form of a vote account's state.
#[derive(Clone, Debug)]
pub struct VoteState0_23_5 {
    pub node_pubkey: Address,
    pub authorized_voter: Address,
    pub authorized_voter_epoch: u64,
    pub prior_voters: CircBuf<(Address, u64, u64, u64)>,
    pub authorized_withdrawer: Address,
    pub commission: u8,
}

/// The persisted forms a vote account's state can take.
#[derive(Clone, Debug)]
pub enum VoteStateVersions {
    V0_23_5(Box<VoteState0_23_5>),
    Current(Box<VoteState>),
}

impl VoteStateVersions {
    /// Every version read as the current form; the oldest version's single
    /// voter becomes the one authorized-voters entry, and its votes are gone.
    pub fn convert_to_current(self) -> (r: Box<VoteState>)
        ensures
            self matches VoteStateVersions::Current(state) ==> r == state,
            self matches VoteStateVersions::V0_23_5(state) ==> ({
                &&& r.node_pubkey == state.node_pubkey
                &&& r.authorized_withdrawer == state.authorized_withdrawer
                &&& r.commission == state.commission
                &&& r.votes@ == Seq::<Lockout>::empty()
                &&& r.root_slot is None
                &&& r.authorized_voters.authorized_voters@ == seq![
                    (state.authorized_voter_epoch, state.authorized_voter),
                ]
            }),
    {
        match self {
            VoteStateVersions::V0_23_5(state) => {
                let authorized_voters = AuthorizedVoters::new(
                    state.authorized_voter_epoch,
                    state.authorized_voter,
                );
                let votes: Vec<Lockout> = Vec::new();
                proof {
                    assert(votes@ =~= Seq::<Lockout>::empty());
                }
                Box::new(
                    VoteState {
                        node_pubkey: state.node_pubkey,
                        authorized_withdrawer: state.authorized_withdrawer,
                        commission: state.commission,
                        votes,
                        root_slot: None,
                        authorized_voters,
                    },
                )
            },
            VoteStateVersions::Current(state) => state,
        }
    }
}

/// Each item's persisted space is nonnegative, so the list's total is too.
pub proof fn lemma_items_space_nonneg(items: Seq<StoredSecondaryItemView>)
    ensures
        spec_items_space(items) >= 0,
    decreases items.len(),
{
    if items.len() > 0 {
        lemma_items_space_nonneg(items.subrange(1, items.len() as int));
    }
}

/// The persisted space of the first `i + 1` items is that of the first `i`
/// plus the space of item `i`.
pub proof fn lemma_items_space_split(items: Seq<StoredSecondaryItemView>, i: int)
    requires
        0 <= i < items.len(),
    ensures
        spec_items_space(items.subrange(0, i + 1)) == spec_items_space(items.subrange(0, i))
            + spec_item_space(items[i]),
        spec_items_space(items) == spec_items_space(items.subrange(0, i + 1)) + spec_items_space(
            items.subrange(i + 1, items.len() as int),
        ),
    decreases items.len(),
{
    lemma_items_space_prefix_general(items, 0, i);
    assert(items.subrange(0, items.len() as int) =~= items);
}

/// Splitting a suffix of the item list at any point splits its space sum.
#[verifier::spinoff_prover]
#[verifier::rlimit(30)]
proof fn lemma_items_space_prefix_general(items: Seq<StoredSecondaryItemView>, lo: int, i: int)
    requires
        0 <= lo <= i < items.len(),
    ensures
        spec_items_space(items.subrange(lo, i + 1)) == spec_items_space(items.subrange(lo, i))
            + spec_item_space(items[i]),
        spec_items_space(items.subrange(lo, items.len() as int)) == spec_items_space(
            items.subrange(lo, i + 1),
        ) + spec_items_space(items.subrange(i + 1, items.len() as int)),
    decreases i - lo,
{
    let n = items.len() as int;
    if lo == i {
        assert(items.subrange(lo, lo) =~= Seq::<StoredSecondaryItemView>::empty());
        assert(items.subrange(lo, i + 1).subrange(1, 1) =~= Seq::<
            StoredSecondaryItemView,
        >::empty());
        assert(items.subrange(lo, i + 1)[0] == items[i]);
        assert(items.subrange(lo, n)[0] == items[lo]);
        assert(items.subrange(lo, n).subrange(1, n - lo) =~= items.subrange(lo + 1, n));
    } else {
        lemma_items_space_prefix_general(items, lo + 1, i);
        assert(items.subrange(lo, i + 1)[0] == items[lo]);
        assert(items.subrange(lo, i + 1).subrange(1, i + 1 - lo) =~= items.subrange(lo + 1, i + 1));
        assert(items.subrange(lo, i)[0] == items[lo]);
        assert(items.subrange(lo, i).subrange(1, i - lo) =~= items.subrange(lo + 1, i));
        assert(items.subrange(lo, n)[0] == items[lo]);
        assert(items.subrange(lo, n).subrange(1, n - lo) =~= items.subrange(lo + 1, n));
    }
}

} // verus!
