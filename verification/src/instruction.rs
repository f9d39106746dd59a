//! The typed operation requests an external decoder produces, one per module
//! of the protocol.

use vstd::prelude::*;
use crate::state::{LogLevel, MediationShares, StoredSecondaryItem, StoredSecondaryItemView};

verus! {

/// A secondary item as supplied in a listing request: its cost and its
/// descriptive metadata, held as raw UTF-8 bytes.
#[derive(Clone, Debug)]
pub struct SecondaryItem {
    pub cost: u64,
    pub name: Vec<u8>,
    pub description: Vec<u8>,
}

/// The mathematical content of a supplied secondary item.
#[verifier::ext_equal]
pub ghost struct SecondaryItemView {
    pub cost: u64,
    pub name: Seq<u8>,
    pub description: Seq<u8>,
}

impl View for SecondaryItem {
    type V = SecondaryItemView;

    open spec fn view(&self) -> SecondaryItemView {
        SecondaryItemView { cost: self.cost, name: self.name@, description: self.description@ }
    }
}

/// The stored form of a supplied secondary item: the same data, not yet
/// validated.
pub open spec fn spec_to_stored(item: SecondaryItemView) -> StoredSecondaryItemView {
    StoredSecondaryItemView {
        cost: item.cost,
        name: item.name,
        description: item.description,
        date_validated: None,
    }
}

impl SecondaryItem {
    /// The stored form of this item: the same data, not yet validated.
    pub fn to_stored(&self) -> (r: StoredSecondaryItem)
        ensures
            r@ == spec_to_stored(self@),
    {
        let r = StoredSecondaryItem {
            cost: self.cost,
            name: self.name.clone(),
            description: self.description.clone(),
            date_validated: None,
        };
        proof {
            assert(r@ =~= spec_to_stored(self@));
        }
        r
    }
}

/// The seven operations of the protocol, each carrying a verbosity level.
#[derive(Debug)]
pub enum InstructionEnum {
    List {
        log_level: LogLevel,
        authorized_withdrawer_cost: u64,
        mediatable_date: u32,
        secondary_items: Vec<SecondaryItem>,
        description: Vec<u8>,
        validator_name: Vec<u8>,
        validator_logo_url: Vec<u8>,
    },
    Delist { log_level: LogLevel },
    Buy { log_level: LogLevel },
    WithdrawRewards { log_level: LogLevel },
    RequestMediation { log_level: LogLevel },
    Mediate { log_level: LogLevel, mediation_shares: MediationShares },
    ValidateSecondaryItemsTransfers { log_level: LogLevel, item_index: u32 },
}

/// The operations of the external registry collaborator invoked at listing
/// time.
#[derive(Clone, Debug)]
pub enum RegistryInstructionEnum {
    InitConfig,
    AddValidatorProgram { name: Vec<u8> },
    RemovePrograms { program_count: u8 },
    AddMarketplaceProgram,
    Reset,
    Blank,
}

} // verus!
