//! A validator-marketplace escrow and authority-transfer protocol.
//!
//! One deployed instance manages the sale of control over a single staking
//! validator: the seller lists the validator (handing its withdrawal and
//! upgrade authorities to protocol-derived identities), a buyer purchases it
//! (fees split between seller, escrow vault and team), optional secondary
//! items are settled through buyer acknowledgement, disputes are resolved by
//! an approved mediator over the escrow balance, and the seller may delist
//! once nothing is pending. Every operation is a pure transition over the
//! persistent listing record plus the account facts supplied by the runtime.

pub mod codec;
pub mod error;
pub mod instruction;
pub mod processes;
pub mod state;
pub mod utils;
