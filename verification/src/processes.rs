pub mod buy;
pub mod delist;
pub mod list;
pub mod mediate;
pub mod request_mediation;
pub mod validate_secondary_items_transfers;
pub mod withdraw_rewards;
