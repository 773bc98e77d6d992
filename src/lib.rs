//! Custodial logic of a crowdfunding campaign: creation of the campaign
//! record at an address derived from its administrator, donations, and
//! withdrawals gated by the administrator and by the storage reserve.

pub mod address;
pub mod campaign;
pub mod ledger;
