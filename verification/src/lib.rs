//! Verified contract logic for trust streams: an admin dead man's switch,
//! compliance and KYC registries, donor reputation and quadratic matching pools.
pub mod address;
pub mod compliance;
pub mod dead_mans_switch;
pub mod donor_reputation;
pub mod matching_pool;
pub mod newton;
pub mod table;
pub mod zk_kyc;
