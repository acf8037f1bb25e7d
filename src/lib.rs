//! An identity-verification oracle: accounts claim ownership of an external
//! gist, an off-chain worker checks the gist, and an admission gate plus an
//! applier commit verified usernames under consensus.

pub mod account_map;
pub mod gist_json;
pub mod encoding;
pub mod oracle;
pub mod worker;
