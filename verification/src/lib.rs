pub mod chain;
pub mod encoding;
pub mod errors;
pub mod hashing;
pub mod powers;
