//! Checks of the repository's governance documents: the contract table, the
//! crate decision table, and the contract references in them and in the
//! issues.

pub mod chars;
pub mod checks;
pub mod order;
pub mod scan;
pub mod table;
