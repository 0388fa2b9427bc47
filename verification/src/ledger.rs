//! The ledger kept in one file: accounts with their entries, and the
//! command line that edits them.

pub mod amount;
pub mod arg;
pub mod dispatch;
pub mod helpers;
pub mod items;
pub mod notice;
pub mod record;
pub mod setup;
