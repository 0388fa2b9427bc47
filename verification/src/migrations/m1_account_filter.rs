//! Every account gets a stored transaction filter.

use crate::migrations::Migration;
use vstd::prelude::*;

verus! {

/// Gives every account a stored transaction filter.
pub struct AccountFilterMigration {}

/// What the migration is called.
pub const NAME: &'static str = "Adding transaction filtering persistance for every account";

/// The version of the program that brings the migration.
pub const VERSION: &'static str = "0.5.0";

/// The statements that give every account without a filter an empty one.
pub const UP: &'static str = "UPDATE account SET filter = {} WHERE filter = NONE;";

/// The statements that take the filter away from every account.
pub const DOWN: &'static str = "UPDATE account UNSET filter;";

impl Migration for AccountFilterMigration {
    fn name(&self) -> (r: &'static str)
        ensures
            r@ == NAME@,
    {
        NAME
    }

    fn version(&self) -> (r: &'static str)
        ensures
            r@ == VERSION@,
    {
        VERSION
    }

    fn up(&self) -> (r: &'static str)
        ensures
            r@ == UP@,
    {
        UP
    }

    fn down(&self) -> (r: &'static str)
        ensures
            r@ == DOWN@,
    {
        DOWN
    }
}

} // verus!
