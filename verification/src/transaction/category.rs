//! Spending categories as the transactions and allocations refer to them.

use crate::{optional_id_view, RecordId, RecordIdView};
use vstd::prelude::*;

verus! {

/// The pictogram of a category.
#[derive(Clone, Copy, Debug, PartialEq, Eq, Structural)]
pub enum Icon {
    Transport,
    Accommodation,
    Subscription,
    Car,
    Other,
    GiftAndDonations,
    Bed,
    Savings,
    EducationAndFamily,
    Loan,
    ProfessionalFee,
    Taxes,
    SpareTimeActivities,
    InternalMovements,
    CashWithdrawal,
    Health,
    EverydayLife,
}

/// A stored category: its name and look, and the category above it, if any.
#[derive(Debug)]
pub struct CategoryWithId {
    pub id: RecordId,
    pub name: String,
    pub icon: Icon,
    pub color: String,
    pub parent: Option<RecordId>,
}

/// What a `CategoryWithId` stands for in contracts.
pub ghost struct CategoryView {
    pub id: RecordIdView,
    pub name: Seq<char>,
    pub icon: Icon,
    pub color: Seq<char>,
    pub parent: Option<RecordIdView>,
}

impl View for CategoryWithId {
    type V = CategoryView;

    open spec fn view(&self) -> CategoryView {
        CategoryView {
            id: self.id@,
            name: self.name@,
            icon: self.icon,
            color: self.color@,
            parent: optional_id_view(self.parent),
        }
    }
}

impl Clone for CategoryWithId {
    fn clone(&self) -> (r: Self)
        ensures
            r@ == self@,
    {
        CategoryWithId {
            id: self.id.clone(),
            name: self.name.clone(),
            icon: self.icon,
            color: self.color.clone(),
            parent: match &self.parent {
                Some(p) => Some(p.clone()),
                None => None,
            },
        }
    }
}

/// The table that holds the categories.
pub const CATEGORY_TABLE: &'static str = "category";

/// The key of the category that stands in where none is chosen.
pub const OTHER_CATEGORY_KEY: &'static str = "other";

/// The reference to the category that stands in where none is chosen.
pub fn other_category() -> (r: RecordId)
    ensures
        r@.table == CATEGORY_TABLE@,
        r@.key == OTHER_CATEGORY_KEY@,
{
    RecordId::new(CATEGORY_TABLE, OTHER_CATEGORY_KEY)
}

/// The category that an optional choice stands for: the chosen one, or the
/// reserved fallback.
pub fn category_or_other(choice: Option<RecordId>) -> (r: RecordId)
    ensures
        choice is Some ==> r@ == choice->0@,
        choice is None ==> r@.table == CATEGORY_TABLE@ && r@.key == OTHER_CATEGORY_KEY@,
{
    match choice {
        Some(id) => id,
        None => other_category(),
    }
}

} // verus!
