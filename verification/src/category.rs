//! Categories as they are edited: a name and a look.

use crate::{RecordId, RecordIdView};
use vstd::prelude::*;

verus! {

/// The pictogram of a category.
#[derive(Clone, Copy, Debug, PartialEq, Eq, Structural)]
pub enum Icon {
    Transport,
    Accommodation,
    Subscription,
    Car,
    Other,
    GiftAndDonations,
    Savings,
    EducationAndFamily,
    Loan,
    ProfessionalFee,
    Taxes,
    SpareTimeActivities,
    InternalMovements,
    CashWithdrawal,
    Health,
    EverydayLife,
}

/// The name and the look of a category.
#[derive(Debug)]
pub struct Category {
    pub name: String,
    pub icon: Icon,
    pub color: String,
}

/// What a `Category` stands for in contracts.
pub ghost struct CategoryDataView {
    pub name: Seq<char>,
    pub icon: Icon,
    pub color: Seq<char>,
}

impl View for Category {
    type V = CategoryDataView;

    open spec fn view(&self) -> CategoryDataView {
        CategoryDataView { name: self.name@, icon: self.icon, color: self.color@ }
    }
}

impl Clone for Category {
    fn clone(&self) -> (r: Self)
        ensures
            r@ == self@,
    {
        Category { name: self.name.clone(), icon: self.icon, color: self.color.clone() }
    }
}

/// A category under its reference.
#[derive(Debug)]
pub struct CategoryWithId {
    pub id: RecordId,
    pub data: Category,
}

/// What a `CategoryWithId` stands for in contracts.
pub ghost struct CategoryWithIdView {
    pub id: RecordIdView,
    pub data: CategoryDataView,
}

impl View for CategoryWithId {
    type V = CategoryWithIdView;

    open spec fn view(&self) -> CategoryWithIdView {
        CategoryWithIdView { id: self.id@, data: self.data@ }
    }
}

impl Clone for CategoryWithId {
    fn clone(&self) -> (r: Self)
        ensures
            r@ == self@,
    {
        CategoryWithId { id: self.id.clone(), data: self.data.clone() }
    }
}

} // verus!
