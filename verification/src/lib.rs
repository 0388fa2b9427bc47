//! Budget expense aggregation and period accounting for a personal-finance
//! tracker, with machine-checked contracts.
//!
//! Accounts hold transactions. A budget groups accounts and is split into
//! partitions, each of which sets monthly targets per spending category. The
//! report of a budget over a period rolls the targets and the spending up by
//! category, by partition and for the whole budget.
//!
//! * [`budget::period`] resolves reporting periods; [`budget::expenses`]
//!   makes the report and [`budget::category`] lists the transactions behind
//!   one of its figures; [`budget::allocation`] groups the targets.
//! * [`transaction`] compiles filter options into a test on transactions and
//!   lists what passes it; [`account`] computes balances.
//! * [`store`] is the snapshot of the records that all of these read.
//! * [`datetime`], [`money`], [`text`] and [`seqs`] hold what they share:
//!   the calendar, sums of amounts, text search and facts about sequences.
//! * [`ledger`], [`journal`] and [`operations`] keep accounts without a
//!   store: in one file edited from the command line, as journals by
//!   account, and as lines of text.
//!
//! Money is counted in whole minor units (cents) as `i64`. Every function is
//! a pure computation over values handed to it: reading a store, telling the
//! time and printing are left to the caller.

use vstd::prelude::*;

pub mod account;
pub mod budget;
pub mod category;
pub mod currency;
pub mod datetime;
pub mod journal;
pub mod ledger;
pub mod migrations;
pub mod money;
pub mod operations;
pub mod portfolio;
pub mod seqs;
pub mod settings;
pub mod store;
pub mod text;
pub mod transaction;

verus! {

/// A reference to a stored record: the table it lives in and its key there.
#[derive(Debug, PartialEq, Eq, Hash)]
pub struct RecordId {
    pub table: String,
    pub key: String,
}

/// What a `RecordId` stands for in contracts.
pub ghost struct RecordIdView {
    pub table: Seq<char>,
    pub key: Seq<char>,
}

impl View for RecordId {
    type V = RecordIdView;

    open spec fn view(&self) -> RecordIdView {
        RecordIdView { table: self.table@, key: self.key@ }
    }
}

impl Clone for RecordId {
    fn clone(&self) -> (r: Self)
        ensures
            r@ == self@,
    {
        RecordId { table: self.table.clone(), key: self.key.clone() }
    }
}

impl RecordId {
    /// The reference to the record `key` of `table`.
    pub fn new(table: &str, key: &str) -> (r: RecordId)
        ensures
            r@.table == table@,
            r@.key == key@,
    {
        RecordId { table: table.to_owned(), key: key.to_owned() }
    }

    /// Whether both references name the same record.
    pub fn same(&self, other: &RecordId) -> (r: bool)
        ensures
            r == (self@ == other@),
    {
        self.table == other.table && self.key == other.key
    }
}

/// The view of an optional record reference.
pub open spec fn optional_id_view(id: Option<RecordId>) -> Option<RecordIdView> {
    match id {
        Some(id) => Some(id@),
        None => None,
    }
}

/// Why a local date and time names no single instant.
#[derive(Clone, Copy, Debug, PartialEq, Eq, Structural)]
pub enum ChronoLocalResultError {
    /// Several instants carry it.
    Ambiguous,
    /// No instant carries it.
    Missing,
}

impl ChronoLocalResultError {
    /// The failure that a local time stands for when it is not a single instant.
    pub fn from(value: datetime::LocalTime) -> (r: ChronoLocalResultError)
        requires
            !(value is Single),
        ensures
            r == match value {
                datetime::LocalTime::Ambiguous => ChronoLocalResultError::Ambiguous,
                _ => ChronoLocalResultError::Missing,
            },
    {
        match value {
            datetime::LocalTime::Ambiguous => ChronoLocalResultError::Ambiguous,
            _ => ChronoLocalResultError::Missing,
        }
    }

    /// The failure in words.
    pub fn to_text(&self) -> (r: &'static str)
        ensures
            r@ == match *self {
                ChronoLocalResultError::Ambiguous => "ambiguous"@,
                ChronoLocalResultError::Missing => "none"@,
            },
    {
        match self {
            ChronoLocalResultError::Ambiguous => "ambiguous",
            ChronoLocalResultError::Missing => "none",
        }
    }
}

/// Why a report could not be made.
#[derive(Clone, Copy, Debug, PartialEq, Eq, Structural)]
pub enum Error {
    /// A record that the request names is not in the store.
    RecordNotFound,
    /// The calendar has no instant for the period asked for.
    Time(ChronoLocalResultError),
    /// A total does not fit the 64 bits in which amounts are counted.
    AmountOutOfRange,
}

impl Error {
    /// The failure in words.
    pub fn to_text(&self) -> (r: &'static str)
        ensures
            r@ == match *self {
                Error::RecordNotFound => "Record not found"@,
                Error::Time(ChronoLocalResultError::Ambiguous) => "ambiguous"@,
                Error::Time(ChronoLocalResultError::Missing) => "none"@,
                Error::AmountOutOfRange => "Amount out of range"@,
            },
    {
        match self {
            Error::RecordNotFound => "Record not found",
            Error::Time(e) => e.to_text(),
            Error::AmountOutOfRange => "Amount out of range",
        }
    }
}

} // verus!
