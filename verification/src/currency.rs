//! Currencies: a name, a symbol and how many decimal digits amounts carry.

use crate::transaction::tag::{clone_optional_text, optional_text_view};
use crate::{RecordId, RecordIdView};
use vstd::prelude::*;

verus! {

/// A currency.
#[derive(Debug)]
pub struct Currency {
    pub name: String,
    pub symbol: Option<String>,
    pub decimal_digits: usize,
}

/// What a `Currency` stands for in contracts.
pub ghost struct CurrencyView {
    pub name: Seq<char>,
    pub symbol: Option<Seq<char>>,
    pub decimal_digits: nat,
}

impl View for Currency {
    type V = CurrencyView;

    open spec fn view(&self) -> CurrencyView {
        CurrencyView {
            name: self.name@,
            symbol: optional_text_view(self.symbol),
            decimal_digits: self.decimal_digits as nat,
        }
    }
}

impl Clone for Currency {
    fn clone(&self) -> (r: Self)
        ensures
            r@ == self@,
    {
        Currency {
            name: self.name.clone(),
            symbol: clone_optional_text(&self.symbol),
            decimal_digits: self.decimal_digits,
        }
    }
}

/// A stored currency.
#[derive(Debug)]
pub struct CurrencyWithId {
    pub data: Currency,
    pub id: RecordId,
}

/// What a `CurrencyWithId` stands for in contracts.
pub ghost struct CurrencyWithIdView {
    pub data: CurrencyView,
    pub id: RecordIdView,
}

impl View for CurrencyWithId {
    type V = CurrencyWithIdView;

    open spec fn view(&self) -> CurrencyWithIdView {
        CurrencyWithIdView { data: self.data@, id: self.id@ }
    }
}

/// What is asked for to add a currency.
#[derive(Debug)]
pub struct AddCurrencyOptions {
    pub name: String,
    pub symbol: Option<String>,
    pub decimal_digits: usize,
}

/// What is asked for to change a currency: the fields given replace the
/// stored ones.
#[derive(Debug)]
pub struct UpdateCurrencyOptions {
    pub id: RecordId,
    pub name: Option<String>,
    pub symbol: Option<String>,
    pub decimal_digits: Option<usize>,
}

impl AddCurrencyOptions {
    /// The currency asked for, under the reference `id`.
    pub fn into_currency(self, id: RecordId) -> (r: CurrencyWithId)
        ensures
            r@.id == id@,
            r@.data.name == self.name@,
            r@.data.symbol == optional_text_view(self.symbol),
            r@.data.decimal_digits == self.decimal_digits,
    {
        CurrencyWithId {
            data: Currency {
                name: self.name,
                symbol: self.symbol,
                decimal_digits: self.decimal_digits,
            },
            id,
        }
    }
}

impl UpdateCurrencyOptions {
    /// `stored` with the fields given by the options put in place of its own.
    pub fn apply(&self, stored: &Currency) -> (r: Currency)
        ensures
            r@.name == match self.name {
                Some(name) => name@,
                None => stored@.name,
            },
            r@.symbol == match self.symbol {
                Some(symbol) => Some(symbol@),
                None => stored@.symbol,
            },
            r@.decimal_digits == match self.decimal_digits {
                Some(digits) => digits as nat,
                None => stored@.decimal_digits,
            },
    {
        Currency {
            name: match &self.name {
                Some(name) => name.clone(),
                None => stored.name.clone(),
            },
            symbol: match &self.symbol {
                Some(symbol) => Some(symbol.clone()),
                None => clone_optional_text(&stored.symbol),
            },
            decimal_digits: match self.decimal_digits {
                Some(digits) => digits,
                None => stored.decimal_digits,
            },
        }
    }
}

} // verus!
