//! Tiles that show what is held in one currency.

use vstd::prelude::*;

verus! {

/// How a currency tile draws its figures.
#[derive(Clone, Copy, Debug, PartialEq, Eq, Structural)]
pub enum Type {
    Pie,
}

/// A tile that shows the accounts held in `currency`.
#[derive(Debug)]
pub struct Tile {
    pub t: Type,
    pub currency: String,
}

/// What a currency `Tile` stands for in contracts.
pub ghost struct TileView {
    pub t: Type,
    pub currency: Seq<char>,
}

impl View for Tile {
    type V = TileView;

    open spec fn view(&self) -> TileView {
        TileView { t: self.t, currency: self.currency@ }
    }
}

impl Clone for Tile {
    fn clone(&self) -> (r: Self)
        ensures
            r@ == self@,
    {
        Tile { t: self.t, currency: self.currency.clone() }
    }
}

/// Which currency a summary is asked for.
#[derive(Debug)]
pub struct ReadCurrencyOptions {
    pub name: String,
}

} // verus!
