//! Tiles that show a budget.

use vstd::prelude::*;

verus! {

/// How a budget tile draws its figures.
#[derive(Clone, Copy, Debug, PartialEq, Eq, Structural)]
pub enum Type {
    Pie,
    HorizontalBars,
}

/// A tile that shows the budget whose reference is written in `budget`.
#[derive(Debug)]
pub struct Tile {
    pub t: Type,
    pub budget: String,
}

/// What a budget `Tile` stands for in contracts.
pub ghost struct TileView {
    pub t: Type,
    pub budget: Seq<char>,
}

impl View for Tile {
    type V = TileView;

    open spec fn view(&self) -> TileView {
        TileView { t: self.t, budget: self.budget@ }
    }
}

impl Clone for Tile {
    fn clone(&self) -> (r: Self)
        ensures
            r@ == self@,
    {
        Tile { t: self.t, budget: self.budget.clone() }
    }
}

} // verus!
