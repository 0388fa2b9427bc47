//! The tiles of the portfolio, in the order in which they are shown.

use crate::{RecordId, RecordIdView};
use vstd::prelude::*;

verus! {

/// What a tile shows.
#[derive(Debug)]
pub enum Inner {
    Currency(super::currency::Tile),
    Budget(super::budget::Tile),
}

/// What an `Inner` stands for in contracts.
pub ghost enum InnerView {
    Currency(super::currency::TileView),
    Budget(super::budget::TileView),
}

impl View for Inner {
    type V = InnerView;

    open spec fn view(&self) -> InnerView {
        match self {
            Inner::Currency(t) => InnerView::Currency(t@),
            Inner::Budget(t) => InnerView::Budget(t@),
        }
    }
}

impl Clone for Inner {
    fn clone(&self) -> (r: Self)
        ensures
            r@ == self@,
    {
        match self {
            Inner::Currency(t) => Inner::Currency(t.clone()),
            Inner::Budget(t) => Inner::Budget(t.clone()),
        }
    }
}

/// A stored tile and its place on the page.
#[derive(Debug)]
pub struct Tile {
    pub id: RecordId,
    pub inner: Inner,
    pub order: usize,
}

/// What a `Tile` stands for in contracts.
pub ghost struct TileView {
    pub id: RecordIdView,
    pub inner: InnerView,
    pub order: nat,
}

impl View for Tile {
    type V = TileView;

    open spec fn view(&self) -> TileView {
        TileView { id: self.id@, inner: self.inner@, order: self.order as nat }
    }
}

/// A tile that has no reference yet.
#[derive(Debug)]
pub struct TileWithoutId {
    pub inner: Inner,
    pub order: usize,
}

/// What is asked for to add a tile.
#[derive(Debug)]
pub struct WriteOptions {
    pub content: Inner,
}

/// How many tiles the page holds.
#[derive(Clone, Copy, Debug, PartialEq, Eq, Structural)]
pub struct CountResult {
    pub count: usize,
}

/// The tile asked for, placed after the `count` tiles that the page holds.
pub fn write(options: WriteOptions, count: CountResult) -> (r: TileWithoutId)
    ensures
        r.inner@ == options.content@,
        r.order == count.count,
{
    TileWithoutId { inner: options.content, order: count.count }
}

impl TileWithoutId {
    /// The tile under the reference `id`.
    pub fn with_id(self, id: RecordId) -> (r: Tile)
        ensures
            r@.id == id@,
            r@.inner == self.inner@,
            r@.order == self.order,
    {
        Tile { id, inner: self.inner, order: self.order }
    }
}

} // verus!
