//! Navigation targets the components ask the router for.
use vstd::prelude::*;

verus! {

/// A page of the application.
#[derive(PartialEq, Eq, Structural, Debug, Clone, Copy)]
pub enum AppRoute {
    Inventories,
    /// The items of an inventory.
    Items(u128),
    /// One item of an inventory.
    Units(u128, u128),
    /// The edit form of one item.
    UpdateItem(u128, u128),
}

} // verus!
