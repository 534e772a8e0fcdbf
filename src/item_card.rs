//! The card that shows one item: what it links to and how it reacts.
use vstd::prelude::*;

use crate::model::Item;
use crate::route::AppRoute;

verus! {

/// Properties of the card: the item shown.
#[derive(Debug, Clone, PartialEq, Eq)]
pub struct Props {
    pub item: Item,
}

/// Events of the card.
#[derive(Debug, Clone, PartialEq, Eq)]
pub enum Msg {
    OpenItem,
    EditItem,
}

/// State of an item card.
#[derive(Debug, Clone, PartialEq, Eq)]
pub struct ItemCard {
    pub props: Props,
}

impl ItemCard {
    /// A card for `props.item`.
    pub fn create(props: Props) -> (r: ItemCard)
        ensures
            r.props == props,
    {
        ItemCard { props }
    }

    /// Whether the card renders again after `msg`.
    pub fn update(&mut self, msg: Msg) -> (r: bool)
        ensures
            *final(self) == *old(self),
            r == (msg is EditItem),
    {
        match msg {
            Msg::OpenItem => false,
            Msg::EditItem => true,
        }
    }

    /// Properties never change what the card shows.
    pub fn change(&mut self, props: Props) -> (r: bool)
        ensures
            !r,
            *final(self) == *old(self),
    {
        false
    }

    /// The pages the card links to, opening and editing the item, when its
    /// parent inventory could be found; none when it could not.
    pub fn links(&self, parent_found: bool) -> (r: Option<(AppRoute, AppRoute)>)
        ensures
            parent_found ==> r == Some(
                (
                    AppRoute::Units(self.props.item.inventory_uuid, self.props.item.uuid),
                    AppRoute::UpdateItem(self.props.item.inventory_uuid, self.props.item.uuid),
                ),
            ),
            !parent_found ==> r is None,
    {
        if parent_found {
            let inv = self.props.item.inventory_uuid;
            let id = self.props.item.uuid;
            Some((AppRoute::Units(inv, id), AppRoute::UpdateItem(inv, id)))
        } else {
            None
        }
    }
}

} // verus!
