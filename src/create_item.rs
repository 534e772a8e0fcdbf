//! The item creation form: its state and what each event makes it do.
use vstd::prelude::*;

use crate::messages::{DataAgentRequest, DataAgentResponse};
use crate::model::{opt_view, Inventory};
use crate::route::AppRoute;

verus! {

/// Properties of the form: the inventory the new item goes into.
#[derive(Debug, Clone, PartialEq, Eq)]
pub struct Props {
    pub inventory_uuid: u128,
}

/// Events of the form.
#[derive(Debug, Clone, PartialEq, Eq)]
pub enum Msg {
    UpdateName(String),
    UpdateEan(String),
    DataAgentResponse(DataAgentResponse),
    Confirm,
    Cancel,
}

/// What the form asks its surroundings to do after an event.
#[derive(Debug, Clone, PartialEq, Eq)]
pub enum Effect {
    Nothing,
    /// Send a request to the inventory store.
    Send(DataAgentRequest),
    /// Navigate to another page.
    ChangeRoute(AppRoute),
}

/// State of the item creation form.
#[derive(Debug, Clone, PartialEq, Eq)]
pub struct CreateItem {
    pub name: String,
    pub inventory: Option<Inventory>,
    pub inventory_uuid: u128,
    pub ean: Option<String>,
    pub is_busy: bool,
}

/// An empty EAN field means no EAN.
pub open spec fn ean_of(s: Seq<char>) -> Option<Seq<char>> {
    if s.len() == 0 {
        None
    } else {
        Some(s)
    }
}

impl CreateItem {
    /// An empty form for `props.inventory_uuid`, and the lookup of that
    /// inventory to send to the store.
    pub fn create(props: Props) -> (r: (CreateItem, DataAgentRequest))
        ensures
            r.0.name@ == Seq::<char>::empty(),
            r.0.inventory is None,
            r.0.inventory_uuid == props.inventory_uuid,
            r.0.ean is None,
            !r.0.is_busy,
            r.1 == DataAgentRequest::GetInventory(props.inventory_uuid),
    {
        let inventory_uuid = props.inventory_uuid;
        (
            CreateItem {
                name: String::new(),
                inventory: None,
                inventory_uuid,
                ean: None,
                is_busy: false,
            },
            DataAgentRequest::GetInventory(inventory_uuid),
        )
    }

    /// Applies event `msg`; returns whether to render again and what to do.
    pub fn update(&mut self, msg: Msg) -> (r: (bool, Effect))
        ensures
            final(self).inventory_uuid == old(self).inventory_uuid,
            match msg {
                Msg::UpdateName(n) => {
                    &&& final(self).name == n
                    &&& final(self).ean == old(self).ean
                    &&& final(self).is_busy == old(self).is_busy
                    &&& final(self).inventory == old(self).inventory
                    &&& !r.0 && r.1 is Nothing
                },
                Msg::UpdateEan(e) => {
                    &&& opt_view(final(self).ean) == ean_of(e@)
                    &&& final(self).name == old(self).name
                    &&& final(self).is_busy == old(self).is_busy
                    &&& final(self).inventory == old(self).inventory
                    &&& r.0 && r.1 is Nothing
                },
                Msg::Confirm => {
                    &&& final(self).name == old(self).name
                    &&& final(self).ean == old(self).ean
                    &&& final(self).is_busy
                    &&& final(self).inventory == old(self).inventory
                    &&& r.0
                    &&& r.1 matches Effect::Send(DataAgentRequest::CreateItem(inv, n, e)) && inv
                        == old(self).inventory_uuid && n@ == old(self).name@ && opt_view(e)
                        == opt_view(old(self).ean)
                },
                Msg::Cancel => {
                    &&& final(self).name == old(self).name
                    &&& final(self).ean == old(self).ean
                    &&& final(self).is_busy
                    &&& final(self).inventory == old(self).inventory
                    &&& r.0
                    &&& r.1 == Effect::ChangeRoute(AppRoute::Inventories)
                },
                Msg::DataAgentResponse(resp) => {
                    &&& final(self).name == old(self).name
                    &&& final(self).ean == old(self).ean
                    &&& match resp {
                        DataAgentResponse::Inventory(inv) => {
                            &&& final(self).inventory == Some(inv)
                            &&& final(self).is_busy == old(self).is_busy
                            &&& r.0 && r.1 is Nothing
                        },
                        DataAgentResponse::InvalidInventoryUuid => {
                            &&& final(self).inventory is None
                            &&& final(self).is_busy == old(self).is_busy
                            &&& r.0 && r.1 is Nothing
                        },
                        DataAgentResponse::NewItemUuid(_) => {
                            &&& final(self).inventory == old(self).inventory
                            &&& !final(self).is_busy
                            &&& r.0
                            &&& r.1 == Effect::ChangeRoute(AppRoute::Items(old(self).inventory_uuid))
                        },
                        _ => {
                            &&& final(self).inventory == old(self).inventory
                            &&& final(self).is_busy == old(self).is_busy
                            &&& !r.0 && r.1 is Nothing
                        },
                    }
                },
            },
    {
        match msg {
            Msg::UpdateName(name) => {
                self.name = name;
                (false, Effect::Nothing)
            },
            Msg::UpdateEan(ean) => {
                self.ean = if ean.as_str().is_empty() {
                    None
                } else {
                    Some(ean)
                };
                (true, Effect::Nothing)
            },
            Msg::Confirm => {
                let req = DataAgentRequest::CreateItem(
                    self.inventory_uuid,
                    self.name.clone(),
                    crate::model::copy_opt_string(&self.ean),
                );
                self.is_busy = true;
                (true, Effect::Send(req))
            },
            Msg::Cancel => {
                self.is_busy = true;
                (true, Effect::ChangeRoute(AppRoute::Inventories))
            },
            Msg::DataAgentResponse(response) => match response {
                DataAgentResponse::Inventory(inventory) => {
                    self.inventory = Some(inventory);
                    (true, Effect::Nothing)
                },
                DataAgentResponse::InvalidInventoryUuid => {
                    self.inventory = None;
                    (true, Effect::Nothing)
                },
                DataAgentResponse::NewItemUuid(_) => {
                    self.is_busy = false;
                    (true, Effect::ChangeRoute(AppRoute::Items(self.inventory_uuid)))
                },
                _ => (false, Effect::Nothing),
            },
        }
    }

    /// Properties never change what the form shows.
    pub fn change(&mut self, props: Props) -> (r: bool)
        ensures
            !r,
            *final(self) == *old(self),
    {
        false
    }
}

} // verus!
