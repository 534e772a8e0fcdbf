//! Requests the inventory store accepts and the replies it sends.
use vstd::prelude::*;

use crate::model::{inventories_view, Inventory, InventoryView, Item, ItemView};
use crate::store_spec::StoreError;

verus! {

/// A request from a consumer to the inventory store. Entities are named by id.
#[derive(Debug, Clone, PartialEq, Eq)]
pub enum DataAgentRequest {
    GetInventories,
    GetInventory(u128),
    CreateInventory(String),
    UpdateInventory {
        target: u128,
        name: String,
        owner: u128,
        admins: Vec<u128>,
        writables: Vec<u128>,
        readables: Vec<u128>,
    },
    DeleteInventory(u128),
    UpdateItem { inventory: u128, target: u128, name: String, ean: Option<String> },
    CreateItem(u128, String, Option<String>),
    DeleteAllData,
    GetItem(u128, u128),
    DeleteItem(u128, u128),
}

/// A reply of the inventory store, direct or broadcast. Entities are copies.
#[derive(Debug, Clone, PartialEq, Eq)]
pub enum DataAgentResponse {
    Inventories(Vec<Inventory>),
    NewInventoryUuid(u128),
    Inventory(Inventory),
    InvalidInventoryUuid,
    UpdatedInventory(Inventory),
    DeletedInventory(u128),
    NewItemUuid(u128),
    Item(Item),
    UpdatedItem,
    DeletedItem(u128),
    InvalidItemUuid,
    NotAuthenticated,
    UuidTaken,
}

pub enum ResponseView {
    Inventories(Seq<InventoryView>),
    NewInventoryUuid(u128),
    Inventory(InventoryView),
    InvalidInventoryUuid,
    UpdatedInventory(InventoryView),
    DeletedInventory(u128),
    NewItemUuid(u128),
    Item(ItemView),
    UpdatedItem,
    DeletedItem(u128),
    InvalidItemUuid,
    NotAuthenticated,
    UuidTaken,
}

impl View for DataAgentResponse {
    type V = ResponseView;

    open spec fn view(&self) -> ResponseView {
        match self {
            DataAgentResponse::Inventories(v) => ResponseView::Inventories(inventories_view(v@)),
            DataAgentResponse::NewInventoryUuid(x) => ResponseView::NewInventoryUuid(*x),
            DataAgentResponse::Inventory(i) => ResponseView::Inventory(i@),
            DataAgentResponse::InvalidInventoryUuid => ResponseView::InvalidInventoryUuid,
            DataAgentResponse::UpdatedInventory(i) => ResponseView::UpdatedInventory(i@),
            DataAgentResponse::DeletedInventory(x) => ResponseView::DeletedInventory(*x),
            DataAgentResponse::NewItemUuid(x) => ResponseView::NewItemUuid(*x),
            DataAgentResponse::Item(i) => ResponseView::Item(i@),
            DataAgentResponse::UpdatedItem => ResponseView::UpdatedItem,
            DataAgentResponse::DeletedItem(x) => ResponseView::DeletedItem(*x),
            DataAgentResponse::InvalidItemUuid => ResponseView::InvalidItemUuid,
            DataAgentResponse::NotAuthenticated => ResponseView::NotAuthenticated,
            DataAgentResponse::UuidTaken => ResponseView::UuidTaken,
        }
    }
}

/// The reply that reports a rejected operation.
pub open spec fn error_view(e: StoreError) -> ResponseView {
    match e {
        StoreError::NotAuthenticated => ResponseView::NotAuthenticated,
        StoreError::InvalidInventoryUuid => ResponseView::InvalidInventoryUuid,
        StoreError::InvalidItemUuid => ResponseView::InvalidItemUuid,
        StoreError::UuidTaken => ResponseView::UuidTaken,
    }
}

/// The reply that reports `e`.
pub fn error_response(e: StoreError) -> (r: DataAgentResponse)
    ensures
        r@ == error_view(e),
{
    match e {
        StoreError::NotAuthenticated => DataAgentResponse::NotAuthenticated,
        StoreError::InvalidInventoryUuid => DataAgentResponse::InvalidInventoryUuid,
        StoreError::InvalidItemUuid => DataAgentResponse::InvalidItemUuid,
        StoreError::UuidTaken => DataAgentResponse::UuidTaken,
    }
}

/// The view of a list of deliveries.
pub open spec fn deliveries_view(v: Seq<(u64, DataAgentResponse)>) -> Seq<(u64, ResponseView)> {
    v.map_values(|d: (u64, DataAgentResponse)| (d.0, d.1@))
}

/// The current list sent to each subscriber, oldest first.
pub open spec fn broadcast_view(subs: Seq<u64>, s: Seq<InventoryView>) -> Seq<(u64, ResponseView)> {
    subs.map_values(|sub: u64| (sub, ResponseView::Inventories(s)))
}

/// What the store does with one request: whether the collection must be
/// written back to durable storage, and the replies in delivery order.
#[derive(Debug, Clone, PartialEq, Eq)]
pub struct Outcome {
    pub persist: bool,
    pub replies: Vec<(u64, DataAgentResponse)>,
}

} // verus!
