//! The mathematical model of the inventory collection and of each operation
//! on it.
use vstd::prelude::*;

use crate::messages::{broadcast_view, error_view, DataAgentRequest, ResponseView};
use crate::model::{new_inventory_view, opt_view, InventoryView, ItemView};

verus! {

/// Why a store operation was rejected.
#[derive(PartialEq, Eq, Structural, Debug, Clone, Copy)]
pub enum StoreError {
    /// Creating an inventory needs a logged-in user.
    NotAuthenticated,
    /// No inventory has the given id.
    InvalidInventoryUuid,
    /// The inventory has no item with the given id.
    InvalidItemUuid,
    /// The fresh id is taken by an inventory or an item, or was handed out
    /// before.
    UuidTaken,
}

/// `x` is the id of some inventory of `s`.
pub open spec fn has_inv(s: Seq<InventoryView>, x: u128) -> bool {
    exists|i: int| 0 <= i < s.len() && (#[trigger] s[i]).uuid == x
}

/// `x` is the id of some item of `items`.
pub open spec fn has_item(items: Seq<ItemView>, x: u128) -> bool {
    exists|j: int| 0 <= j < items.len() && (#[trigger] items[j]).uuid == x
}

/// `x` is the id of an inventory or of an item somewhere in `s`.
pub open spec fn id_used(s: Seq<InventoryView>, x: u128) -> bool {
    has_inv(s, x) || exists|i: int| 0 <= i < s.len() && has_item((#[trigger] s[i]).items, x)
}

/// Every id in the collection is distinct, and each item names its parent.
pub open spec fn wf_inventories(s: Seq<InventoryView>) -> bool {
    &&& forall|i: int, k: int|
        0 <= i < s.len() && 0 <= k < s.len() && i != k ==> (#[trigger] s[i]).uuid != (#[trigger] s[k]).uuid
    &&& forall|i: int, j: int|
        0 <= i < s.len() && 0 <= j < s[i].items.len() ==> (#[trigger] s[i].items[j]).inventory_uuid
            == s[i].uuid
    &&& forall|i: int, j: int, k: int, l: int|
        0 <= i < s.len() && 0 <= j < s[i].items.len() && 0 <= k < s.len() && 0 <= l < s[k].items.len()
            && (i != k || j != l) ==> (#[trigger] s[i].items[j]).uuid != (#[trigger] s[k].items[l]).uuid
    &&& forall|i: int, k: int, l: int|
        0 <= i < s.len() && 0 <= k < s.len() && 0 <= l < s[k].items.len() ==> (#[trigger] s[i]).uuid
            != (#[trigger] s[k].items[l]).uuid
}

/// The position of the inventory with id `x` (meaningful when `has_inv`).
pub open spec fn inv_index(s: Seq<InventoryView>, x: u128) -> int {
    choose|i: int| 0 <= i < s.len() && (#[trigger] s[i]).uuid == x
}

/// The position of the item with id `x` (meaningful when `has_item`).
pub open spec fn item_index(items: Seq<ItemView>, x: u128) -> int {
    choose|j: int| 0 <= j < items.len() && (#[trigger] items[j]).uuid == x
}

/// The inventory with id `x`, if there is one.
pub open spec fn get_inventory_spec(s: Seq<InventoryView>, x: u128) -> Option<InventoryView> {
    if has_inv(s, x) {
        Some(s[inv_index(s, x)])
    } else {
        None
    }
}

/// The item `item` of the inventory `inv`, if both exist.
pub open spec fn get_item_spec(s: Seq<InventoryView>, inv: u128, item: u128) -> Option<ItemView> {
    if has_inv(s, inv) && has_item(s[inv_index(s, inv)].items, item) {
        let items = s[inv_index(s, inv)].items;
        Some(items[item_index(items, item)])
    } else {
        None
    }
}

/// `x` may be handed out: no entity holds it and it was never handed out.
pub open spec fn id_available(s: Seq<InventoryView>, issued: Seq<u128>, x: u128) -> bool {
    !id_used(s, x) && !issued.contains(x)
}

/// Creating an inventory named `name` with id `fresh` on behalf of `user`,
/// when the ids in `issued` were handed out before.
pub open spec fn create_inventory_spec(
    s: Seq<InventoryView>,
    issued: Seq<u128>,
    name: Seq<char>,
    user: Option<u128>,
    fresh: u128,
) -> (Seq<InventoryView>, Result<u128, StoreError>) {
    match user {
        None => (s, Err(StoreError::NotAuthenticated)),
        Some(u) => if !id_available(s, issued, fresh) {
            (s, Err(StoreError::UuidTaken))
        } else {
            (s.push(new_inventory_view(fresh, name, u)), Ok(fresh))
        },
    }
}

/// The item of id `fresh` appended to the inventory `inv`.
pub open spec fn create_item_spec(
    s: Seq<InventoryView>,
    issued: Seq<u128>,
    inv: u128,
    name: Seq<char>,
    ean: Option<Seq<char>>,
    fresh: u128,
) -> (Seq<InventoryView>, Result<u128, StoreError>) {
    if !has_inv(s, inv) {
        (s, Err(StoreError::InvalidInventoryUuid))
    } else if !id_available(s, issued, fresh) {
        (s, Err(StoreError::UuidTaken))
    } else {
        let i = inv_index(s, inv);
        let item = ItemView { uuid: fresh, inventory_uuid: inv, name, ean };
        (s.update(i, InventoryView { items: s[i].items.push(item), ..s[i] }), Ok(fresh))
    }
}

/// The inventory `target` with its name, owner and access lists replaced.
pub open spec fn update_inventory_spec(
    s: Seq<InventoryView>,
    target: u128,
    name: Seq<char>,
    owner: u128,
    admins: Seq<u128>,
    writables: Seq<u128>,
    readables: Seq<u128>,
) -> (Seq<InventoryView>, Result<(), StoreError>) {
    if !has_inv(s, target) {
        (s, Err(StoreError::InvalidInventoryUuid))
    } else {
        let i = inv_index(s, target);
        (
            s.update(i, InventoryView { name, owner, admins, writables, readables, ..s[i] }),
            Ok(()),
        )
    }
}

/// The collection without the inventory `target`.
pub open spec fn delete_inventory_spec(s: Seq<InventoryView>, target: u128) -> (
    Seq<InventoryView>,
    Result<(), StoreError>,
) {
    if !has_inv(s, target) {
        (s, Err(StoreError::InvalidInventoryUuid))
    } else {
        (s.remove(inv_index(s, target)), Ok(()))
    }
}

/// The item `item` of inventory `inv` with its name and EAN replaced.
pub open spec fn update_item_spec(
    s: Seq<InventoryView>,
    inv: u128,
    item: u128,
    name: Seq<char>,
    ean: Option<Seq<char>>,
) -> (Seq<InventoryView>, Result<(), StoreError>) {
    if !has_inv(s, inv) {
        (s, Err(StoreError::InvalidInventoryUuid))
    } else if !has_item(s[inv_index(s, inv)].items, item) {
        (s, Err(StoreError::InvalidItemUuid))
    } else {
        let i = inv_index(s, inv);
        let j = item_index(s[i].items, item);
        let it = ItemView { name, ean, ..s[i].items[j] };
        (s.update(i, InventoryView { items: s[i].items.update(j, it), ..s[i] }), Ok(()))
    }
}

/// The item `item` taken out of inventory `inv`.
pub open spec fn delete_item_spec(s: Seq<InventoryView>, inv: u128, item: u128) -> (
    Seq<InventoryView>,
    Result<(), StoreError>,
) {
    if !has_inv(s, inv) {
        (s, Err(StoreError::InvalidInventoryUuid))
    } else if !has_item(s[inv_index(s, inv)].items, item) {
        (s, Err(StoreError::InvalidItemUuid))
    } else {
        let i = inv_index(s, inv);
        let j = item_index(s[i].items, item);
        (s.update(i, InventoryView { items: s[i].items.remove(j), ..s[i] }), Ok(()))
    }
}

/// What a store loaded from durable storage holds: the stored collection if
/// there is one and it is well formed, else nothing.
pub open spec fn reload_view(stored: Option<Seq<InventoryView>>) -> Seq<InventoryView> {
    match stored {
        Some(v) => if wf_inventories(v) {
            v
        } else {
            Seq::empty()
        },
        None => Seq::empty(),
    }
}

/// Outcome of a mutation: on success the new state is persisted and, after
/// the direct reply, broadcast to every subscriber.
pub open spec fn mutation_outcome(
    t: Seq<InventoryView>,
    ok: bool,
    subs: Seq<u64>,
    id: u64,
    reply: ResponseView,
) -> (Seq<InventoryView>, bool, Seq<(u64, ResponseView)>) {
    if ok {
        (t, true, seq![(id, reply)] + broadcast_view(subs, t))
    } else {
        (t, false, seq![(id, reply)])
    }
}

/// The direct reply to a creation.
pub open spec fn created_reply(r: Result<u128, StoreError>, inventory: bool) -> ResponseView {
    match r {
        Ok(x) => if inventory {
            ResponseView::NewInventoryUuid(x)
        } else {
            ResponseView::NewItemUuid(x)
        },
        Err(e) => error_view(e),
    }
}

/// The direct reply to an operation that returns nothing on success.
pub open spec fn done_reply(r: Result<(), StoreError>, ok_reply: ResponseView) -> ResponseView {
    match r {
        Ok(()) => ok_reply,
        Err(e) => error_view(e),
    }
}

/// What the store does with request `msg` from consumer `id`, given the
/// collection `s`, the logged-in user, the subscribers, and the id `fresh`
/// handed to a creation: the new collection, whether to persist, the replies.
pub open spec fn handle_spec(
    s: Seq<InventoryView>,
    issued: Seq<u128>,
    user: Option<u128>,
    subs: Seq<u64>,
    msg: DataAgentRequest,
    id: u64,
    fresh: u128,
) -> (Seq<InventoryView>, bool, Seq<(u64, ResponseView)>) {
    match msg {
        DataAgentRequest::GetInventories => (s, false, broadcast_view(subs, s)),
        DataAgentRequest::GetInventory(x) => (
            s,
            false,
            seq![
                (id, match get_inventory_spec(s, x) {
                    Some(v) => ResponseView::Inventory(v),
                    None => ResponseView::InvalidInventoryUuid,
                }),
            ],
        ),
        DataAgentRequest::CreateInventory(name) => {
            let (t, r) = create_inventory_spec(s, issued, name@, user, fresh);
            mutation_outcome(t, r is Ok, subs, id, created_reply(r, true))
        },
        DataAgentRequest::UpdateInventory { target, name, owner, admins, writables, readables } => {
            let (t, r) = update_inventory_spec(
                s,
                target,
                name@,
                owner,
                admins@,
                writables@,
                readables@,
            );
            let ok_reply = match get_inventory_spec(t, target) {
                Some(v) => ResponseView::UpdatedInventory(v),
                None => ResponseView::InvalidInventoryUuid,
            };
            mutation_outcome(t, r is Ok, subs, id, done_reply(r, ok_reply))
        },
        DataAgentRequest::DeleteInventory(target) => {
            let (t, r) = delete_inventory_spec(s, target);
            mutation_outcome(
                t,
                r is Ok,
                subs,
                id,
                done_reply(r, ResponseView::DeletedInventory(target)),
            )
        },
        DataAgentRequest::UpdateItem { inventory, target, name, ean } => {
            let (t, r) = update_item_spec(s, inventory, target, name@, opt_view(ean));
            mutation_outcome(t, r is Ok, subs, id, done_reply(r, ResponseView::UpdatedItem))
        },
        DataAgentRequest::CreateItem(inventory, name, ean) => {
            let (t, r) = create_item_spec(s, issued, inventory, name@, opt_view(ean), fresh);
            mutation_outcome(t, r is Ok, subs, id, created_reply(r, false))
        },
        DataAgentRequest::DeleteAllData => (Seq::empty(), true, broadcast_view(subs, Seq::empty())),
        DataAgentRequest::GetItem(inventory, item) => (
            s,
            false,
            seq![
                (id, match get_item_spec(s, inventory, item) {
                    Some(v) => ResponseView::Item(v),
                    None => ResponseView::InvalidInventoryUuid,
                }),
            ],
        ),
        DataAgentRequest::DeleteItem(inventory, item) => {
            let (t, r) = delete_item_spec(s, inventory, item);
            mutation_outcome(t, r is Ok, subs, id, done_reply(r, ResponseView::DeletedItem(item)))
        },
    }
}

/// The ids handed out once request `msg` is handled: a successful creation
/// adds its fresh id, nothing else changes the record.
pub open spec fn issued_after(
    s: Seq<InventoryView>,
    issued: Seq<u128>,
    user: Option<u128>,
    msg: DataAgentRequest,
    fresh: u128,
) -> Seq<u128> {
    match msg {
        DataAgentRequest::CreateInventory(name) => if create_inventory_spec(
            s,
            issued,
            name@,
            user,
            fresh,
        ).1 is Ok {
            issued.push(fresh)
        } else {
            issued
        },
        DataAgentRequest::CreateItem(inventory, name, ean) => if create_item_spec(
            s,
            issued,
            inventory,
            name@,
            opt_view(ean),
            fresh,
        ).1 is Ok {
            issued.push(fresh)
        } else {
            issued
        },
        _ => issued,
    }
}

} // verus!
