use sfi_client::auth_state::AuthState;
use sfi_client::messages::{DataAgentRequest, DataAgentResponse};
use sfi_client::model::{Inventory, Item, UserInfo};
use sfi_client::store::{restore_inventories, DataAgent, Msg};
use sfi_client::store_spec::StoreError;

const ME: u128 = 42;

fn logged_in_store() -> DataAgent {
    let mut s = DataAgent::create(None, vec![]);
    s.update(Msg::NewAuthState(AuthState::LoggedIn(UserInfo { uuid: ME, username: "me".to_string() })));
    s
}

#[test]
fn ids_are_never_reused_after_deletion_or_reload() {
    let mut s = logged_in_store();
    assert_eq!(s.create_inventory_with_uuid("a".to_string(), 1), Ok(1));
    assert_eq!(s.create_item_with_uuid(1, "i".to_string(), None, 2), Ok(2));
    assert_eq!(s.delete_item(1, 2), Ok(()));
    assert_eq!(s.create_item_with_uuid(1, "j".to_string(), None, 2), Err(StoreError::UuidTaken));
    assert_eq!(s.delete_inventory(1), Ok(()));
    let out = s.handle_input(DataAgentRequest::CreateInventory("b".to_string()), 1, 1);
    assert_eq!(out.replies, vec![(1, DataAgentResponse::UuidTaken)]);
    assert_eq!(s.create_inventory_with_uuid("c".to_string(), 3), Ok(3));
    let mut reloaded = DataAgent::create(Some(s.persist_data()), s.persist_issued());
    reloaded.update(Msg::NewAuthState(AuthState::LoggedIn(UserInfo { uuid: ME, username: "me".to_string() })));
    assert_eq!(reloaded.create_inventory_with_uuid("d".to_string(), 1), Err(StoreError::UuidTaken));
    assert_eq!(reloaded.create_inventory_with_uuid("d".to_string(), 2), Err(StoreError::UuidTaken));
    assert_eq!(reloaded.create_inventory_with_uuid("d".to_string(), 3), Err(StoreError::UuidTaken));
    assert_eq!(reloaded.create_inventory_with_uuid("d".to_string(), 4), Ok(4));
}

#[test]
fn loaded_ids_count_as_issued() {
    let snapshot = vec![inventory(5, vec![item(6, 5)])];
    let mut s = DataAgent::create(Some(snapshot), vec![9]);
    s.update(Msg::NewAuthState(AuthState::LoggedIn(UserInfo { uuid: ME, username: "me".to_string() })));
    s.delete_inventory(5).unwrap();
    for x in [5u128, 6, 9] {
        assert_eq!(s.create_inventory_with_uuid("x".to_string(), x), Err(StoreError::UuidTaken));
    }
    assert_eq!(s.create_inventory_with_uuid("x".to_string(), 7), Ok(7));
}

#[test]
fn taken_id_is_rejected() {
    let mut s = logged_in_store();
    assert_eq!(s.create_inventory_with_uuid("a".to_string(), 10), Ok(10));
    assert_eq!(s.create_inventory_with_uuid("b".to_string(), 10), Err(StoreError::UuidTaken));
    assert_eq!(s.create_item_with_uuid(10, "i".to_string(), None, 11), Ok(11));
    assert_eq!(s.create_item_with_uuid(10, "j".to_string(), None, 11), Err(StoreError::UuidTaken));
    assert_eq!(s.create_inventory_with_uuid("c".to_string(), 11), Err(StoreError::UuidTaken));
    let out = s.handle_input(DataAgentRequest::CreateInventory("d".to_string()), 3, 10);
    assert!(!out.persist);
    assert_eq!(out.replies, vec![(3, DataAgentResponse::UuidTaken)]);
    assert_eq!(s.inventories().len(), 1);
}

#[test]
fn get_inventory_after_create() {
    let mut s = logged_in_store();
    let out = s.handle_input(DataAgentRequest::CreateInventory("Shed".to_string()), 4, 77);
    assert_eq!(out.replies[0], (4, DataAgentResponse::NewInventoryUuid(77)));
    let inv = s.get_inventory(77).unwrap().clone();
    assert_eq!(inv.name, "Shed");
    assert_eq!(inv.owner, ME);
    assert!(inv.items.is_empty());
    let out = s.handle_input(DataAgentRequest::GetInventory(77), 4, 0);
    assert_eq!(out.replies, vec![(4, DataAgentResponse::Inventory(inv.clone()))]);
    let out = s.handle_input(DataAgentRequest::GetInventory(78), 4, 0);
    assert_eq!(out.replies, vec![(4, DataAgentResponse::InvalidInventoryUuid)]);
}

#[test]
fn create_without_login_is_rejected() {
    let mut s = DataAgent::create(None, vec![]);
    s.connected(1);
    let out = s.handle_input(DataAgentRequest::CreateInventory("x".to_string()), 1, 5);
    assert!(!out.persist);
    assert_eq!(out.replies, vec![(1, DataAgentResponse::NotAuthenticated)]);
    assert!(s.inventories().is_empty());
}

#[test]
fn delete_item_then_get_item_is_invalid() {
    let mut s = logged_in_store();
    s.create_inventory_with_uuid("a".to_string(), 1).unwrap();
    s.create_item_with_uuid(1, "x".to_string(), None, 2).unwrap();
    s.create_item_with_uuid(1, "y".to_string(), None, 3).unwrap();
    let out = s.handle_input(DataAgentRequest::DeleteItem(1, 2), 9, 0);
    assert_eq!(out.replies[0], (9, DataAgentResponse::DeletedItem(2)));
    let out = s.handle_input(DataAgentRequest::GetItem(1, 2), 9, 0);
    assert_eq!(out.replies, vec![(9, DataAgentResponse::InvalidInventoryUuid)]);
    assert_eq!(s.get_item(1, 3).unwrap().name, "y");
    assert_eq!(s.delete_item(1, 2), Err(StoreError::InvalidItemUuid));
    assert_eq!(s.delete_item(5, 3), Err(StoreError::InvalidInventoryUuid));
}

#[test]
fn delete_missing_inventory_is_reported() {
    let mut s = logged_in_store();
    let out = s.handle_input(DataAgentRequest::DeleteInventory(3), 2, 0);
    assert!(!out.persist);
    assert_eq!(out.replies, vec![(2, DataAgentResponse::InvalidInventoryUuid)]);
    let out = s.handle_input(DataAgentRequest::CreateItem(3, "n".to_string(), None), 2, 4);
    assert_eq!(out.replies, vec![(2, DataAgentResponse::InvalidInventoryUuid)]);
}

#[test]
fn update_inventory_and_item() {
    let mut s = logged_in_store();
    s.connected(8);
    s.create_inventory_with_uuid("a".to_string(), 1).unwrap();
    s.create_item_with_uuid(1, "x".to_string(), Some("1".to_string()), 2).unwrap();
    let out = s.handle_input(
        DataAgentRequest::UpdateInventory {
            target: 1,
            name: "b".to_string(),
            owner: 5,
            admins: vec![6],
            writables: vec![7],
            readables: vec![8, 9],
        },
        8,
        0,
    );
    assert!(out.persist);
    let inv = s.get_inventory(1).unwrap().clone();
    assert_eq!(inv.name, "b");
    assert_eq!(inv.owner, 5);
    assert_eq!(inv.admins, vec![6]);
    assert_eq!(inv.writables, vec![7]);
    assert_eq!(inv.readables, vec![8, 9]);
    assert_eq!(inv.items.len(), 1);
    assert_eq!(out.replies[0], (8, DataAgentResponse::UpdatedInventory(inv.clone())));
    assert_eq!(out.replies[1], (8, DataAgentResponse::Inventories(vec![inv])));

    let out = s.handle_input(
        DataAgentRequest::UpdateItem { inventory: 1, target: 2, name: "z".to_string(), ean: None },
        8,
        0,
    );
    assert_eq!(out.replies[0], (8, DataAgentResponse::UpdatedItem));
    let it = s.get_item(1, 2).unwrap();
    assert_eq!(it.name, "z");
    assert_eq!(it.ean, None);
    let out = s.handle_input(
        DataAgentRequest::UpdateItem { inventory: 1, target: 99, name: "q".to_string(), ean: None },
        8,
        0,
    );
    assert_eq!(out.replies, vec![(8, DataAgentResponse::InvalidItemUuid)]);
    assert_eq!(
        s.update_inventory(4, "n".to_string(), 0, vec![], vec![], vec![]),
        Err(StoreError::InvalidInventoryUuid)
    );
}

#[test]
fn get_inventories_and_delete_all_broadcast() {
    let mut s = logged_in_store();
    s.connected(3);
    s.connected(1);
    s.create_inventory_with_uuid("a".to_string(), 1).unwrap();
    let out = s.handle_input(DataAgentRequest::GetInventories, 1, 0);
    assert!(!out.persist);
    let to: Vec<u64> = out.replies.iter().map(|d| d.0).collect();
    assert_eq!(to, vec![3, 1]);
    let out = s.handle_input(DataAgentRequest::DeleteAllData, 1, 0);
    assert!(out.persist);
    assert_eq!(
        out.replies,
        vec![(3, DataAgentResponse::Inventories(vec![])), (1, DataAgentResponse::Inventories(vec![]))]
    );
    s.disconnected(3);
    let out = s.handle_input(DataAgentRequest::GetInventories, 1, 0);
    assert_eq!(out.replies, vec![(1, DataAgentResponse::Inventories(vec![]))]);
}

#[test]
fn persist_and_reload_round_trip() {
    let mut s = logged_in_store();
    s.create_inventory_with_uuid("a".to_string(), 1).unwrap();
    s.create_inventory_with_uuid("b".to_string(), 2).unwrap();
    s.create_item_with_uuid(2, "x".to_string(), Some("9".to_string()), 3).unwrap();
    s.create_item_with_uuid(2, "y".to_string(), None, 4).unwrap();
    let snapshot = s.persist_data();
    let reloaded = DataAgent::create(Some(snapshot), s.persist_issued());
    assert_eq!(reloaded.inventories(), s.inventories());
    assert_eq!(reloaded.auth_state(), &AuthState::Initial);
    assert_eq!(reloaded.persist_issued(), vec![1, 2, 3, 4, 1, 2, 3, 4]);
}

fn item(uuid: u128, parent: u128) -> Item {
    Item { uuid, inventory_uuid: parent, name: "i".to_string(), ean: None }
}

fn inventory(uuid: u128, items: Vec<Item>) -> Inventory {
    Inventory {
        uuid,
        name: "n".to_string(),
        owner: 0,
        admins: vec![],
        writables: vec![],
        readables: vec![],
        items,
    }
}

#[test]
fn malformed_snapshot_is_refused() {
    let good = vec![inventory(1, vec![item(2, 1)]), inventory(3, vec![])];
    assert_eq!(restore_inventories(&good), Some(good.clone()));
    assert_eq!(restore_inventories(&vec![inventory(1, vec![]), inventory(1, vec![])]), None);
    assert_eq!(restore_inventories(&vec![inventory(1, vec![item(2, 3)])]), None);
    assert_eq!(restore_inventories(&vec![inventory(1, vec![item(2, 1), item(2, 1)])]), None);
    assert_eq!(restore_inventories(&vec![inventory(1, vec![item(1, 1)])]), None);
    assert_eq!(restore_inventories(&vec![inventory(1, vec![item(2, 1)]), inventory(2, vec![])]), None);
    let bad = vec![inventory(1, vec![]), inventory(1, vec![])];
    assert!(DataAgent::create(Some(bad), vec![]).inventories().is_empty());
    assert!(restore_inventories(&vec![]).is_some());
}
