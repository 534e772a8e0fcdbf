//! Entities held by the inventory store, and their mathematical views.
use vstd::prelude::*;

verus! {

/// Cached identity of the user that the backend reports as logged in.
#[derive(Debug, Clone, PartialEq, Eq)]
pub struct UserInfo {
    pub uuid: u128,
    pub username: String,
}

/// A single inventoried object; `inventory_uuid` names its parent inventory.
#[derive(Debug, Clone, PartialEq, Eq)]
pub struct Item {
    pub uuid: u128,
    pub inventory_uuid: u128,
    pub name: String,
    pub ean: Option<String>,
}

/// A named collection of items with an owner and access-control lists.
#[derive(Debug, Clone, PartialEq, Eq)]
pub struct Inventory {
    pub uuid: u128,
    pub name: String,
    pub owner: u128,
    pub admins: Vec<u128>,
    pub writables: Vec<u128>,
    pub readables: Vec<u128>,
    pub items: Vec<Item>,
}

pub struct ItemView {
    pub uuid: u128,
    pub inventory_uuid: u128,
    pub name: Seq<char>,
    pub ean: Option<Seq<char>>,
}

pub struct InventoryView {
    pub uuid: u128,
    pub name: Seq<char>,
    pub owner: u128,
    pub admins: Seq<u128>,
    pub writables: Seq<u128>,
    pub readables: Seq<u128>,
    pub items: Seq<ItemView>,
}

pub open spec fn opt_view(o: Option<String>) -> Option<Seq<char>> {
    match o {
        Some(s) => Some(s@),
        None => None,
    }
}

impl View for Item {
    type V = ItemView;

    open spec fn view(&self) -> ItemView {
        ItemView {
            uuid: self.uuid,
            inventory_uuid: self.inventory_uuid,
            name: self.name@,
            ean: opt_view(self.ean),
        }
    }
}

pub open spec fn items_view(v: Seq<Item>) -> Seq<ItemView> {
    v.map_values(|i: Item| i@)
}

impl View for Inventory {
    type V = InventoryView;

    open spec fn view(&self) -> InventoryView {
        InventoryView {
            uuid: self.uuid,
            name: self.name@,
            owner: self.owner,
            admins: self.admins@,
            writables: self.writables@,
            readables: self.readables@,
            items: items_view(self.items@),
        }
    }
}

/// The view of a whole collection of inventories.
pub open spec fn inventories_view(v: Seq<Inventory>) -> Seq<InventoryView> {
    v.map_values(|i: Inventory| i@)
}

/// Copies an optional string.
pub fn copy_opt_string(o: &Option<String>) -> (r: Option<String>)
    ensures
        opt_view(r) == opt_view(*o),
{
    match o {
        Some(s) => Some(s.clone()),
        None => None,
    }
}

/// Copies a list of user ids.
pub fn copy_ids(v: &Vec<u128>) -> (r: Vec<u128>)
    ensures
        r@ == v@,
{
    let mut r: Vec<u128> = Vec::new();
    let mut i: usize = 0;
    while i < v.len()
        invariant
            i <= v.len(),
            r@ == v@.take(i as int),
        decreases v.len() - i,
    {
        r.push(v[i]);
        i = i + 1;
        assert(r@ =~= v@.take(i as int));
    }
    assert(r@ =~= v@);
    r
}

impl UserInfo {
    /// A copy of this identity.
    pub fn duplicate(&self) -> (r: UserInfo)
        ensures
            r.uuid == self.uuid,
            r.username@ == self.username@,
    {
        UserInfo { uuid: self.uuid, username: self.username.clone() }
    }
}

impl Item {
    /// Builds an item of the given parent inventory.
    pub fn new(uuid: u128, inventory_uuid: u128, name: String, ean: Option<String>) -> (r: Item)
        ensures
            r@ == (ItemView { uuid, inventory_uuid, name: name@, ean: opt_view(ean) }),
    {
        Item { uuid, inventory_uuid, name, ean }
    }

    /// A copy of this item, equal to it in every field.
    pub fn duplicate(&self) -> (r: Item)
        ensures
            r@ == self@,
    {
        Item {
            uuid: self.uuid,
            inventory_uuid: self.inventory_uuid,
            name: self.name.clone(),
            ean: copy_opt_string(&self.ean),
        }
    }
}

/// Copies a list of items.
pub fn copy_items(v: &Vec<Item>) -> (r: Vec<Item>)
    ensures
        items_view(r@) == items_view(v@),
{
    let mut r: Vec<Item> = Vec::new();
    let mut i: usize = 0;
    while i < v.len()
        invariant
            i <= v.len(),
            r@.len() == i,
            forall|k: int| 0 <= k < i ==> (#[trigger] r@[k])@ == v@[k]@,
        decreases v.len() - i,
    {
        let it = v[i].duplicate();
        r.push(it);
        i = i + 1;
    }
    assert(items_view(r@) =~= items_view(v@));
    r
}

impl Inventory {
    /// Builds an inventory with no items and empty access lists.
    pub fn new(uuid: u128, name: String, owner: u128) -> (r: Inventory)
        ensures
            r@ == new_inventory_view(uuid, name@, owner),
    {
        let r = Inventory {
            uuid,
            name,
            owner,
            admins: Vec::new(),
            writables: Vec::new(),
            readables: Vec::new(),
            items: Vec::new(),
        };
        assert(r@.items =~= Seq::<ItemView>::empty());
        r
    }

    /// A copy of this inventory, equal to it in every field and item.
    pub fn duplicate(&self) -> (r: Inventory)
        ensures
            r@ == self@,
    {
        Inventory {
            uuid: self.uuid,
            name: self.name.clone(),
            owner: self.owner,
            admins: copy_ids(&self.admins),
            writables: copy_ids(&self.writables),
            readables: copy_ids(&self.readables),
            items: copy_items(&self.items),
        }
    }
}

/// The view of a freshly created inventory.
pub open spec fn new_inventory_view(uuid: u128, name: Seq<char>, owner: u128) -> InventoryView {
    InventoryView {
        uuid,
        name,
        owner,
        admins: Seq::empty(),
        writables: Seq::empty(),
        readables: Seq::empty(),
        items: Seq::empty(),
    }
}

/// Copies a whole collection of inventories.
pub fn copy_inventories(v: &Vec<Inventory>) -> (r: Vec<Inventory>)
    ensures
        inventories_view(r@) == inventories_view(v@),
{
    let mut r: Vec<Inventory> = Vec::new();
    let mut i: usize = 0;
    while i < v.len()
        invariant
            i <= v.len(),
            r@.len() == i,
            forall|k: int| 0 <= k < i ==> (#[trigger] r@[k])@ == v@[k]@,
        decreases v.len() - i,
    {
        let it = v[i].duplicate();
        r.push(it);
        i = i + 1;
    }
    assert(inventories_view(r@) =~= inventories_view(v@));
    r
}

} // verus!
