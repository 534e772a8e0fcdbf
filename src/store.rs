//! The inventory store agent: sole owner and writer of the collection.
use vstd::prelude::*;

use crate::auth_state::AuthState;
use crate::messages::{
    broadcast_view, deliveries_view, error_response, DataAgentRequest, DataAgentResponse, Outcome,
    ResponseView,
};
use crate::model::{copy_ids, copy_inventories, inventories_view, opt_view, items_view, Inventory, InventoryView, Item, ItemView};
use crate::store_spec::{
    create_inventory_spec, create_item_spec, delete_inventory_spec, delete_item_spec,
    get_inventory_spec, get_item_spec, has_inv, has_item, id_used, inv_index, item_index,
    handle_spec, issued_after, reload_view, update_inventory_spec, update_item_spec, wf_inventories, StoreError,
};
use crate::subscribers::Subscribers;

verus! {

/// Whether `x` is in `v`.
pub fn contains_id(v: &Vec<u128>, x: u128) -> (r: bool)
    ensures
        r == v@.contains(x),
{
    let mut i: usize = 0;
    while i < v.len()
        invariant
            i <= v.len(),
            forall|k: int| 0 <= k < i ==> v@[k] != x,
        decreases v.len() - i,
    {
        if v[i] == x {
            return true;
        }
        i = i + 1;
    }
    false
}

/// A collection whose entries each match an entry of `s` by id, with item ids
/// that entry also has, uses no id that `s` does not use.
pub proof fn lemma_used_shrinks(s: Seq<InventoryView>, t: Seq<InventoryView>, f: spec_fn(int) -> int)
    requires
        forall|a: int| 0 <= a < t.len() ==> 0 <= #[trigger] f(a) < s.len() && t[a].uuid == s[f(a)].uuid,
        forall|a: int, j: int|
            0 <= a < t.len() && 0 <= j < t[a].items.len() ==> has_item(s[f(a)].items, (#[trigger] t[a].items[j]).uuid),
    ensures
        forall|x: u128| id_used(t, x) ==> id_used(s, x),
{
    assert forall|x: u128| id_used(t, x) implies id_used(s, x) by {
        if has_inv(t, x) {
            let a = choose|a: int| 0 <= a < t.len() && (#[trigger] t[a]).uuid == x;
            assert(s[f(a)].uuid == x);
        } else {
            let a = choose|a: int| 0 <= a < t.len() && has_item((#[trigger] t[a]).items, x);
            let j = choose|j: int| 0 <= j < t[a].items.len() && (#[trigger] t[a].items[j]).uuid == x;
            assert(has_item(s[f(a)].items, t[a].items[j].uuid));
        }
    }
}

/// Position of the inventory with id `x` in `v`.
pub fn find_inv(v: &Vec<Inventory>, x: u128) -> (r: Option<usize>)
    ensures
        match r {
            Some(i) => i < v@.len() && v@[i as int].uuid == x,
            None => !has_inv(inventories_view(v@), x),
        },
{
    let ghost s = inventories_view(v@);
    let mut i: usize = 0;
    while i < v.len()
        invariant
            i <= v.len(),
            s == inventories_view(v@),
            forall|k: int| 0 <= k < i ==> v@[k].uuid != x,
        decreases v.len() - i,
    {
        if v[i].uuid == x {
            return Some(i);
        }
        i = i + 1;
    }
    assert forall|k: int| 0 <= k < s.len() implies s[k].uuid != x by {
        assert(s[k] == v@[k]@);
    }
    None
}

/// Position of the item with id `x` in `v`.
pub fn find_item(v: &Vec<Item>, x: u128) -> (r: Option<usize>)
    ensures
        match r {
            Some(j) => j < v@.len() && v@[j as int].uuid == x,
            None => !has_item(items_view(v@), x),
        },
{
    let ghost s = items_view(v@);
    let mut j: usize = 0;
    while j < v.len()
        invariant
            j <= v.len(),
            s == items_view(v@),
            forall|k: int| 0 <= k < j ==> v@[k].uuid != x,
        decreases v.len() - j,
    {
        if v[j].uuid == x {
            return Some(j);
        }
        j = j + 1;
    }
    assert forall|k: int| 0 <= k < s.len() implies s[k].uuid != x by {
        assert(s[k] == v@[k]@);
    }
    None
}

/// Whether `x` is already the id of an inventory or an item of `v`.
pub fn id_in_use(v: &Vec<Inventory>, x: u128) -> (r: bool)
    ensures
        r == id_used(inventories_view(v@), x),
{
    let ghost s = inventories_view(v@);
    let mut i: usize = 0;
    while i < v.len()
        invariant
            i <= v.len(),
            s == inventories_view(v@),
            forall|k: int| 0 <= k < i ==> (#[trigger] s[k]).uuid != x,
            forall|k: int| 0 <= k < i ==> !has_item((#[trigger] s[k]).items, x),
        decreases v.len() - i,
    {
        assert(s[i as int] == v@[i as int]@);
        assert(s[i as int].items == items_view(v@[i as int].items@));
        if v[i].uuid == x {
            assert(has_inv(s, x));
            return true;
        }
        match find_item(&v[i].items, x) {
            Some(j) => {
                assert(s[i as int].items[j as int] == v@[i as int].items@[j as int]@);
                assert(has_item(s[i as int].items, x));
                return true;
            },
            None => {},
        }
        i = i + 1;
    }
    assert(!has_inv(s, x));
    false
}

/// In a well-formed collection the inventory found at `i` is the one
/// `inv_index` names.
pub proof fn lemma_inv_index(s: Seq<InventoryView>, i: int, x: u128)
    requires
        wf_inventories(s),
        0 <= i < s.len(),
        s[i].uuid == x,
    ensures
        has_inv(s, x),
        inv_index(s, x) == i,
{
    assert(has_inv(s, x));
}

/// In a well-formed collection the item found at `j` of inventory `i` is the
/// one `item_index` names.
pub proof fn lemma_item_index(s: Seq<InventoryView>, i: int, j: int, x: u128)
    requires
        wf_inventories(s),
        0 <= i < s.len(),
        0 <= j < s[i].items.len(),
        s[i].items[j].uuid == x,
    ensures
        has_item(s[i].items, x),
        item_index(s[i].items, x) == j,
{
    assert(has_item(s[i].items, x));
    let k = item_index(s[i].items, x);
    assert(s[i].items[k].uuid == x);
}

/// Appending an item with an unused id to the inventory it names keeps the
/// collection well formed.
pub proof fn lemma_push_item_wf(s: Seq<InventoryView>, i: int, it: ItemView)
    requires
        wf_inventories(s),
        0 <= i < s.len(),
        it.inventory_uuid == s[i].uuid,
        !id_used(s, it.uuid),
    ensures
        wf_inventories(s.update(i, InventoryView { items: s[i].items.push(it), ..s[i] })),
{
    let t = s.update(i, InventoryView { items: s[i].items.push(it), ..s[i] });
    assert forall|a: int, b: int, c: int, d: int|
        0 <= a < t.len() && 0 <= b < t[a].items.len() && 0 <= c < t.len() && 0 <= d < t[c].items.len()
            && (a != c || b != d) implies (#[trigger] t[a].items[b]).uuid != (#[trigger] t[c].items[d]).uuid by {
        if a == i && b == s[i].items.len() {
            if c != i || d != s[i].items.len() {
                assert(has_item(s[c].items, s[c].items[d].uuid));
            }
        } else if c == i && d == s[i].items.len() {
            assert(has_item(s[a].items, s[a].items[b].uuid));
        }
    }
    assert forall|a: int, c: int, d: int|
        0 <= a < t.len() && 0 <= c < t.len() && 0 <= d < t[c].items.len() implies (#[trigger] t[a]).uuid
            != (#[trigger] t[c].items[d]).uuid by {
        if c == i && d == s[i].items.len() {
            assert(s[a].uuid == t[a].uuid);
        }
    }
}

/// Removing an inventory keeps the collection well formed.
pub proof fn lemma_remove_inventory_wf(s: Seq<InventoryView>, i: int)
    requires
        wf_inventories(s),
        0 <= i < s.len(),
    ensures
        wf_inventories(s.remove(i)),
{
    let t = s.remove(i);
    assert forall|a: int| 0 <= a < t.len() implies #[trigger] t[a] == s[if a < i { a } else { a + 1 }] by {}
}

/// Removing an item keeps the collection well formed.
pub proof fn lemma_remove_item_wf(s: Seq<InventoryView>, i: int, j: int)
    requires
        wf_inventories(s),
        0 <= i < s.len(),
        0 <= j < s[i].items.len(),
    ensures
        wf_inventories(s.update(i, InventoryView { items: s[i].items.remove(j), ..s[i] })),
{
    let t = s.update(i, InventoryView { items: s[i].items.remove(j), ..s[i] });
    assert forall|a: int, b: int| 0 <= a < t.len() && 0 <= b < t[a].items.len() implies #[trigger] t[a].items[b]
        == s[a].items[if a == i && b >= j { b + 1 } else { b }] by {}
    assert forall|a: int| 0 <= a < t.len() implies (#[trigger] t[a]).uuid == s[a].uuid by {}
    assert forall|a: int, b: int, c: int, d: int|
        0 <= a < t.len() && 0 <= b < t[a].items.len() && 0 <= c < t.len() && 0 <= d < t[c].items.len()
            && (a != c || b != d) implies (#[trigger] t[a].items[b]).uuid != (#[trigger] t[c].items[d]).uuid by {
        let b2 = if a == i && b >= j { b + 1 } else { b };
        let d2 = if c == i && d >= j { d + 1 } else { d };
        assert(t[a].items[b] == s[a].items[b2]);
        assert(t[c].items[d] == s[c].items[d2]);
    }
    assert forall|a: int, c: int, d: int|
        0 <= a < t.len() && 0 <= c < t.len() && 0 <= d < t[c].items.len() implies (#[trigger] t[a]).uuid
            != (#[trigger] t[c].items[d]).uuid by {
        let d2 = if c == i && d >= j { d + 1 } else { d };
        assert(t[c].items[d] == s[c].items[d2]);
    }
}

/// Rebuilds a collection read back from storage. Succeeds exactly when the
/// stored collection is well formed, and then reproduces it.
pub fn restore_inventories(stored: &Vec<Inventory>) -> (r: Option<Vec<Inventory>>)
    ensures
        r.is_some() == wf_inventories(inventories_view(stored@)),
        r matches Some(v) ==> inventories_view(v@) == inventories_view(stored@),
{
    let ghost sv = inventories_view(stored@);
    let mut acc: Vec<Inventory> = Vec::new();
    let mut k: usize = 0;
    while k < stored.len()
        invariant
            k <= stored.len(),
            sv == inventories_view(stored@),
            inventories_view(acc@) == sv.take(k as int),
            wf_inventories(sv.take(k as int)),
        decreases stored.len() - k,
    {
        let ghost pre = sv.take(k as int);
        let src = &stored[k];
        assert(sv[k as int] == src@);
        let x = src.uuid;
        if id_in_use(&acc, x) {
            proof {
                lemma_used_in_prefix(sv, k as int, x);
            }
            return None;
        }
        let mut items: Vec<Item> = Vec::new();
        let mut j: usize = 0;
        while j < src.items.len()
            invariant
                j <= src.items.len(),
                k < stored.len(),
                src == &stored@[k as int],
                sv == inventories_view(stored@),
                sv[k as int] == src@,
                inventories_view(acc@) == pre,
                pre == sv.take(k as int),
                wf_inventories(pre),
                !id_used(pre, x),
                x == src.uuid,
                items_view(items@) == sv[k as int].items.take(j as int),
                forall|b: int| 0 <= b < j ==> (#[trigger] sv[k as int].items[b]).inventory_uuid == x,
                forall|b: int| 0 <= b < j ==> (#[trigger] sv[k as int].items[b]).uuid != x,
                forall|b: int| 0 <= b < j ==> !id_used(pre, (#[trigger] sv[k as int].items[b]).uuid),
                forall|b: int, d: int|
                    0 <= b < j && 0 <= d < j && b != d ==> (#[trigger] sv[k as int].items[b]).uuid
                        != (#[trigger] sv[k as int].items[d]).uuid,
            decreases src.items.len() - j,
        {
            let it = &src.items[j];
            assert(sv[k as int].items[j as int] == it@);
            let y = it.uuid;
            if it.inventory_uuid != x || y == x {
                return None;
            }
            if id_in_use(&acc, y) {
                proof {
                    lemma_item_used_in_prefix(sv, k as int, j as int);
                }
                return None;
            }
            match find_item(&items, y) {
                Some(d) => {
                    proof {
                        assert(items_view(items@)[d as int] == items@[d as int]@);
                        assert(items_view(items@).len() == j);
                        assert(sv[k as int].items.take(j as int)[d as int] == sv[k as int].items[d as int]);
                        assert(sv[k as int].items[d as int].uuid == y);
                        assert(sv[k as int].items[j as int].uuid == y);
                    }
                    return None;
                },
                None => {},
            }
            proof {
                assert forall|d: int| 0 <= d < j implies sv[k as int].items[d].uuid != y by {
                    assert(items_view(items@)[d] == sv[k as int].items[d]);
                    assert(items_view(items@)[d] == items@[d]@);
                }
            }
            items.push(it.duplicate());
            j = j + 1;
            proof {
                assert(items_view(items@) =~= sv[k as int].items.take(j as int));
            }
        }
        let inv = Inventory {
            uuid: x,
            name: src.name.clone(),
            owner: src.owner,
            admins: copy_ids(&src.admins),
            writables: copy_ids(&src.writables),
            readables: copy_ids(&src.readables),
            items,
        };
        proof {
            assert(sv[k as int].items.take(j as int) =~= sv[k as int].items);
            assert(inv@ == sv[k as int]);
        }
        acc.push(inv);
        k = k + 1;
        proof {
            assert(sv.take(k as int) =~= pre.push(sv[k - 1]));
            assert(inventories_view(acc@) =~= sv.take(k as int));
            lemma_push_inventory_wf(pre, sv[k - 1]);
        }
    }
    assert(sv.take(k as int) =~= sv);
    Some(acc)
}

/// An inventory whose id and item ids are fresh and whose items name it keeps
/// the collection well formed when appended.
pub proof fn lemma_push_inventory_wf(s: Seq<InventoryView>, v: InventoryView)
    requires
        wf_inventories(s),
        !id_used(s, v.uuid),
        forall|b: int| 0 <= b < v.items.len() ==> (#[trigger] v.items[b]).inventory_uuid == v.uuid,
        forall|b: int| 0 <= b < v.items.len() ==> (#[trigger] v.items[b]).uuid != v.uuid,
        forall|b: int| 0 <= b < v.items.len() ==> !id_used(s, (#[trigger] v.items[b]).uuid),
        forall|b: int, d: int|
            0 <= b < v.items.len() && 0 <= d < v.items.len() && b != d ==> (#[trigger] v.items[b]).uuid
                != (#[trigger] v.items[d]).uuid,
    ensures
        wf_inventories(s.push(v)),
{
    let t = s.push(v);
    let n = s.len() as int;
    assert forall|a: int, c: int| 0 <= a < t.len() && 0 <= c < t.len() && a != c implies (#[trigger] t[a]).uuid
        != (#[trigger] t[c]).uuid by {
        if a == n {
            assert(s[c] == t[c]);
        } else if c == n {
            assert(s[a] == t[a]);
        }
    }
    assert forall|a: int, b: int, c: int, d: int|
        0 <= a < t.len() && 0 <= b < t[a].items.len() && 0 <= c < t.len() && 0 <= d < t[c].items.len()
            && (a != c || b != d) implies (#[trigger] t[a].items[b]).uuid != (#[trigger] t[c].items[d]).uuid by {
        if a == n && c != n {
            assert(has_item(s[c].items, s[c].items[d].uuid));
        } else if c == n && a != n {
            assert(has_item(s[a].items, s[a].items[b].uuid));
        }
    }
    assert forall|a: int, c: int, d: int|
        0 <= a < t.len() && 0 <= c < t.len() && 0 <= d < t[c].items.len() implies (#[trigger] t[a]).uuid
            != (#[trigger] t[c].items[d]).uuid by {
        if a == n && c != n {
            assert(has_item(s[c].items, s[c].items[d].uuid));
        } else if c == n && a != n {
            assert(has_inv(s, s[a].uuid));
        }
    }
}

/// An inventory id already used by an earlier entry breaks well-formedness.
pub proof fn lemma_used_in_prefix(sv: Seq<InventoryView>, k: int, x: u128)
    requires
        0 <= k < sv.len(),
        sv[k].uuid == x,
        id_used(sv.take(k), x),
    ensures
        !wf_inventories(sv),
{
    let pre = sv.take(k);
    if has_inv(pre, x) {
        let i = choose|i: int| 0 <= i < pre.len() && (#[trigger] pre[i]).uuid == x;
        assert(sv[i].uuid == sv[k].uuid);
    } else {
        let i = choose|i: int| 0 <= i < pre.len() && has_item((#[trigger] pre[i]).items, x);
        let j = choose|j: int| 0 <= j < pre[i].items.len() && (#[trigger] pre[i].items[j]).uuid == x;
        assert(sv[i].items[j].uuid == sv[k].uuid);
    }
}

/// An item id already used by an earlier entry breaks well-formedness.
pub proof fn lemma_item_used_in_prefix(sv: Seq<InventoryView>, k: int, j: int)
    requires
        0 <= k < sv.len(),
        0 <= j < sv[k].items.len(),
        id_used(sv.take(k), sv[k].items[j].uuid),
    ensures
        !wf_inventories(sv),
{
    let pre = sv.take(k);
    let x = sv[k].items[j].uuid;
    if has_inv(pre, x) {
        let i = choose|i: int| 0 <= i < pre.len() && (#[trigger] pre[i]).uuid == x;
        assert(sv[i].uuid == sv[k].items[j].uuid);
    } else {
        let i = choose|i: int| 0 <= i < pre.len() && has_item((#[trigger] pre[i]).items, x);
        let l = choose|l: int| 0 <= l < pre[i].items.len() && (#[trigger] pre[i].items[l]).uuid == x;
        assert(sv[i].items[l].uuid == sv[k].items[j].uuid);
    }
}

/// Messages the store receives from the session agent.
#[derive(Debug, Clone, PartialEq, Eq)]
pub enum Msg {
    NewAuthState(AuthState),
}

/// The inventory store: the collection, the latest session state, and the
/// attached consumers.
pub struct DataAgent {
    inventories: Vec<Inventory>,
    issued: Vec<u128>,
    auth_state: AuthState,
    subscribers: Subscribers,
}

impl View for DataAgent {
    type V = Seq<InventoryView>;

    closed spec fn view(&self) -> Seq<InventoryView> {
        inventories_view(self.inventories@)
    }
}

impl DataAgent {
    /// Ids are unique, items name their parent, every id in use is on record
    /// as handed out; the subscriber list is sound.
    pub closed spec fn wf(&self) -> bool {
        &&& wf_inventories(self@)
        &&& forall|x: u128| id_used(self@, x) ==> self.issued@.contains(x)
        &&& self.subscribers.wf()
    }

    /// What a well-formed store guarantees of its collection.
    pub proof fn lemma_wf(&self)
        requires
            self.wf(),
        ensures
            wf_inventories(self@),
            forall|x: u128| id_used(self@, x) ==> self.issued_view().contains(x),
    {
    }

    /// Every id the store has handed out or found in use.
    pub closed spec fn issued_view(&self) -> Seq<u128> {
        self.issued@
    }

    /// The session state the store was last told of.
    pub closed spec fn auth_view(&self) -> AuthState {
        self.auth_state
    }

    /// The id of the user the store acts for, if one is logged in.
    pub closed spec fn user(&self) -> Option<u128> {
        self.auth_state.user_id()
    }

    /// The attached consumers, oldest first.
    pub closed spec fn subscribers_view(&self) -> Seq<u64> {
        self.subscribers@
    }

    /// The inventory with id `uuid`, if any.
    pub fn get_inventory(&self, uuid: u128) -> (r: Option<&Inventory>)
        requires
            self.wf(),
        ensures
            match r {
                Some(inv) => get_inventory_spec(self@, uuid) == Some(inv@),
                None => get_inventory_spec(self@, uuid) == None::<InventoryView>,
            },
    {
        match find_inv(&self.inventories, uuid) {
            Some(i) => {
                proof {
                    assert(self@[i as int] == self.inventories@[i as int]@);
                }
                Some(&self.inventories[i])
            },
            None => None,
        }
    }

    /// Creates an inventory named `name` with id `fresh`, owned by the
    /// logged-in user.
    pub fn create_inventory_with_uuid(&mut self, name: String, fresh: u128) -> (r: Result<
        u128,
        StoreError,
    >)
        requires
            old(self).wf(),
        ensures
            final(self).wf(),
            (final(self)@, r) == create_inventory_spec(
                old(self)@,
                old(self).issued_view(),
                name@,
                old(self).user(),
                fresh,
            ),
            final(self).issued_view() == if r is Ok {
                old(self).issued_view().push(fresh)
            } else {
                old(self).issued_view()
            },
            final(self).auth_view() == old(self).auth_view(),
            final(self).user() == old(self).user(),
            final(self).subscribers_view() == old(self).subscribers_view(),
    {
        let user = match self.auth_state.logged_in_user() {
            Some(u) => u,
            None => {
                return Err(StoreError::NotAuthenticated);
            },
        };
        if id_in_use(&self.inventories, fresh) || contains_id(&self.issued, fresh) {
            return Err(StoreError::UuidTaken);
        }
        let inv = Inventory::new(fresh, name, user);
        let ghost s = self@;
        let ghost iss = self.issued@;
        self.inventories.push(inv);
        self.issued.push(fresh);
        proof {
            assert(self@ =~= s.push(inv@));
            assert(self@[s.len() as int] == inv@);
            assert forall|x: u128| id_used(self@, x) implies self.issued@.contains(x) by {
                if x != fresh {
                    lemma_used_shrinks(s, self@.take(s.len() as int), |a: int| a);
                    if has_inv(self@, x) {
                        let a = choose|a: int| 0 <= a < self@.len() && (#[trigger] self@[a]).uuid == x;
                        assert(self@.take(s.len() as int)[a] == self@[a]);
                        assert(id_used(self@.take(s.len() as int), x));
                    } else {
                        let a = choose|a: int| 0 <= a < self@.len() && has_item((#[trigger] self@[a]).items, x);
                        assert(a < s.len());
                        assert(self@.take(s.len() as int)[a] == self@[a]);
                        assert(id_used(self@.take(s.len() as int), x));
                    }
                    assert(self@.take(s.len() as int) =~= s);
                    assert(iss.contains(x));
                    let k = choose|k: int| 0 <= k < iss.len() && iss[k] == x;
                    assert(self.issued@[k] == x);
                } else {
                    assert(self.issued@[iss.len() as int] == fresh);
                }
            }
        }
        Ok(fresh)
    }

    /// The item `item` of the inventory `inv`, if both exist.
    pub fn get_item(&self, inv: u128, item: u128) -> (r: Option<&Item>)
        requires
            self.wf(),
        ensures
            match r {
                Some(it) => get_item_spec(self@, inv, item) == Some(it@),
                None => get_item_spec(self@, inv, item) == None::<ItemView>,
            },
    {
        match find_inv(&self.inventories, inv) {
            Some(i) => {
                proof {
                    assert(self@[i as int] == self.inventories@[i as int]@);
                    lemma_inv_index(self@, i as int, inv);
                }
                match find_item(&self.inventories[i].items, item) {
                    Some(j) => {
                        proof {
                            assert(self@[i as int].items[j as int]
                                == self.inventories@[i as int].items@[j as int]@);
                            lemma_item_index(self@, i as int, j as int, item);
                        }
                        Some(&self.inventories[i].items[j])
                    },
                    None => None,
                }
            },
            None => None,
        }
    }

    /// Appends an item with id `fresh` to the inventory `inv`.
    pub fn create_item_with_uuid(
        &mut self,
        inv: u128,
        name: String,
        ean: Option<String>,
        fresh: u128,
    ) -> (r: Result<u128, StoreError>)
        requires
            old(self).wf(),
        ensures
            final(self).wf(),
            (final(self)@, r) == create_item_spec(
                old(self)@,
                old(self).issued_view(),
                inv,
                name@,
                opt_view(ean),
                fresh,
            ),
            final(self).issued_view() == if r is Ok {
                old(self).issued_view().push(fresh)
            } else {
                old(self).issued_view()
            },
            final(self).auth_view() == old(self).auth_view(),
            final(self).user() == old(self).user(),
            final(self).subscribers_view() == old(self).subscribers_view(),
    {
        let i = match find_inv(&self.inventories, inv) {
            Some(i) => i,
            None => {
                return Err(StoreError::InvalidInventoryUuid);
            },
        };
        proof {
            assert(self@[i as int] == self.inventories@[i as int]@);
            lemma_inv_index(self@, i as int, inv);
        }
        if id_in_use(&self.inventories, fresh) || contains_id(&self.issued, fresh) {
            return Err(StoreError::UuidTaken);
        }
        let ghost s = self@;
        let ghost iss = self.issued@;
        let item = Item::new(fresh, inv, name, ean);
        self.inventories[i].items.push(item);
        self.issued.push(fresh);
        proof {
            let n = s[i as int].items.len() as int;
            assert forall|x: u128| id_used(self@, x) implies self.issued@.contains(x) by {
                if x != fresh {
                    if has_inv(self@, x) {
                        let a = choose|a: int| 0 <= a < self@.len() && (#[trigger] self@[a]).uuid == x;
                        assert(s[a].uuid == x);
                        assert(has_inv(s, x));
                    } else {
                        let a = choose|a: int| 0 <= a < self@.len() && has_item((#[trigger] self@[a]).items, x);
                        let j = choose|j: int| 0 <= j < self@[a].items.len() && (#[trigger] self@[a].items[j]).uuid == x;
                        if a == i {
                            assert(self@[a].items[j] == self.inventories@[a].items@[j]@);
                            if j < n {
                                assert(s[a].items[j].uuid == x);
                            } else {
                                assert(self.inventories@[a].items@[j] == item);
                            }
                        } else {
                            assert(s[a] == self@[a]);
                        }
                        assert(has_item(s[a].items, x));
                    }
                    assert(id_used(s, x));
                    let k = choose|k: int| 0 <= k < iss.len() && iss[k] == x;
                    assert(self.issued@[k] == x);
                } else {
                    assert(self.issued@[iss.len() as int] == fresh);
                }
            }
            let it = ItemView { uuid: fresh, inventory_uuid: inv, name: name@, ean: opt_view(ean) };
            let t = s.update(i as int, InventoryView { items: s[i as int].items.push(it), ..s[i as int] });
            assert(self@[i as int].items =~= t[i as int].items);
            assert(self@ =~= t);
            lemma_push_item_wf(s, i as int, it);
        }
        Ok(fresh)
    }

    /// Replaces the name, owner and access lists of the inventory `target`.
    pub fn update_inventory(
        &mut self,
        target: u128,
        name: String,
        owner: u128,
        admins: Vec<u128>,
        writables: Vec<u128>,
        readables: Vec<u128>,
    ) -> (r: Result<(), StoreError>)
        requires
            old(self).wf(),
        ensures
            final(self).wf(),
            (final(self)@, r) == update_inventory_spec(
                old(self)@,
                target,
                name@,
                owner,
                admins@,
                writables@,
                readables@,
            ),
            final(self).user() == old(self).user(),
            final(self).subscribers_view() == old(self).subscribers_view(),
            final(self).issued_view() == old(self).issued_view(),
            final(self).auth_view() == old(self).auth_view(),
    {
        let i = match find_inv(&self.inventories, target) {
            Some(i) => i,
            None => {
                return Err(StoreError::InvalidInventoryUuid);
            },
        };
        let ghost s = self@;
        proof {
            assert(s[i as int] == self.inventories@[i as int]@);
            lemma_inv_index(s, i as int, target);
        }
        self.inventories[i].name = name;
        self.inventories[i].owner = owner;
        self.inventories[i].admins = admins;
        self.inventories[i].writables = writables;
        self.inventories[i].readables = readables;
        proof {
            let t = s.update(
                i as int,
                InventoryView {
                    name: name@,
                    owner,
                    admins: admins@,
                    writables: writables@,
                    readables: readables@,
                    ..s[i as int]
                },
            );
            assert(self@ =~= t);
            lemma_used_shrinks(s, self@, |a: int| a);
        }
        Ok(())
    }

    /// Removes the inventory `target`, with its items.
    pub fn delete_inventory(&mut self, target: u128) -> (r: Result<(), StoreError>)
        requires
            old(self).wf(),
        ensures
            final(self).wf(),
            (final(self)@, r) == delete_inventory_spec(old(self)@, target),
            final(self).user() == old(self).user(),
            final(self).subscribers_view() == old(self).subscribers_view(),
            final(self).issued_view() == old(self).issued_view(),
            final(self).auth_view() == old(self).auth_view(),
    {
        let i = match find_inv(&self.inventories, target) {
            Some(i) => i,
            None => {
                return Err(StoreError::InvalidInventoryUuid);
            },
        };
        let ghost s = self@;
        proof {
            assert(s[i as int] == self.inventories@[i as int]@);
            lemma_inv_index(s, i as int, target);
        }
        self.inventories.remove(i);
        proof {
            assert(self@ =~= s.remove(i as int));
            lemma_remove_inventory_wf(s, i as int);
            let f = |a: int| if a < i { a } else { a + 1 };
            assert forall|a: int, j: int|
                0 <= a < self@.len() && 0 <= j < self@[a].items.len() implies has_item(
                    s[f(a)].items,
                    (#[trigger] self@[a].items[j]).uuid,
                ) by {
                assert(self@[a] == s[f(a)]);
                assert(s[f(a)].items[j] == self@[a].items[j]);
            }
            lemma_used_shrinks(s, self@, f);
        }
        Ok(())
    }

    /// Replaces the name and EAN of the item `item` of inventory `inv`.
    pub fn update_item(
        &mut self,
        inv: u128,
        item: u128,
        name: String,
        ean: Option<String>,
    ) -> (r: Result<(), StoreError>)
        requires
            old(self).wf(),
        ensures
            final(self).wf(),
            (final(self)@, r) == update_item_spec(old(self)@, inv, item, name@, opt_view(ean)),
            final(self).user() == old(self).user(),
            final(self).subscribers_view() == old(self).subscribers_view(),
            final(self).issued_view() == old(self).issued_view(),
            final(self).auth_view() == old(self).auth_view(),
    {
        let i = match find_inv(&self.inventories, inv) {
            Some(i) => i,
            None => {
                return Err(StoreError::InvalidInventoryUuid);
            },
        };
        let ghost s = self@;
        proof {
            assert(s[i as int] == self.inventories@[i as int]@);
            lemma_inv_index(s, i as int, inv);
        }
        let j = match find_item(&self.inventories[i].items, item) {
            Some(j) => j,
            None => {
                return Err(StoreError::InvalidItemUuid);
            },
        };
        proof {
            assert(s[i as int].items[j as int] == self.inventories@[i as int].items@[j as int]@);
            lemma_item_index(s, i as int, j as int, item);
        }
        self.inventories[i].items[j].name = name;
        self.inventories[i].items[j].ean = ean;
        proof {
            let it = ItemView { name: name@, ean: opt_view(ean), ..s[i as int].items[j as int] };
            let t = s.update(
                i as int,
                InventoryView { items: s[i as int].items.update(j as int, it), ..s[i as int] },
            );
            assert(self@[i as int].items =~= t[i as int].items);
            assert(self@ =~= t);
            assert forall|a: int, b: int|
                0 <= a < self@.len() && 0 <= b < self@[a].items.len() implies has_item(
                    s[a].items,
                    (#[trigger] self@[a].items[b]).uuid,
                ) by {
                assert(self@[a].items[b].uuid == s[a].items[b].uuid);
            }
            lemma_used_shrinks(s, self@, |a: int| a);
        }
        Ok(())
    }

    /// Removes the item `item` from inventory `inv`.
    pub fn delete_item(&mut self, inv: u128, item: u128) -> (r: Result<(), StoreError>)
        requires
            old(self).wf(),
        ensures
            final(self).wf(),
            (final(self)@, r) == delete_item_spec(old(self)@, inv, item),
            final(self).user() == old(self).user(),
            final(self).subscribers_view() == old(self).subscribers_view(),
            final(self).issued_view() == old(self).issued_view(),
            final(self).auth_view() == old(self).auth_view(),
    {
        let i = match find_inv(&self.inventories, inv) {
            Some(i) => i,
            None => {
                return Err(StoreError::InvalidInventoryUuid);
            },
        };
        let ghost s = self@;
        proof {
            assert(s[i as int] == self.inventories@[i as int]@);
            lemma_inv_index(s, i as int, inv);
        }
        let j = match find_item(&self.inventories[i].items, item) {
            Some(j) => j,
            None => {
                return Err(StoreError::InvalidItemUuid);
            },
        };
        proof {
            assert(s[i as int].items[j as int] == self.inventories@[i as int].items@[j as int]@);
            lemma_item_index(s, i as int, j as int, item);
        }
        self.inventories[i].items.remove(j);
        proof {
            let t = s.update(
                i as int,
                InventoryView { items: s[i as int].items.remove(j as int), ..s[i as int] },
            );
            assert(self@[i as int].items =~= t[i as int].items);
            assert(self@ =~= t);
            lemma_remove_item_wf(s, i as int, j as int);
            assert forall|a: int, b: int|
                0 <= a < self@.len() && 0 <= b < self@[a].items.len() implies has_item(
                    s[a].items,
                    (#[trigger] self@[a].items[b]).uuid,
                ) by {
                let b2 = if a == i && b >= j { b + 1 } else { b };
                assert(self@[a].items[b] == s[a].items[b2]);
            }
            lemma_used_shrinks(s, self@, |a: int| a);
        }
        Ok(())
    }

    /// Empties the collection.
    pub fn delete_all_data(&mut self)
        requires
            old(self).wf(),
        ensures
            final(self).wf(),
            final(self)@ == Seq::<InventoryView>::empty(),
            final(self).user() == old(self).user(),
            final(self).subscribers_view() == old(self).subscribers_view(),
            final(self).issued_view() == old(self).issued_view(),
            final(self).auth_view() == old(self).auth_view(),
    {
        self.inventories = Vec::new();
        assert(self@ =~= Seq::<InventoryView>::empty());
    }

    /// A store holding the collection read back from storage, if there was one
    /// and it is well formed, else an empty one; on record as handed out are
    /// `issued` (read back from storage too) and every id of that collection.
    /// Nobody is logged in and nobody subscribed.
    pub fn create(stored: Option<Vec<Inventory>>, issued: Vec<u128>) -> (r: DataAgent)
        ensures
            r.wf(),
            r@ == reload_view(
                match stored {
                    Some(v) => Some(inventories_view(v@)),
                    None => None,
                },
            ),
            r.issued_view().take(issued@.len() as int) == issued@,
            forall|k: int|
                issued@.len() <= k < r.issued_view().len() ==> id_used(r@, #[trigger] r.issued_view()[k]),
            forall|x: u128| id_used(r@, x) ==> r.issued_view().contains(x),
            r.auth_view() == AuthState::Initial,
            r.user() == None::<u128>,
            r.subscribers_view() == Seq::<u64>::empty(),
    {
        let inventories = match stored {
            Some(v) => match restore_inventories(&v) {
                Some(w) => w,
                None => Vec::new(),
            },
            None => Vec::new(),
        };
        let ghost sv = inventories_view(inventories@);
        let ghost given = issued@;
        let mut issued = issued;
        let mut i: usize = 0;
        while i < inventories.len()
            invariant
                i <= inventories.len(),
                sv == inventories_view(inventories@),
                issued@.take(given.len() as int) == given,
                issued@.len() >= given.len(),
                forall|k: int| given.len() <= k < issued@.len() ==> id_used(sv, #[trigger] issued@[k]),
                forall|a: int| 0 <= a < i ==> issued@.contains((#[trigger] sv[a]).uuid),
                forall|a: int, b: int|
                    0 <= a < i && 0 <= b < sv[a].items.len() ==> issued@.contains(
                        (#[trigger] sv[a].items[b]).uuid,
                    ),
            decreases inventories.len() - i,
        {
            assert(sv[i as int] == inventories@[i as int]@);
            let ghost before = issued@;
            issued.push(inventories[i].uuid);
            proof {
                assert(issued@[before.len() as int] == sv[i as int].uuid);
                assert(has_inv(sv, sv[i as int].uuid));
                assert forall|k: int| 0 <= k < before.len() implies issued@[k] == before[k] by {}
                assert(issued@.take(given.len() as int) =~= given) by {
                    assert forall|k: int| 0 <= k < given.len() implies issued@[k] == given[k] by {
                        assert(before.take(given.len() as int)[k] == given[k]);
                    }
                }
                assert forall|k: int| given.len() <= k < issued@.len() implies id_used(sv, #[trigger] issued@[k]) by {
                    if k < before.len() {
                        assert(issued@[k] == before[k]);
                    }
                }
                assert forall|a: int| 0 <= a <= i implies issued@.contains((#[trigger] sv[a]).uuid) by {
                    if a < i {
                        let k = choose|k: int| 0 <= k < before.len() && before[k] == sv[a].uuid;
                        assert(issued@[k] == sv[a].uuid);
                    } else {
                        assert(issued@[before.len() as int] == sv[a].uuid);
                    }
                }
                assert forall|a: int, b: int|
                    0 <= a < i && 0 <= b < sv[a].items.len() implies issued@.contains(
                        (#[trigger] sv[a].items[b]).uuid,
                    ) by {
                    let k = choose|k: int| 0 <= k < before.len() && before[k] == sv[a].items[b].uuid;
                    assert(issued@[k] == before[k]);
                }
            }
            let mut j: usize = 0;
            while j < inventories[i].items.len()
                invariant
                    i < inventories.len(),
                    j <= inventories@[i as int].items.len(),
                    sv == inventories_view(inventories@),
                    sv[i as int] == inventories@[i as int]@,
                    issued@.take(given.len() as int) == given,
                    issued@.len() >= given.len(),
                    forall|k: int| given.len() <= k < issued@.len() ==> id_used(sv, #[trigger] issued@[k]),
                    forall|a: int| 0 <= a <= i ==> issued@.contains((#[trigger] sv[a]).uuid),
                    forall|a: int, b: int|
                        0 <= a < i && 0 <= b < sv[a].items.len() ==> issued@.contains(
                            (#[trigger] sv[a].items[b]).uuid,
                        ),
                    forall|b: int|
                        0 <= b < j ==> issued@.contains((#[trigger] sv[i as int].items[b]).uuid),
                decreases inventories@[i as int].items.len() - j,
            {
                let x = inventories[i].items[j].uuid;
                let ghost before = issued@;
                proof {
                    assert(sv[i as int].items[j as int] == inventories@[i as int].items@[j as int]@);
                    assert(has_item(sv[i as int].items, x));
                }
                issued.push(x);
                proof {
                    assert forall|k: int| 0 <= k < before.len() implies issued@[k] == before[k] by {}
                    assert(issued@.take(given.len() as int) =~= given) by {
                        assert forall|k: int| 0 <= k < given.len() implies issued@[k] == given[k] by {
                            assert(before.take(given.len() as int)[k] == given[k]);
                        }
                    }
                    assert forall|k: int| given.len() <= k < issued@.len() implies id_used(sv, #[trigger] issued@[k]) by {
                        if k < before.len() {
                            assert(issued@[k] == before[k]);
                        }
                    }
                    assert forall|a: int| 0 <= a <= i implies issued@.contains((#[trigger] sv[a]).uuid) by {
                        let k = choose|k: int| 0 <= k < before.len() && before[k] == sv[a].uuid;
                        assert(issued@[k] == sv[a].uuid);
                    }
                    assert forall|a: int, b: int|
                        0 <= a < i && 0 <= b < sv[a].items.len() implies issued@.contains(
                            (#[trigger] sv[a].items[b]).uuid,
                        ) by {
                        let k = choose|k: int| 0 <= k < before.len() && before[k] == sv[a].items[b].uuid;
                        assert(issued@[k] == before[k]);
                    }
                    assert forall|b: int| 0 <= b <= j implies issued@.contains(
                        (#[trigger] sv[i as int].items[b]).uuid,
                    ) by {
                        if b < j {
                            let k = choose|k: int| 0 <= k < before.len() && before[k] == sv[i as int].items[b].uuid;
                            assert(issued@[k] == before[k]);
                        } else {
                            assert(issued@[before.len() as int] == x);
                        }
                    }
                }
                j = j + 1;
            }
            i = i + 1;
        }
        let r = DataAgent {
            inventories,
            issued,
            auth_state: AuthState::Initial,
            subscribers: Subscribers::new(),
        };
        proof {
            assert forall|x: u128| id_used(r@, x) implies r.issued@.contains(x) by {
                if has_inv(sv, x) {
                    let a = choose|a: int| 0 <= a < sv.len() && (#[trigger] sv[a]).uuid == x;
                } else {
                    let a = choose|a: int| 0 <= a < sv.len() && has_item((#[trigger] sv[a]).items, x);
                    let b = choose|b: int| 0 <= b < sv[a].items.len() && (#[trigger] sv[a].items[b]).uuid == x;
                }
            }
        }
        assert(r@ =~= reload_view(
            match stored {
                Some(v) => Some(inventories_view(v@)),
                None => None,
            },
        ));
        r
    }

    /// The ids on record as handed out: stored beside the collection so that
    /// none is handed out again after a reload.
    pub fn persist_issued(&self) -> (r: Vec<u128>)
        ensures
            r@ == self.issued_view(),
    {
        copy_ids(&self.issued)
    }

    /// A copy of the whole collection: what is written to durable storage.
    pub fn persist_data(&self) -> (r: Vec<Inventory>)
        requires
            self.wf(),
        ensures
            inventories_view(r@) == self@,
            wf_inventories(inventories_view(r@)),
    {
        copy_inventories(&self.inventories)
    }

    /// Read-only access to the collection.
    pub fn inventories(&self) -> (r: &Vec<Inventory>)
        ensures
            inventories_view(r@) == self@,
    {
        &self.inventories
    }

    /// The latest session state the store has been told of.
    pub fn auth_state(&self) -> (r: &AuthState)
        ensures
            *r == self.auth_view(),
            r.user_id() == self.user(),
    {
        &self.auth_state
    }

    /// Records the session agent's latest state.
    pub fn update(&mut self, msg: Msg)
        requires
            old(self).wf(),
        ensures
            final(self).wf(),
            final(self)@ == old(self)@,
            final(self).issued_view() == old(self).issued_view(),
            final(self).subscribers_view() == old(self).subscribers_view(),
            match msg {
                Msg::NewAuthState(a) => final(self).auth_view() == a && final(self).user()
                    == a.user_id(),
            },
    {
        match msg {
            Msg::NewAuthState(a) => self.auth_state = a,
        }
    }

    /// Attaches consumer `id` to the broadcasts.
    pub fn connected(&mut self, id: u64)
        requires
            old(self).wf(),
        ensures
            final(self).wf(),
            final(self)@ == old(self)@,
            final(self).user() == old(self).user(),
            final(self).subscribers_view() == if old(self).subscribers_view().contains(id) {
                old(self).subscribers_view()
            } else {
                old(self).subscribers_view().push(id)
            },
            final(self).issued_view() == old(self).issued_view(),
            final(self).auth_view() == old(self).auth_view(),
    {
        self.subscribers.subscribe(id);
    }

    /// Detaches consumer `id` from the broadcasts.
    pub fn disconnected(&mut self, id: u64)
        requires
            old(self).wf(),
        ensures
            final(self).wf(),
            final(self)@ == old(self)@,
            final(self).user() == old(self).user(),
            !final(self).subscribers_view().contains(id),
            old(self).subscribers_view().contains(id) ==> exists|i: int|
                0 <= i < old(self).subscribers_view().len() && old(self).subscribers_view()[i] == id
                    && final(self).subscribers_view() == old(self).subscribers_view().remove(i),
            !old(self).subscribers_view().contains(id) ==> final(self).subscribers_view()
                == old(self).subscribers_view(),
            final(self).issued_view() == old(self).issued_view(),
            final(self).auth_view() == old(self).auth_view(),
    {
        self.subscribers.unsubscribe(id);
    }

    /// Appends the current collection, sent to each subscriber, to `replies`.
    fn broadcast(&self, replies: &mut Vec<(u64, DataAgentResponse)>)
        ensures
            deliveries_view(final(replies)@) == deliveries_view(old(replies)@) + broadcast_view(
                self.subscribers_view(),
                self@,
            ),
    {
        let subs = self.subscribers.recipients();
        let ghost start = deliveries_view(replies@);
        assert(start.len() == replies@.len());
        let mut i: usize = 0;
        while i < subs.len()
            invariant
                i <= subs.len(),
                subs@ == self.subscribers_view(),
                replies@.len() == start.len() + i,
                forall|k: int| 0 <= k < start.len() ==> (#[trigger] deliveries_view(replies@)[k]) == start[k],
                forall|k: int|
                    0 <= k < i ==> (#[trigger] deliveries_view(replies@)[start.len() + k]) == (
                        subs@[k],
                        ResponseView::Inventories(self@),
                    ),
            decreases subs.len() - i,
        {
            let list = copy_inventories(&self.inventories);
            let ghost before = replies@;
            replies.push((subs[i], DataAgentResponse::Inventories(list)));
            proof {
                assert forall|k: int| 0 <= k < start.len() implies (#[trigger] deliveries_view(replies@)[k]) == start[k] by {
                    assert(replies@[k] == before[k]);
                    assert(deliveries_view(before)[k] == start[k]);
                    assert(deliveries_view(replies@)[k] == (replies@[k].0, replies@[k].1@));
                    assert(deliveries_view(before)[k] == (before[k].0, before[k].1@));
                }
                assert forall|k: int| 0 <= k < i + 1 implies (#[trigger] deliveries_view(replies@)[start.len() + k]) == (
                        subs@[k],
                        ResponseView::Inventories(self@),
                    ) by {
                    let n = start.len() + k;
                    assert(deliveries_view(replies@)[n] == (replies@[n].0, replies@[n].1@));
                    if k < i {
                        assert(replies@[n] == before[n]);
                        assert(deliveries_view(before)[n] == (before[n].0, before[n].1@));
                    } else {
                        assert(replies@[n] == (subs@[i as int], DataAgentResponse::Inventories(list)));
                    }
                }
            }
            i = i + 1;
        }
        assert forall|k: int| 0 <= k < replies@.len() implies deliveries_view(replies@)[k] == (start + broadcast_view(self.subscribers_view(), self@))[k] by {
            if k >= start.len() {
                assert(deliveries_view(replies@)[start.len() + (k - start.len())] == (subs@[k - start.len()], ResponseView::Inventories(self@)));
            }
        }
        assert(deliveries_view(replies@) =~= start + broadcast_view(self.subscribers_view(), self@));
    }

    /// The outcome of a mutation that returned `ok`: persist and broadcast on
    /// success, after the direct reply.
    fn finish(&self, ok: bool, id: u64, reply: DataAgentResponse) -> (r: Outcome)
        ensures
            r.persist == ok,
            deliveries_view(r.replies@) == if ok {
                seq![(id, reply@)] + broadcast_view(self.subscribers_view(), self@)
            } else {
                seq![(id, reply@)]
            },
    {
        let mut replies: Vec<(u64, DataAgentResponse)> = Vec::new();
        replies.push((id, reply));
        assert(deliveries_view(replies@) =~= seq![(id, reply@)]);
        if ok {
            self.broadcast(&mut replies);
        }
        Outcome { persist: ok, replies }
    }

    /// Handles request `msg` from consumer `id`, using `fresh` as the id of
    /// anything it creates.
    pub fn handle_input(&mut self, msg: DataAgentRequest, id: u64, fresh: u128) -> (r:
        Outcome)
        requires
            old(self).wf(),
        ensures
            final(self).wf(),
            (final(self)@, r.persist, deliveries_view(r.replies@)) == handle_spec(
                old(self)@,
                old(self).issued_view(),
                old(self).user(),
                old(self).subscribers_view(),
                msg,
                id,
                fresh,
            ),
            final(self).user() == old(self).user(),
            final(self).subscribers_view() == old(self).subscribers_view(),
            final(self).issued_view() == issued_after(
                old(self)@,
                old(self).issued_view(),
                old(self).user(),
                msg,
                fresh,
            ),
            final(self).auth_view() == old(self).auth_view(),
    {
        match msg {
            DataAgentRequest::GetInventories => {
                let mut replies: Vec<(u64, DataAgentResponse)> = Vec::new();
                assert(deliveries_view(replies@) =~= Seq::empty());
                self.broadcast(&mut replies);
                assert(deliveries_view(replies@) =~= broadcast_view(self.subscribers_view(), self@));
                Outcome { persist: false, replies }
            },
            DataAgentRequest::GetInventory(x) => {
                let reply = match self.get_inventory(x) {
                    Some(inv) => DataAgentResponse::Inventory(inv.duplicate()),
                    None => DataAgentResponse::InvalidInventoryUuid,
                };
                let mut replies: Vec<(u64, DataAgentResponse)> = Vec::new();
                replies.push((id, reply));
                assert(deliveries_view(replies@) =~= seq![(id, reply@)]);
                Outcome { persist: false, replies }
            },
            DataAgentRequest::CreateInventory(name) => {
                let r = self.create_inventory_with_uuid(name, fresh);
                let reply = match r {
                    Ok(x) => DataAgentResponse::NewInventoryUuid(x),
                    Err(e) => error_response(e),
                };
                self.finish(r.is_ok(), id, reply)
            },
            DataAgentRequest::UpdateInventory { target, name, owner, admins, writables, readables } => {
                let r = self.update_inventory(target, name, owner, admins, writables, readables);
                let reply = match r {
                    Ok(()) => match self.get_inventory(target) {
                        Some(inv) => DataAgentResponse::UpdatedInventory(inv.duplicate()),
                        None => DataAgentResponse::InvalidInventoryUuid,
                    },
                    Err(e) => error_response(e),
                };
                self.finish(r.is_ok(), id, reply)
            },
            DataAgentRequest::DeleteInventory(target) => {
                let r = self.delete_inventory(target);
                let reply = match r {
                    Ok(()) => DataAgentResponse::DeletedInventory(target),
                    Err(e) => error_response(e),
                };
                self.finish(r.is_ok(), id, reply)
            },
            DataAgentRequest::UpdateItem { inventory, target, name, ean } => {
                let r = self.update_item(inventory, target, name, ean);
                let reply = match r {
                    Ok(()) => DataAgentResponse::UpdatedItem,
                    Err(e) => error_response(e),
                };
                self.finish(r.is_ok(), id, reply)
            },
            DataAgentRequest::CreateItem(inventory, name, ean) => {
                let r = self.create_item_with_uuid(inventory, name, ean, fresh);
                let reply = match r {
                    Ok(x) => DataAgentResponse::NewItemUuid(x),
                    Err(e) => error_response(e),
                };
                self.finish(r.is_ok(), id, reply)
            },
            DataAgentRequest::DeleteAllData => {
                self.delete_all_data();
                let mut replies: Vec<(u64, DataAgentResponse)> = Vec::new();
                assert(deliveries_view(replies@) =~= Seq::empty());
                self.broadcast(&mut replies);
                assert(deliveries_view(replies@) =~= broadcast_view(self.subscribers_view(), self@));
                Outcome { persist: true, replies }
            },
            DataAgentRequest::GetItem(inventory, item) => {
                let reply = match self.get_item(inventory, item) {
                    Some(it) => DataAgentResponse::Item(it.duplicate()),
                    None => DataAgentResponse::InvalidInventoryUuid,
                };
                let mut replies: Vec<(u64, DataAgentResponse)> = Vec::new();
                replies.push((id, reply));
                assert(deliveries_view(replies@) =~= seq![(id, reply@)]);
                Outcome { persist: false, replies }
            },
            DataAgentRequest::DeleteItem(inventory, item) => {
                let r = self.delete_item(inventory, item);
                let reply = match r {
                    Ok(()) => DataAgentResponse::DeletedItem(item),
                    Err(e) => error_response(e),
                };
                self.finish(r.is_ok(), id, reply)
            },
        }
    }
}

} // verus!