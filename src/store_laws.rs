//! Properties of the store's operations, proved over their models.
use vstd::prelude::*;

use crate::messages::{DataAgentRequest, ResponseView};
use crate::model::{new_inventory_view, opt_view, InventoryView, ItemView};
use crate::store::{lemma_inv_index, lemma_push_inventory_wf};
use crate::store_spec::{
    create_inventory_spec, create_item_spec, created_reply, delete_item_spec, get_inventory_spec, get_item_spec, handle_spec,
    has_inv, has_item, id_available, inv_index, issued_after, item_index, reload_view,
    wf_inventories, StoreError,
};

verus! {

/// Handles the requests `msgs` in order, the `k`-th from consumer `ids[k]`
/// with fresh id `fresh[k]`; gives the final collection, the final record of
/// handed-out ids, and the ids handed out by successful creations, in order.
pub open spec fn run_requests(
    s: Seq<InventoryView>,
    issued: Seq<u128>,
    user: Option<u128>,
    subs: Seq<u64>,
    msgs: Seq<DataAgentRequest>,
    ids: Seq<u64>,
    fresh: Seq<u128>,
) -> (Seq<InventoryView>, Seq<u128>, Seq<u128>)
    decreases msgs.len(),
{
    if msgs.len() == 0 || ids.len() < msgs.len() || fresh.len() < msgs.len() {
        (s, issued, Seq::empty())
    } else {
        let t = handle_spec(s, issued, user, subs, msgs[0], ids[0], fresh[0]).0;
        let issued2 = issued_after(s, issued, user, msgs[0], fresh[0]);
        let (u, issued3, created) = run_requests(
            t,
            issued2,
            user,
            subs,
            msgs.drop_first(),
            ids.drop_first(),
            fresh.drop_first(),
        );
        if issued2.len() > issued.len() {
            (u, issued3, seq![fresh[0]] + created)
        } else {
            (u, issued3, created)
        }
    }
}

/// One request either leaves the record of handed-out ids alone or adds one
/// id that was not on it; a creation that replies with a new id is the
/// latter, with that id.
pub proof fn lemma_issued_step(
    s: Seq<InventoryView>,
    issued: Seq<u128>,
    user: Option<u128>,
    subs: Seq<u64>,
    msg: DataAgentRequest,
    id: u64,
    fresh: u128,
)
    ensures
        issued_after(s, issued, user, msg, fresh) == issued || (issued_after(
            s,
            issued,
            user,
            msg,
            fresh,
        ) == issued.push(fresh) && id_available(s, issued, fresh)),
        handle_spec(s, issued, user, subs, msg, id, fresh).2.len() > 0 ==> (handle_spec(
            s,
            issued,
            user,
            subs,
            msg,
            id,
            fresh,
        ).2[0].1 matches ResponseView::NewInventoryUuid(x) ==> x == fresh && id_available(
            s,
            issued,
            fresh,
        ) && issued_after(s, issued, user, msg, fresh) == issued.push(fresh)),
        handle_spec(s, issued, user, subs, msg, id, fresh).2.len() > 0 ==> (handle_spec(
            s,
            issued,
            user,
            subs,
            msg,
            id,
            fresh,
        ).2[0].1 matches ResponseView::NewItemUuid(x) ==> x == fresh && id_available(
            s,
            issued,
            fresh,
        ) && issued_after(s, issued, user, msg, fresh) == issued.push(fresh)),
{
    let out = handle_spec(s, issued, user, subs, msg, id, fresh).2;
    match msg {
        DataAgentRequest::GetInventories => {
            if out.len() > 0 {
                assert(out[0].1 == ResponseView::Inventories(s));
            }
        },
        DataAgentRequest::DeleteAllData => {
            if out.len() > 0 {
                assert(out[0].1 == ResponseView::Inventories(Seq::empty()));
            }
        },
        DataAgentRequest::CreateInventory(name) => {
            let r = create_inventory_spec(s, issued, name@, user, fresh).1;
            assert(out[0].1 == created_reply(r, true));
        },
        DataAgentRequest::CreateItem(inventory, name, ean) => {
            let r = create_item_spec(s, issued, inventory, name@, opt_view(ean), fresh).1;
            assert(out[0].1 == created_reply(r, false));
        },
        _ => {},
    }
}

/// Over any run of requests, deletions included, the ids handed out are
/// pairwise distinct and none of them was on record before the run. A
/// well-formed store has every id it ever held on record, so no id is handed
/// out twice or reused after a deletion.
pub proof fn lemma_ids_never_reused(
    s: Seq<InventoryView>,
    issued: Seq<u128>,
    user: Option<u128>,
    subs: Seq<u64>,
    msgs: Seq<DataAgentRequest>,
    ids: Seq<u64>,
    fresh: Seq<u128>,
)
    ensures
        run_requests(s, issued, user, subs, msgs, ids, fresh).2.no_duplicates(),
        forall|k: int|
            0 <= k < run_requests(s, issued, user, subs, msgs, ids, fresh).2.len() ==> !issued.contains(
                #[trigger] run_requests(s, issued, user, subs, msgs, ids, fresh).2[k],
            ),
        run_requests(s, issued, user, subs, msgs, ids, fresh).1 == issued + run_requests(
            s,
            issued,
            user,
            subs,
            msgs,
            ids,
            fresh,
        ).2,
    decreases msgs.len(),
{
    if msgs.len() == 0 || ids.len() < msgs.len() || fresh.len() < msgs.len() {
        assert(issued + Seq::<u128>::empty() =~= issued);
    } else {
        let t = handle_spec(s, issued, user, subs, msgs[0], ids[0], fresh[0]).0;
        let issued2 = issued_after(s, issued, user, msgs[0], fresh[0]);
        lemma_issued_step(s, issued, user, subs, msgs[0], ids[0], fresh[0]);
        lemma_ids_never_reused(t, issued2, user, subs, msgs.drop_first(), ids.drop_first(), fresh.drop_first());
        let (u, issued3, created) = run_requests(
            t,
            issued2,
            user,
            subs,
            msgs.drop_first(),
            ids.drop_first(),
            fresh.drop_first(),
        );
        if issued2.len() > issued.len() {
            let all = seq![fresh[0]] + created;
            assert(issued2 == issued.push(fresh[0]));
            assert(issued3 == issued + all) by {
                assert(issued2 + created =~= issued + all);
            }
            assert forall|k: int| 0 <= k < all.len() implies !issued.contains(#[trigger] all[k]) by {
                if k > 0 {
                    assert(all[k] == created[k - 1]);
                    if issued.contains(all[k]) {
                        let m = choose|m: int| 0 <= m < issued.len() && issued[m] == all[k];
                        assert(issued2[m] == all[k]);
                    }
                }
            }
            assert forall|a: int, b: int| 0 <= a < all.len() && 0 <= b < all.len() && a != b implies all[a] != all[b] by {
                if a > 0 && b > 0 {
                    assert(all[a] == created[a - 1]);
                    assert(all[b] == created[b - 1]);
                } else if a == 0 {
                    assert(all[b] == created[b - 1]);
                    assert(issued2[issued.len() as int] == fresh[0]);
                } else {
                    assert(all[a] == created[a - 1]);
                    assert(issued2[issued.len() as int] == fresh[0]);
                }
            }
        }
    }
}

/// After a successful creation of inventory `name` for user `u`, looking up
/// the returned id gives that new inventory, owned by `u`, with no items.
pub proof fn lemma_get_after_create(
    s: Seq<InventoryView>,
    issued: Seq<u128>,
    name: Seq<char>,
    u: u128,
    fresh: u128,
)
    requires
        wf_inventories(s),
        create_inventory_spec(s, issued, name, Some(u), fresh).1 is Ok,
    ensures
        create_inventory_spec(s, issued, name, Some(u), fresh).1 == Ok::<u128, StoreError>(fresh),
        get_inventory_spec(create_inventory_spec(s, issued, name, Some(u), fresh).0, fresh) == Some(
            new_inventory_view(fresh, name, u),
        ),
{
    let t = create_inventory_spec(s, issued, name, Some(u), fresh).0;
    let v = new_inventory_view(fresh, name, u);
    lemma_push_inventory_wf(s, v);
    assert(t == s.push(v));
    assert(t[s.len() as int] == new_inventory_view(fresh, name, u));
    lemma_inv_index(t, s.len() as int, fresh);
}

/// After deleting item `item` of inventory `inv`, whether or not the deletion
/// succeeded, looking the item up finds nothing.
pub proof fn lemma_get_after_delete_item(s: Seq<InventoryView>, inv: u128, item: u128)
    requires
        wf_inventories(s),
    ensures
        get_item_spec(delete_item_spec(s, inv, item).0, inv, item) == None::<ItemView>,
{
    let (t, r) = delete_item_spec(s, inv, item);
    if r is Ok {
        let i = inv_index(s, inv);
        let j = item_index(s[i].items, item);
        assert(t[i].uuid == inv);
        assert forall|a: int, k: int| 0 <= a < t.len() && 0 <= k < t.len() && a != k implies (#[trigger] t[a]).uuid
            != (#[trigger] t[k]).uuid by {
            assert(t[a].uuid == s[a].uuid);
            assert(t[k].uuid == s[k].uuid);
        }
        assert(has_inv(t, inv));
        let i2 = inv_index(t, inv);
        assert(t[i2].uuid == s[i2].uuid);
        assert(i2 == i);
        if has_item(t[i].items, item) {
            let b = choose|b: int| 0 <= b < t[i].items.len() && (#[trigger] t[i].items[b]).uuid == item;
            let b2 = if b < j { b } else { b + 1 };
            assert(t[i].items[b] == s[i].items[b2]);
            assert(s[i].items[j].uuid == item);
        }
    }
}

/// Writing a well-formed collection to storage and loading a store from what
/// was written gives back the same collection: ids, fields and item order.
pub proof fn lemma_persist_reload(s: Seq<InventoryView>)
    requires
        wf_inventories(s),
    ensures
        reload_view(Some(s)) == s,
{
}

} // verus!
