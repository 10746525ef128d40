//! Laws of the store, stated over its mathematical model — the finite map
//! from identifier to order model that every operation's contract speaks
//! of — and proved once and for all.

use vstd::prelude::*;
use crate::models::OrderModel;

verus! {

/// The effect of one successful create on the store's map, as stated in
/// the contract of `create_order`.
pub open spec fn create_step(m: Map<u128, OrderModel>, o: OrderModel) -> Map<u128, OrderModel> {
    m.insert(o.id, o)
}

/// The effect of a sequence of successful creates, first to last.
pub open spec fn create_steps(m: Map<u128, OrderModel>, os: Seq<OrderModel>) -> Map<
    u128,
    OrderModel,
>
    decreases os.len(),
{
    if os.len() == 0 {
        m
    } else {
        create_steps(m, os.drop_last()).insert(os.last().id, os.last())
    }
}

/// Law: after a successful create, a get with the returned identifier
/// yields the created order itself — same identifier, the request's
/// customer and items, and status `pending`, since the contract of
/// `create_order` fixes the inserted model to exactly those fields and the
/// contract of `get_order` returns exactly the stored model.
pub proof fn lemma_create_then_get(m: Map<u128, OrderModel>, o: OrderModel)
    ensures
        create_step(m, o).contains_key(o.id),
        create_step(m, o)[o.id] == o,
{
}

/// Law: an identifier never returned by any create is absent from the
/// store, so `get_order`, `update_status` and `delete_order` answer
/// `NotFound` for it, by the `NotFound` arms of their contracts.
pub proof fn lemma_uncreated_id_absent(m: Map<u128, OrderModel>, os: Seq<OrderModel>, id: u128)
    requires
        !m.contains_key(id),
        forall|k: int| 0 <= k < os.len() ==> (#[trigger] os[k]).id != id,
    ensures
        !create_steps(m, os).contains_key(id),
    decreases os.len(),
{
    if os.len() > 0 {
        lemma_uncreated_id_absent(m, os.drop_last(), id);
    }
}

/// Law: deleting an order removes its identifier from the store, so a get
/// on the same identifier afterwards answers `NotFound`.
pub proof fn lemma_delete_then_get(m: Map<u128, OrderModel>, id: u128)
    ensures
        !m.remove(id).contains_key(id),
{
}

/// Law: for an order present in the store and any status `s`,
/// update-status replaces exactly the status field — the returned
/// projection and every subsequent get show status `s` with the
/// identifier, customer and items unchanged.
pub proof fn lemma_update_then_get(m: Map<u128, OrderModel>, id: u128, s: Seq<char>)
    requires
        m.contains_key(id),
    ensures
        ({
            let m2 = m.insert(id, m[id].with_status(s));
            &&& m2.contains_key(id)
            &&& m2[id].status == s
            &&& m2[id].id == m[id].id
            &&& m2[id].customer == m[id].customer
            &&& m2[id].items == m[id].items
        }),
{
}

/// Law: a sequence of N successful creates, each under an identifier that
/// was fresh at its turn, grows the store by exactly N orders, and the
/// store's identifiers afterwards are the old ones together with the
/// created ones. With the contract of `list_orders`, a list then returns
/// exactly that many orders carrying exactly those identifiers, in some
/// order.
pub proof fn lemma_creates_then_list(m: Map<u128, OrderModel>, os: Seq<OrderModel>)
    requires
        m.dom().finite(),
        forall|k: int| 0 <= k < os.len() ==> !m.contains_key((#[trigger] os[k]).id),
        forall|k1: int, k2: int|
            #![trigger os[k1].id, os[k2].id]
            0 <= k1 < k2 < os.len() ==> os[k1].id != os[k2].id,
    ensures
        create_steps(m, os).dom().finite(),
        create_steps(m, os).dom().len() == m.dom().len() + os.len(),
        create_steps(m, os).dom() == m.dom() + os.map_values(|o: OrderModel| o.id).to_set(),
    decreases os.len(),
{
    let ids = os.map_values(|o: OrderModel| o.id);
    if os.len() == 0 {
        assert(create_steps(m, os).dom() =~= m.dom() + ids.to_set());
    } else {
        let rest = os.drop_last();
        let last = os.last();
        lemma_creates_then_list(m, rest);
        let rest_ids = rest.map_values(|o: OrderModel| o.id);
        assert(!rest_ids.to_set().contains(last.id)) by {
            if rest_ids.to_set().contains(last.id) {
                let k = choose|k: int| 0 <= k < rest_ids.len() && rest_ids[k] == last.id;
                assert(os[k].id == os[os.len() - 1].id);
            }
        }
        assert(!create_steps(m, rest).contains_key(last.id));
        assert(create_steps(m, os).dom() =~= create_steps(m, rest).dom().insert(last.id));
        assert(ids.to_set() =~= rest_ids.to_set().insert(last.id)) by {
            assert forall|x: u128| ids.to_set().contains(x) implies rest_ids.to_set().insert(
                last.id,
            ).contains(x) by {
                let k = choose|k: int| 0 <= k < ids.len() && ids[k] == x;
                if k < rest.len() {
                    assert(rest_ids[k] == x);
                }
            }
            assert forall|x: u128| rest_ids.to_set().insert(last.id).contains(x) implies ids
                .to_set().contains(x) by {
                if rest_ids.to_set().contains(x) {
                    let k = choose|k: int| 0 <= k < rest_ids.len() && rest_ids[k] == x;
                    assert(ids[k] == x);
                } else {
                    assert(ids[ids.len() - 1] == last.id);
                }
            }
        }
        assert(create_steps(m, os).dom() =~= m.dom() + ids.to_set());
    }
}

} // verus!
