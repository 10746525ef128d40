//! The in-memory store of orders and its five operations. The store is
//! viewed as a finite map from 128-bit identifiers to order models; every
//! operation's contract says exactly how it reads or rewrites that map.

use vstd::prelude::*;
use vstd::map::*;
use vstd::pervasive::VecAdditionalExecFns;
use crate::errors::{errors_model, ApiError};
use crate::models::{clone_string_vec, Order, OrderModel};
use crate::order_dtos::{CreateOrderDto, OrderResponseDto, UpdateStatusDto};

verus! {

broadcast use vstd::seq_lib::group_seq_lib_default;

/// Relies on `uuid::Uuid::new_v4` for a fresh random 128-bit identifier.
/// Nothing is assumed of the value: every caller handles every outcome,
/// including a collision with an identifier already in use. The call may
/// abort if the operating system's source of randomness fails; that is
/// environmental, with no input to exclude.
#[verifier::external_body]
fn fresh_id() -> u128 {
    uuid::Uuid::new_v4().as_u128()
}

/// The in-memory mapping from identifier to order.
pub struct OrderStore {
    orders: Vec<Order>,
}

impl View for OrderStore {
    type V = Map<u128, OrderModel>;

    closed spec fn view(&self) -> Map<u128, OrderModel> {
        Map::new(|id: u128| self.has_id(id), |id: u128| self.orders@[self.index_of(id)].model())
    }
}

impl OrderStore {
    /// The identifiers of the stored orders, in storage order.
    spec fn ids(&self) -> Seq<u128> {
        self.orders@.map_values(|o: Order| o.id)
    }

    spec fn has_id(&self, id: u128) -> bool {
        exists|i: int| 0 <= i < self.orders@.len() && self.orders@[i].id == id
    }

    spec fn index_of(&self, id: u128) -> int {
        choose|i: int| 0 <= i < self.orders@.len() && self.orders@[i].id == id
    }

    /// The number of stored orders.
    pub closed spec fn spec_len(&self) -> nat {
        self.orders@.len()
    }

    /// The store's invariant: identifiers are unique and every stored order
    /// is well formed.
    pub closed spec fn wf(&self) -> bool {
        &&& forall|i: int, j: int|
            #![trigger self.orders@[i].id, self.orders@[j].id]
            0 <= i < j < self.orders@.len() ==> self.orders@[i].id != self.orders@[j].id
        &&& forall|i: int|
            0 <= i < self.orders@.len() ==> (#[trigger] self.orders@[i]).model().wf()
    }

    proof fn lemma_view_at(&self, i: int)
        requires
            self.wf(),
            0 <= i < self.orders@.len(),
        ensures
            self@.contains_key(self.orders@[i].id),
            self@[self.orders@[i].id] == self.orders@[i].model(),
    {
        let id = self.orders@[i].id;
        assert(self.has_id(id));
        let j = self.index_of(id);
        assert(0 <= j < self.orders@.len() && self.orders@[j].id == id);
        assert(i == j);
    }

    /// The store's map is finite and holds exactly one entry per stored
    /// order.
    pub proof fn lemma_finite(&self)
        requires
            self.wf(),
        ensures
            self@.dom().finite(),
            self@.dom().len() == self.spec_len(),
    {
        broadcast use vstd::seq_lib::seq_to_set_is_finite;

        assert(self@.dom() =~= self.ids().to_set()) by {
            assert forall|id: u128| self.ids().to_set().contains(id) implies self.has_id(
                id,
            ) by {
                let i = choose|i: int|
                    0 <= i < self.ids().len() && self.ids()[i] == id;
                assert(self.orders@[i].id == id);
            }
            assert forall|id: u128| self.has_id(id) implies self.ids().to_set().contains(
                id,
            ) by {
                let i = choose|i: int|
                    0 <= i < self.orders@.len() && self.orders@[i].id == id;
                assert(self.ids()[i] == id);
                assert(self.ids().contains(id));
            }
        }
        assert(self.ids().no_duplicates());
        self.ids().unique_seq_to_set();
    }

    /// The data-model invariant as seen through the map: every stored
    /// order is well formed and keyed by its own identifier.
    pub proof fn lemma_wf_entries(&self)
        requires
            self.wf(),
        ensures
            forall|id: u128| #[trigger]
                self@.contains_key(id) ==> self@[id].wf() && self@[id].id == id,
    {
        assert forall|id: u128| #[trigger] self@.contains_key(id) implies self@[id].wf()
            && self@[id].id == id by {
            let i = self.index_of(id);
            assert(0 <= i < self.orders@.len() && self.orders@[i].id == id);
            assert(self.orders@[i].model().wf());
        }
    }

    /// An empty store.
    pub fn new() -> (s: OrderStore)
        ensures
            s.wf(),
            s@ == Map::<u128, OrderModel>::empty(),
    {
        let s = OrderStore { orders: Vec::new() };
        proof {
            assert(s@ =~= Map::<u128, OrderModel>::empty());
        }
        s
    }

    /// Linear search for the order holding `id`.
    fn find_index(&self, id: u128) -> (r: Option<usize>)
        requires
            self.wf(),
        ensures
            match r {
                Some(i) => {
                    &&& (i as int) < self.orders@.len()
                    &&& self.orders@[i as int].id == id
                    &&& self@.contains_key(id)
                    &&& self@[id] == self.orders@[i as int].model()
                },
                None => !self@.contains_key(id),
            },
    {
        let n = self.orders.len();
        let mut i: usize = 0;
        while i < n
            invariant
                n == self.orders@.len(),
                i <= n,
                self.wf(),
                forall|j: int| 0 <= j < i ==> self.orders@[j].id != id,
            decreases n - i,
        {
            if self.orders[i].id == id {
                proof {
                    self.lemma_view_at(i as int);
                }
                return Some(i);
            }
            i += 1;
        }
        proof {
            assert(!self.has_id(id));
        }
        None
    }

    /// Appends an order under an identifier not yet in use.
    fn push_new(&mut self, order: Order)
        requires
            old(self).wf(),
            !old(self)@.contains_key(order.id),
            order.model().wf(),
        ensures
            final(self).wf(),
            final(self)@ == old(self)@.insert(order.id, order.model()),
    {
        proof {
            assert(!old(self).has_id(order.id));
        }
        self.orders.push(order);
        proof {
            let pre = old(self);
            let n = pre.orders@.len();
            assert forall|i: int, j: int|
                #![trigger self.orders@[i].id, self.orders@[j].id]
                0 <= i < j < self.orders@.len() implies self.orders@[i].id
                != self.orders@[j].id by {
                if j < n {
                    assert(pre.orders@[i].id != pre.orders@[j].id);
                } else {
                    assert(self.orders@[j] == order);
                    assert(pre.orders@[i].id != order.id);
                }
            }
            assert(self.wf());
            assert_maps_equal!(self@, old(self)@.insert(order.id, order.model()), id => {
                if id == order.id {
                    assert(self.orders@[n as int].id == id);
                    assert(self.has_id(id));
                    let k = self.index_of(id);
                    assert(0 <= k < self.orders@.len() && self.orders@[k].id == id);
                    assert(k == n);
                } else {
                    if pre.has_id(id) {
                        let k = pre.index_of(id);
                        assert(0 <= k < n && pre.orders@[k].id == id);
                        assert(self.orders@[k].id == id);
                        assert(self.has_id(id));
                        let k2 = self.index_of(id);
                        assert(0 <= k2 < self.orders@.len() && self.orders@[k2].id == id);
                        assert(k2 != n);
                        assert(k2 == k);
                    }
                    if self.has_id(id) {
                        let k = self.index_of(id);
                        assert(0 <= k < self.orders@.len() && self.orders@[k].id == id);
                        assert(k != n);
                        assert(pre.orders@[k].id == id);
                        assert(pre.has_id(id));
                    }
                }
            });
        }
    }

    /// Replaces the order at position `i` with one holding the same
    /// identifier.
    fn set_at(&mut self, i: usize, order: Order)
        requires
            old(self).wf(),
            (i as int) < old(self).orders@.len(),
            order.id == old(self).orders@[i as int].id,
            order.model().wf(),
        ensures
            final(self).wf(),
            final(self)@ == old(self)@.insert(order.id, order.model()),
    {
        self.orders.set(i, order);
        proof {
            let pre = old(self);
            let n = pre.orders@.len();
            assert forall|a: int, b: int|
                #![trigger self.orders@[a].id, self.orders@[b].id]
                0 <= a < b < self.orders@.len() implies self.orders@[a].id
                != self.orders@[b].id by {
                assert(self.orders@[a].id == pre.orders@[a].id);
                assert(self.orders@[b].id == pre.orders@[b].id);
                assert(pre.orders@[a].id != pre.orders@[b].id);
            }
            assert(self.wf());
            assert_maps_equal!(self@, old(self)@.insert(order.id, order.model()), id => {
                if self.has_id(id) {
                    let k = self.index_of(id);
                    assert(0 <= k < self.orders@.len() && self.orders@[k].id == id);
                    assert(pre.orders@[k].id == id);
                    assert(pre.has_id(id));
                }
                if pre.has_id(id) {
                    let k = pre.index_of(id);
                    assert(0 <= k < n && pre.orders@[k].id == id);
                    assert(self.orders@[k].id == id);
                    assert(self.has_id(id));
                    let k2 = self.index_of(id);
                    assert(0 <= k2 < self.orders@.len() && self.orders@[k2].id == id);
                    assert(k2 == k);
                    if id == order.id {
                        assert(k == i);
                    } else {
                        assert(k != i);
                        assert(self.orders@[k] == pre.orders@[k]);
                    }
                }
            });
        }
    }

    /// Removes the order at position `i`.
    fn remove_at(&mut self, i: usize)
        requires
            old(self).wf(),
            (i as int) < old(self).orders@.len(),
        ensures
            final(self).wf(),
            final(self)@ == old(self)@.remove(old(self).orders@[i as int].id),
    {
        self.orders.remove(i);
        proof {
            let pre = old(self);
            let n = pre.orders@.len();
            let gone = pre.orders@[i as int].id;
            // Each surviving position holds an order from the old store.
            assert forall|a: int| 0 <= a < self.orders@.len() implies self.orders@[a]
                == pre.orders@[if a < i { a } else { a + 1 }] by {}
            assert forall|a: int, b: int|
                #![trigger self.orders@[a].id, self.orders@[b].id]
                0 <= a < b < self.orders@.len() implies self.orders@[a].id
                != self.orders@[b].id by {
                let a0 = if a < i { a } else { a + 1 };
                let b0 = if b < i { b } else { b + 1 };
                assert(pre.orders@[a0].id != pre.orders@[b0].id);
            }
            assert(self.wf());
            assert_maps_equal!(self@, old(self)@.remove(gone), id => {
                if self.has_id(id) {
                    let k = self.index_of(id);
                    assert(0 <= k < self.orders@.len() && self.orders@[k].id == id);
                    let k0 = if k < i { k } else { k + 1 };
                    assert(pre.orders@[k0].id == id);
                    assert(pre.has_id(id));
                    assert(k0 != i);
                    assert(id != gone);
                    let k1 = pre.index_of(id);
                    assert(0 <= k1 < n && pre.orders@[k1].id == id);
                    assert(k1 == k0);
                }
                if pre.has_id(id) && id != gone {
                    let k0 = pre.index_of(id);
                    assert(0 <= k0 < n && pre.orders@[k0].id == id);
                    assert(k0 != i);
                    let k = if k0 < i { k0 } else { k0 - 1 };
                    assert(self.orders@[k].id == id);
                    assert(self.has_id(id));
                }
            });
        }
    }
}

/// Validates the request and inserts a new order under the given
/// identifier with status `pending`. Succeeds exactly when the request is
/// valid and the identifier is not yet in use; a validation failure
/// returns the exact per-field report, an identifier collision returns
/// `Internal`, and in both failing cases the store is left unchanged.
pub fn create_order_with_id(db: &mut OrderStore, id: u128, data: CreateOrderDto) -> (r: Result<
    OrderResponseDto,
    ApiError,
>)
    requires
        old(db).wf(),
    ensures
        final(db).wf(),
        r is Ok <==> data.is_valid() && !old(db)@.contains_key(id),
        match r {
            Ok(dto) => {
                &&& dto.model().id == id
                &&& dto.model().customer == data.customer@
                &&& dto.model().items == data.items.deep_view()
                &&& dto.model().status == "pending"@
                &&& final(db)@ == old(db)@.insert(id, dto.model())
            },
            Err(e) => match e {
                ApiError::Validation(fes) => {
                    &&& !data.is_valid()
                    &&& final(db)@ == old(db)@
                    &&& errors_model(fes@) == data.spec_validation_errors()
                },
                ApiError::Internal => {
                    &&& data.is_valid()
                    &&& old(db)@.contains_key(id)
                    &&& final(db)@ == old(db)@
                },
                _ => false,
            },
        },
{
    match data.validate() {
        Err(fes) => {
            return Err(ApiError::Validation(fes));
        },
        Ok(()) => {},
    }
    if db.find_index(id).is_some() {
        return Err(ApiError::Internal);
    }
    let order = Order {
        id,
        customer: data.customer,
        items: data.items,
        status: String::from_str("pending"),
    };
    let snapshot = order.clone();
    db.push_new(snapshot);
    Ok(OrderResponseDto::from(order))
}

/// Validates the request, draws a fresh random identifier, and inserts a
/// new order with status `pending`. Nothing is assumed of the drawn
/// identifier, so the contract states what holds whichever value came
/// back: on the negligible chance that it is already in use — which
/// presupposes an occupied store, so on an empty store a valid request is
/// owed success — the store is left unchanged and `Internal` is returned;
/// a validation failure returns the exact per-field report and leaves the
/// store unchanged.
pub fn create_order(db: &mut OrderStore, data: CreateOrderDto) -> (r: Result<
    OrderResponseDto,
    ApiError,
>)
    requires
        old(db).wf(),
    ensures
        final(db).wf(),
        match r {
            Ok(dto) => {
                &&& data.is_valid()
                &&& !old(db)@.contains_key(dto.model().id)
                &&& dto.model().customer == data.customer@
                &&& dto.model().items == data.items.deep_view()
                &&& dto.model().status == "pending"@
                &&& final(db)@ == old(db)@.insert(dto.model().id, dto.model())
            },
            Err(e) => match e {
                ApiError::Validation(fes) => {
                    &&& !data.is_valid()
                    &&& final(db)@ == old(db)@
                    &&& errors_model(fes@) == data.spec_validation_errors()
                },
                ApiError::Internal => {
                    &&& data.is_valid()
                    &&& old(db)@.dom().len() > 0
                    &&& final(db)@ == old(db)@
                },
                _ => false,
            },
        },
{
    let id = fresh_id();
    let r = create_order_with_id(db, id, data);
    proof {
        // A collision presupposes an occupied store: the drawn identifier
        // is a key of the old map, so the map was not empty.
        if old(db)@.contains_key(id) {
            old(db).lemma_finite();
            assert(old(db).has_id(id));
            assert(old(db).orders@.len() > 0);
        }
    }
    r
}

/// Looks `id` up and returns a snapshot projection of the order, or
/// `NotFound` when no order holds that identifier. The store is not
/// changed.
pub fn get_order(db: &OrderStore, id: u128) -> (r: Result<OrderResponseDto, ApiError>)
    requires
        db.wf(),
    ensures
        match r {
            Ok(dto) => db@.contains_key(id) && dto.model() == db@[id],
            Err(e) => e == ApiError::NotFound && !db@.contains_key(id),
        },
{
    match db.find_index(id) {
        Some(i) => Ok(OrderResponseDto::from(db.orders[i].clone())),
        None => Err(ApiError::NotFound),
    }
}

/// Returns snapshot projections of all stored orders: one per stored
/// order, with pairwise distinct identifiers, each equal to the stored
/// order under its identifier. Callers may not rely on the order of the
/// result.
pub fn list_orders(db: &OrderStore) -> (r: Vec<OrderResponseDto>)
    requires
        db.wf(),
    ensures
        r@.len() == db@.dom().len(),
        forall|k: int|
            0 <= k < r@.len() ==> db@.contains_key(#[trigger] r@[k].model().id) && r@[k].model()
                == db@[r@[k].model().id],
        forall|id: u128| #[trigger]
            db@.contains_key(id) ==> exists|k: int| 0 <= k < r@.len() && r@[k].model().id == id,
        forall|k1: int, k2: int|
            #![trigger r@[k1].model().id, r@[k2].model().id]
            0 <= k1 < k2 < r@.len() ==> r@[k1].model().id != r@[k2].model().id,
{
    let n = db.orders.len();
    let mut r: Vec<OrderResponseDto> = Vec::new();
    let mut i: usize = 0;
    while i < n
        invariant
            n == db.orders@.len(),
            i <= n,
            db.wf(),
            r@.len() == i,
            forall|k: int| 0 <= k < i ==> (#[trigger] r@[k]).model() == db.orders@[k].model(),
        decreases n - i,
    {
        r.push(OrderResponseDto::from(db.orders[i].clone()));
        i += 1;
    }
    proof {
        db.lemma_finite();
        assert forall|k: int| 0 <= k < r@.len() implies db@.contains_key(
            #[trigger] r@[k].model().id,
        ) && r@[k].model() == db@[r@[k].model().id] by {
            db.lemma_view_at(k);
        }
        assert forall|id: u128| #[trigger] db@.contains_key(id) implies exists|k: int|
            0 <= k < r@.len() && r@[k].model().id == id by {
            let k = db.index_of(id);
            assert(0 <= k < db.orders@.len() && db.orders@[k].id == id);
            assert(r@[k].model().id == id);
        }
    }
    r
}

/// Validates the request first (validation takes precedence over
/// existence), then replaces only the status of the addressed order and
/// returns the updated projection. On a validation failure or a missing
/// order the store is left unchanged.
pub fn update_status(db: &mut OrderStore, id: u128, data: UpdateStatusDto) -> (r: Result<
    OrderResponseDto,
    ApiError,
>)
    requires
        old(db).wf(),
    ensures
        final(db).wf(),
        match r {
            Ok(dto) => {
                &&& data.is_valid()
                &&& old(db)@.contains_key(id)
                &&& dto.model() == old(db)@[id].with_status(data.status@)
                &&& final(db)@ == old(db)@.insert(id, old(db)@[id].with_status(data.status@))
            },
            Err(e) => match e {
                ApiError::Validation(fes) => {
                    &&& !data.is_valid()
                    &&& final(db)@ == old(db)@
                    &&& errors_model(fes@) == data.spec_validation_errors()
                },
                ApiError::NotFound => {
                    &&& data.is_valid()
                    &&& !old(db)@.contains_key(id)
                    &&& final(db)@ == old(db)@
                },
                _ => false,
            },
        },
{
    match data.validate() {
        Err(fes) => {
            return Err(ApiError::Validation(fes));
        },
        Ok(()) => {},
    }
    match db.find_index(id) {
        Some(i) => {
            let updated = Order {
                id: db.orders[i].id,
                customer: db.orders[i].customer.clone(),
                items: clone_string_vec(&db.orders[i].items),
                status: data.status,
            };
            let snapshot = updated.clone();
            db.set_at(i, updated);
            Ok(OrderResponseDto::from(snapshot))
        },
        None => Err(ApiError::NotFound),
    }
}

/// Removes the addressed order; `NotFound`, with the store unchanged, when
/// no order holds the identifier.
pub fn delete_order(db: &mut OrderStore, id: u128) -> (r: Result<(), ApiError>)
    requires
        old(db).wf(),
    ensures
        final(db).wf(),
        match r {
            Ok(()) => old(db)@.contains_key(id) && final(db)@ == old(db)@.remove(id),
            Err(e) => e == ApiError::NotFound && !old(db)@.contains_key(id) && final(db)@ == old(db)@,
        },
{
    match db.find_index(id) {
        Some(i) => {
            db.remove_at(i);
            Ok(())
        },
        None => Err(ApiError::NotFound),
    }
}

} // verus!
