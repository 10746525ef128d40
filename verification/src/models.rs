//! The domain entity and its mathematical model.

use vstd::prelude::*;
use crate::strutil::str_eq;

verus! {

/// Whether a sequence of characters is one of the four permitted lifecycle
/// statuses.
pub open spec fn is_valid_status(s: Seq<char>) -> bool {
    ||| s == "pending"@
    ||| s == "shipped"@
    ||| s == "delivered"@
    ||| s == "cancelled"@
}

/// Executable membership test for the closed status set.
pub fn check_status(s: &str) -> (r: bool)
    ensures
        r == is_valid_status(s@),
{
    str_eq(s, "pending") || str_eq(s, "shipped") || str_eq(s, "delivered") || str_eq(
        s,
        "cancelled",
    )
}

/// Mathematical model of an order: every field as a plain mathematical value.
pub ghost struct OrderModel {
    pub id: u128,
    pub customer: Seq<char>,
    pub items: Seq<Seq<char>>,
    pub status: Seq<char>,
}

impl OrderModel {
    /// The invariant every stored order satisfies: non-empty customer, at
    /// least one item, and a status drawn from the closed set.
    pub open spec fn wf(self) -> bool {
        &&& self.customer.len() > 0
        &&& self.items.len() > 0
        &&& is_valid_status(self.status)
    }

    /// The same order with only the status replaced.
    pub open spec fn with_status(self, status: Seq<char>) -> OrderModel {
        OrderModel { status, ..self }
    }
}

/// The domain entity. The store assigns `id` at creation; only `status` is
/// ever mutated afterwards.
#[derive(Debug)]
pub struct Order {
    pub id: u128,
    pub customer: String,
    pub items: Vec<String>,
    pub status: String,
}

impl Order {
    /// The order as a mathematical value.
    pub open spec fn model(self) -> OrderModel {
        OrderModel {
            id: self.id,
            customer: self.customer@,
            items: self.items.deep_view(),
            status: self.status@,
        }
    }
}

/// Copies a vector of strings; the copy has the same mathematical content.
pub fn clone_string_vec(v: &Vec<String>) -> (r: Vec<String>)
    ensures
        r@ == v@,
        r.deep_view() == v.deep_view(),
{
    let mut r: Vec<String> = Vec::new();
    let n = v.len();
    let mut i: usize = 0;
    while i < n
        invariant
            n == v@.len(),
            i <= n,
            r@.len() == i,
            forall|j: int| 0 <= j < i ==> r@[j] == v@[j],
        decreases n - i,
    {
        r.push(v[i].clone());
        i += 1;
    }
    proof {
        assert(r@ =~= v@);
    }
    r
}

impl Clone for Order {
    /// The copy has the same mathematical content as the original.
    fn clone(&self) -> (r: Self)
        ensures
            r.model() == self.model(),
    {
        Order {
            id: self.id,
            customer: self.customer.clone(),
            items: clone_string_vec(&self.items),
            status: self.status.clone(),
        }
    }
}

} // verus!
