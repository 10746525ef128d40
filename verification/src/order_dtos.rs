//! Request and response shapes, and the field-validation rules of the
//! create and update-status requests.

use vstd::prelude::*;
use crate::errors::{errors_model, FieldError};
use crate::models::{check_status, is_valid_status, Order, OrderModel};

verus! {

/// Builds a report entry for one field carrying one message.
fn field_error(field: &str, msg: &str) -> (fe: FieldError)
    ensures
        fe.model() == (field@, seq![msg@]),
{
    let mut messages: Vec<String> = Vec::new();
    messages.push(String::from_str(msg));
    let fe = FieldError { field: String::from_str(field), messages };
    proof {
        assert(fe.messages.deep_view() =~= seq![msg@]);
    }
    fe
}

/// Request shape for creating an order.
#[derive(Debug)]
pub struct CreateOrderDto {
    pub customer: String,
    pub items: Vec<String>,
}

impl CreateOrderDto {
    /// The validation contract: a non-empty customer and at least one item.
    pub open spec fn is_valid(self) -> bool {
        &&& self.customer@.len() > 0
        &&& self.items@.len() > 0
    }

    /// The exact validation report for an invalid request: one entry per
    /// failing field, the customer rule first.
    pub open spec fn spec_validation_errors(self) -> Seq<(Seq<char>, Seq<Seq<char>>)> {
        let customer_err = ("customer"@, seq!["customer name must not be empty"@]);
        let items_err = ("items"@, seq!["at least one item required"@]);
        if self.customer@.len() == 0 && self.items@.len() == 0 {
            seq![customer_err, items_err]
        } else if self.customer@.len() == 0 {
            seq![customer_err]
        } else if self.items@.len() == 0 {
            seq![items_err]
        } else {
            Seq::empty()
        }
    }

    /// Checks every field rule; reports all failures together.
    pub fn validate(&self) -> (r: Result<(), Vec<FieldError>>)
        ensures
            r is Ok <==> self.is_valid(),
            r matches Err(fes) ==> errors_model(fes@) == self.spec_validation_errors(),
    {
        let mut fes: Vec<FieldError> = Vec::new();
        if self.customer.as_str().unicode_len() == 0 {
            fes.push(field_error("customer", "customer name must not be empty"));
        }
        if self.items.len() == 0 {
            fes.push(field_error("items", "at least one item required"));
        }
        if fes.len() == 0 {
            Ok(())
        } else {
            proof {
                assert(errors_model(fes@) =~~= self.spec_validation_errors());
            }
            Err(fes)
        }
    }
}

/// Request shape for replacing an order's status.
#[derive(Debug)]
pub struct UpdateStatusDto {
    pub status: String,
}

impl UpdateStatusDto {
    /// The validation contract: the status must be one of the four
    /// permitted values, exactly and case-sensitively.
    pub open spec fn is_valid(self) -> bool {
        is_valid_status(self.status@)
    }

    /// The exact validation report for an invalid request.
    pub open spec fn spec_validation_errors(self) -> Seq<(Seq<char>, Seq<Seq<char>>)> {
        if is_valid_status(self.status@) {
            Seq::empty()
        } else {
            seq![("status"@, seq!["invalid status"@])]
        }
    }

    /// Checks the status rule.
    pub fn validate(&self) -> (r: Result<(), Vec<FieldError>>)
        ensures
            r is Ok <==> self.is_valid(),
            r matches Err(fes) ==> errors_model(fes@) == self.spec_validation_errors(),
    {
        if check_status(self.status.as_str()) {
            Ok(())
        } else {
            let mut fes: Vec<FieldError> = Vec::new();
            fes.push(field_error("status", "invalid status"));
            proof {
                assert(errors_model(fes@) =~~= self.spec_validation_errors());
            }
            Err(fes)
        }
    }
}

/// Response shape: a direct projection of an order.
#[derive(Debug)]
pub struct OrderResponseDto {
    pub id: u128,
    pub customer: String,
    pub items: Vec<String>,
    pub status: String,
}

impl OrderResponseDto {
    /// The response as a mathematical value; a faithful projection has the
    /// same model as the order it was taken from.
    pub open spec fn model(self) -> OrderModel {
        OrderModel {
            id: self.id,
            customer: self.customer@,
            items: self.items.deep_view(),
            status: self.status@,
        }
    }
}

impl vstd::std_specs::convert::FromSpecImpl<Order> for OrderResponseDto {
    open spec fn obeys_from_spec() -> bool {
        true
    }

    open spec fn from_spec(o: Order) -> OrderResponseDto {
        OrderResponseDto { id: o.id, customer: o.customer, items: o.items, status: o.status }
    }
}

impl From<Order> for OrderResponseDto {
    fn from(o: Order) -> (r: Self) {
        OrderResponseDto { id: o.id, customer: o.customer, items: o.items, status: o.status }
    }
}

} // verus!
