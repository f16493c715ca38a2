//! The request-level operations of the service: each mutation runs against
//! the store and, on success, publishes a fresh queue snapshot to every
//! connected subscriber, so what a viewer receives is exactly what a direct
//! queue read right after the mutation returns. The incremental sync reads
//! parse their optional RFC 3339 bound and filter by it.

use vstd::prelude::*;
use crate::models::{ApiError, CreateOrder, MenuItem, Order, OrderStatus, SinceQuery, UpdateOrderStatus};
use crate::registry::{delivered, Registry};
use crate::store::Store;

verus! {

/// The instant, in milliseconds since the Unix epoch, denoted by an RFC 3339
/// date-and-time string, or `None` when the string is not one. A function of
/// the string alone.
pub uninterp spec fn rfc3339_millis(s: Seq<char>) -> Option<i64>;

/// Relies on chrono's `DateTime::parse_from_rfc3339`, which parses RFC 3339
/// date-and-time strings, and on `timestamp_millis`, which converts the
/// parsed instant to milliseconds since the Unix epoch; both depend on the
/// string alone.
#[verifier::external_body]
fn parse_rfc3339_millis(s: &str) -> (r: Option<i64>)
    ensures
        r == rfc3339_millis(s@),
{
    match chrono::DateTime::parse_from_rfc3339(s) {
        Ok(dt) => Some(dt.timestamp_millis()),
        Err(_) => None,
    }
}

/// The client-input checks of an order-creation request, for a caller that
/// drives its own store: `None` exactly when the request has at least one
/// line and every quantity is positive, otherwise the error the request is
/// refused with, checked in that order.
pub fn validate_order_request(req: &CreateOrder) -> (r: Option<ApiError>)
    ensures
        r == if req.items@.len() == 0 {
            Some(ApiError::EmptyItems)
        } else if !crate::store::items_all_positive(req.items@) {
            Some(ApiError::NonPositiveQuantity)
        } else {
            None::<ApiError>
        },
{
    if req.items.len() == 0 {
        return Some(ApiError::EmptyItems);
    }
    let mut i: usize = 0;
    while i < req.items.len()
        invariant
            0 <= i <= req.items@.len(),
            forall|j: int| 0 <= j < i ==> (#[trigger] req.items@[j]).quantity > 0,
        decreases req.items@.len() - i,
    {
        if req.items[i].quantity <= 0 {
            return Some(ApiError::NonPositiveQuantity);
        }
        i = i + 1;
    }
    None
}

/// Publish one queue snapshot: read the current queue and deliver it to
/// every connected subscriber. Serves the manual broadcast trigger and runs
/// after every successful mutation.
pub fn broadcast_queue(store: &Store, registry: &mut Registry)
    requires
        old(registry).wf(),
    ensures
        final(registry).wf(),
        delivered(*old(registry), *final(registry), store.tokens@),
{
    let snapshot = store.list_queue();
    registry.publish(&snapshot);
}

/// Order intake: create the order transactionally, then publish the new
/// queue state to every connected viewer. On a refusal neither the store nor
/// any subscriber sees a change.
pub fn create_order(
    store: &mut Store,
    registry: &mut Registry,
    req: CreateOrder,
    now: i64,
) -> (r: Result<i32, ApiError>)
    requires
        old(store).wf(),
        old(registry).wf(),
    ensures
        final(store).wf(),
        final(registry).wf(),
        match r {
            Ok(id) => {
                &&& old(store).create_order_check(req) is None
                &&& Store::create_order_ok(*old(store), *final(store), req, now, id)
                &&& delivered(*old(registry), *final(registry), final(store).tokens@)
            },
            Err(e) => {
                &&& *final(store) == *old(store)
                &&& *final(registry) == *old(registry)
                &&& old(store).create_order_check(req) == Some(e)
            },
        },
{
    match store.create_order(req, now) {
        Ok(id) => {
            broadcast_queue(store, registry);
            Ok(id)
        },
        Err(e) => Err(e),
    }
}

/// Status change: apply the transition and its queue-token effect
/// transactionally, then publish the new queue state to every connected
/// viewer. On a refusal neither the store nor any subscriber sees a change.
pub fn update_order_status(
    store: &mut Store,
    registry: &mut Registry,
    order_id: i32,
    payload: UpdateOrderStatus,
    now: i64,
) -> (r: Result<OrderStatus, ApiError>)
    requires
        old(store).wf(),
        old(registry).wf(),
    ensures
        final(store).wf(),
        final(registry).wf(),
        match r {
            Ok(st) => {
                &&& crate::status::status_of(payload.status@) == Some(st)
                &&& crate::store::has_order(old(store).orders@, order_id)
                &&& Store::set_status_ok(*old(store), *final(store), order_id, st, now)
                &&& delivered(*old(registry), *final(registry), final(store).tokens@)
            },
            Err(e) => {
                &&& *final(store) == *old(store)
                &&& *final(registry) == *old(registry)
                &&& match crate::status::status_of(payload.status@) {
                    None => e == ApiError::InvalidStatus,
                    Some(_) => {
                        &&& !crate::store::has_order(old(store).orders@, order_id)
                        &&& e == ApiError::OrderNotFound
                    },
                }
            },
        },
{
    match store.set_status(order_id, payload.status.as_str(), now) {
        Ok(st) => {
            broadcast_queue(store, registry);
            Ok(st)
        },
        Err(e) => Err(e),
    }
}

/// The incremental order read, sorted by updated timestamp with the most
/// recently updated order first: every order when no bound is given; with a
/// bound, exactly the orders updated strictly after it; a malformed bound is
/// a client error. Orders sharing a timestamp may come in either order.
pub fn sync_orders(store: &Store, q: SinceQuery) -> (r: Result<Vec<Order>, ApiError>)
    ensures
        match q.since {
            None => {
                &&& r matches Ok(v)
                &&& crate::store::sorted_by_updated_desc(v@)
                &&& v@.to_multiset() == store.orders@.to_multiset()
            },
            Some(s) => match rfc3339_millis(s@) {
                None => r matches Err(e) && e == ApiError::BadTimestamp,
                Some(ts) => {
                    &&& r matches Ok(v)
                    &&& crate::store::sorted_by_updated_desc(v@)
                    &&& v@.to_multiset()
                        == store.orders@.filter(|o: Order| o.updated_at > ts).to_multiset()
                },
            },
        },
{
    match q.since {
        None => Ok(crate::store::sort_by_updated_desc(store.list_order_rows())),
        Some(s) => match parse_rfc3339_millis(s.as_str()) {
            None => Err(ApiError::BadTimestamp),
            Some(ts) => Ok(crate::store::sort_by_updated_desc(store.orders_updated_since(ts))),
        },
    }
}

/// The incremental menu read: every menu row when no bound is given; with a
/// bound, the rows updated strictly after it, in row order; a malformed
/// bound is a client error.
pub fn sync_menu(store: &Store, q: SinceQuery) -> (r: Result<Vec<MenuItem>, ApiError>)
    ensures
        match q.since {
            None => r matches Ok(v) && v@ == store.menu@,
            Some(s) => match rfc3339_millis(s@) {
                None => r matches Err(e) && e == ApiError::BadTimestamp,
                Some(ts) => r matches Ok(v)
                    && v@ == store.menu@.filter(|m: MenuItem| m.updated_at > ts),
            },
        },
{
    match q.since {
        None => Ok(store.list_menu_rows()),
        Some(s) => match parse_rfc3339_millis(s.as_str()) {
            None => Err(ApiError::BadTimestamp),
            Some(ts) => Ok(store.menu_updated_since(ts)),
        },
    }
}

} // verus!
