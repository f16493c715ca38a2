//! Data model: rows of the persistent store, request payloads, and the error
//! taxonomy of the service.
//!
//! Timestamps are carried as plain milliseconds since the Unix epoch; the
//! clock itself lives outside the library and every mutating operation takes
//! the current time as an argument. Prices are carried as integer cents.

use vstd::prelude::*;

verus! {

/// Status of an order, the four legal values of the transition engine.
#[derive(Clone, Copy, PartialEq, Eq, Structural, Debug)]
pub enum OrderStatus {
    Pending,
    Preparing,
    Ready,
    Completed,
}

/// Status of a queue token. `Called` is reachable only through a legacy
/// queue-update path that this engine does not exercise; the engine itself
/// only produces `Waiting` and `Ready`.
#[derive(Clone, Copy, PartialEq, Eq, Structural, Debug)]
pub enum TokenStatus {
    Waiting,
    Ready,
    Called,
}

/// Why a request was refused.
///
/// The first three are client errors (bad input, nothing mutated),
/// `OrderNotFound` is the distinct not-found case, and `Storage` is the
/// service-side failure: for this in-memory store the only such failure is
/// exhaustion of the row-identifier space.
#[derive(Clone, Copy, PartialEq, Eq, Structural, Debug)]
pub enum ApiError {
    EmptyItems,
    NonPositiveQuantity,
    UnknownMenuItem,
    InvalidStatus,
    BadTimestamp,
    OrderNotFound,
    Storage,
}

impl ApiError {
    /// The HTTP status code class of this error: 400 for client errors,
    /// 404 for a missing order, 500 for a storage failure.
    pub fn http_status(&self) -> (code: u16)
        ensures
            code == 400 <==> self.is_client_error(),
            code == match *self {
                ApiError::EmptyItems => 400u16,
                ApiError::NonPositiveQuantity => 400u16,
                ApiError::UnknownMenuItem => 400u16,
                ApiError::InvalidStatus => 400u16,
                ApiError::BadTimestamp => 400u16,
                ApiError::OrderNotFound => 404u16,
                ApiError::Storage => 500u16,
            },
    {
        match *self {
            ApiError::EmptyItems => 400,
            ApiError::NonPositiveQuantity => 400,
            ApiError::UnknownMenuItem => 400,
            ApiError::InvalidStatus => 400,
            ApiError::BadTimestamp => 400,
            ApiError::OrderNotFound => 404,
            ApiError::Storage => 500,
        }
    }

    /// True of the errors reported as a bad request rather than a missing
    /// resource or a service failure.
    pub open spec fn is_client_error(&self) -> bool {
        match *self {
            ApiError::EmptyItems => true,
            ApiError::NonPositiveQuantity => true,
            ApiError::UnknownMenuItem => true,
            ApiError::InvalidStatus => true,
            ApiError::BadTimestamp => true,
            ApiError::OrderNotFound => false,
            ApiError::Storage => false,
        }
    }
}

/// A menu row, owned by the menu collaborator; the engine only reads
/// existence and availability and joins name, price and image into
/// detailed order views.
#[derive(Clone, Debug)]
pub struct MenuItem {
    pub id: i32,
    pub name: String,
    pub price_cents: i64,
    pub available: bool,
    pub image_url: Option<String>,
    pub created_at: i64,
    pub updated_at: i64,
}

/// One customer order.
#[derive(Clone, Debug)]
pub struct Order {
    pub id: i32,
    pub source: String,
    pub status: OrderStatus,
    pub created_at: i64,
    pub updated_at: i64,
}

/// One (order, menu item, quantity) line of an order.
#[derive(Clone, Copy, PartialEq, Eq, Structural, Debug)]
pub struct OrderItem {
    pub id: i32,
    pub order_id: i32,
    pub menu_item_id: i32,
    pub quantity: i32,
}

/// One requested line of a new order.
#[derive(Clone, Copy, PartialEq, Eq, Structural, Debug)]
pub struct CreateOrderItem {
    pub menu_item_id: i32,
    pub quantity: i32,
}

/// The payload of an order-creation request.
#[derive(Clone, Debug)]
pub struct CreateOrder {
    pub source: String,
    pub items: Vec<CreateOrderItem>,
}

/// The queue-position record derived from an order; the publicly visible
/// row of the waiting-area displays.
#[derive(Clone, Copy, PartialEq, Eq, Structural, Debug)]
pub struct QueueToken {
    pub id: i32,
    pub order_id: i32,
    pub token_number: i32,
    pub status: TokenStatus,
    pub created_at: i64,
}

/// The payload of a status-change request.
#[derive(Clone, Debug)]
pub struct UpdateOrderStatus {
    pub status: String,
}

/// An order joined with its line items and their menu data.
#[derive(Clone, Debug)]
pub struct OrderDetailed {
    pub order: Order,
    pub items: Vec<OrderItemDetailed>,
}

/// One order line joined with the name, price and image of its menu item.
#[derive(Clone, Debug)]
pub struct OrderItemDetailed {
    pub id: i32,
    pub order_id: i32,
    pub menu_item_id: i32,
    pub quantity: i32,
    pub menu_name: String,
    pub menu_price_cents: i64,
    pub menu_image: Option<String>,
}

/// The query string of the incremental sync endpoints: an optional RFC 3339
/// lower bound on the updated timestamp.
#[derive(Clone, Debug)]
pub struct SinceQuery {
    pub since: Option<String>,
}

} // verus!
