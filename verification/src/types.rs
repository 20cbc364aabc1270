//! The data that requests and replies carry.

use vstd::prelude::*;

verus! {

/// Which side of a trade the account was on.
#[derive(Debug, Clone, Copy, PartialEq, Eq, Structural)]
pub enum TraderSide {
    Maker,
    Taker,
}

/// The state of an order or of a trade.
#[derive(Debug, Clone, Copy, PartialEq, Eq, Structural)]
pub enum OrderStatus {
    Live,
    Matched,
    Delayed,
    Unmatched,
    Cancelled,
    Mined,
    Confirmed,
    Failed,
}

/// How long an order stays on the book.
#[derive(Debug, Clone, Copy, PartialEq, Eq, Structural)]
pub enum OrderType {
    GTC,
    GTD,
    FOK,
    FAK,
}

/// Whether an order buys or sells.
#[derive(Debug, Clone, Copy, PartialEq, Eq, Structural)]
pub enum OrderSide {
    Buy,
    Sell,
}

/// The acknowledgement of one placed order.
#[derive(Debug, Clone)]
pub struct OrderPlacedMsg {
    pub error_msg: String,
    pub order_id: String,
    pub taking_amount: String,
    pub making_amount: String,
    pub status: String,
    pub success: bool,
}

/// The reply to a request that places several orders; `failed` holds JSON texts.
#[derive(Debug, Clone)]
pub struct PlaceMultipleOrdersResponse {
    pub success: Vec<OrderPlacedMsg>,
    pub failed: Vec<String>,
}

/// The reply to a cancellation; `not_canceled` is a JSON text.
#[derive(Debug, Clone)]
pub struct OrderCancelled {
    pub not_canceled: String,
    pub canceled: Vec<String>,
}

/// The reply to a subscription.
#[derive(Debug, Clone)]
pub struct SubscriptionResponse {
    pub subscribed: Vec<String>,
    pub failed: Vec<String>,
}

/// The reply to an unsubscription.
#[derive(Debug, Clone)]
pub struct UnsubscriptionResponse {
    pub subscribed: Vec<String>,
    pub failed: Vec<String>,
}

/// What the server knows of an outcome token.
#[derive(Debug, Clone)]
pub struct CLOBInfo {
    pub event_name: String,
    pub market_name: String,
    pub outcome: String,
    pub ticker: String,
    pub market_slug: String,
    pub aot_p2_symbol: String,
}

} // verus!
