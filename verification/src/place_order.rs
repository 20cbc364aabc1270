//! Orders to be placed.

use vstd::prelude::*;
use vstd::string::*;

use crate::types::OrderSide;

verus! {

/// An order to be placed. `F` is the type of prices and sizes.
#[derive(Debug, Clone)]
pub struct PlaceOrder<F> {
    pub token_id: String,
    pub price: F,
    pub size: F,
    pub side: String,
    pub order_type: String,
}

/// The name of a side on the wire.
pub open spec fn side_name(side: OrderSide) -> Seq<char> {
    match side {
        OrderSide::Buy => "buy"@,
        OrderSide::Sell => "sell"@,
    }
}

/// The message about an order whose value does not reach the minimum.
pub open spec fn too_small(order_value: Seq<char>, order: Seq<char>) -> Seq<char> {
    "Order value is too small: "@ + order_value
        + ". Order value must be greater than 1. Order="@ + order
}

impl<F> PlaceOrder<F> {
    /// Constructs a new `PlaceOrder`.
    ///
    /// `token_id` is the CLOB outcome token ID. `price` is in cents on the dollar and `size`
    /// is the number of shares. `order_type` defaults to `"GTC"` (Good-Till-Cancelled) if
    /// `None`; also accepts `"GTD"`, `"FOK"` (Fill-Or-Kill), and `"FAK"` (Fill-And-Kill).
    pub fn new(
        token_id: &str,
        price: F,
        size: F,
        side: OrderSide,
        order_type: Option<&str>,
    ) -> (order: Self)
        ensures
            order.token_id@ == token_id@,
            order.price == price,
            order.size == size,
            order.side@ == side_name(side),
            order.order_type@ == (match order_type {
                Some(name) => name@,
                None => "GTC"@,
            }),
    {
        PlaceOrder {
            token_id: token_id.to_string(),
            price,
            size,
            side: match side {
                OrderSide::Buy => "buy".to_string(),
                OrderSide::Sell => "sell".to_string(),
            },
            order_type: match order_type {
                Some(name) => name.to_string(),
                None => "GTC".to_string(),
            },
        }
    }

    /// Whether an order meets the minimum notional value, given whether its value, price times
    /// size, is above 1, and the value and the order in words.
    pub fn is_marketable(above_minimum: bool, order_value: &str, order: &str) -> (verdict: Result<
        (),
        String,
    >)
        ensures
            match verdict {
                Ok(_) => above_minimum,
                Err(message) => !above_minimum && message@ == too_small(order_value@, order@),
            },
    {
        if above_minimum {
            Ok(())
        } else {
            let mut message = "Order value is too small: ".to_string();
            message.append(order_value);
            message.append(". Order value must be greater than 1. Order=");
            message.append(order);
            Err(message)
        }
    }
}

/// A buying order says so, and a selling order says the other.
pub proof fn law_sides_have_their_names()
    ensures
        side_name(OrderSide::Buy) == "buy"@,
        side_name(OrderSide::Sell) == "sell"@,
        side_name(OrderSide::Buy) != side_name(OrderSide::Sell),
{
    reveal_strlit("buy");
    reveal_strlit("sell");
    assert("buy"@.len() == 3);
    assert("sell"@.len() == 4);
}

/// The message about a small order names its value and the order.
pub proof fn law_small_order_is_described(order_value: Seq<char>, order: Seq<char>)
    ensures
        too_small(order_value, order) == "Order value is too small: "@ + order_value
            + ". Order value must be greater than 1. Order="@ + order,
{
}

} // verus!
