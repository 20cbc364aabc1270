//! The requests that the server answers: what is sent, and what the reply comes to.

use vstd::prelude::*;
use vstd::string::*;

use crate::json::{
    find_member, json_list_text, json_object_text, quote_json, read_json, read_string_list,
};
use crate::json::JsonNode;
#[allow(unused_imports)]
use crate::json::{
    document_view, json_document, json_list, json_object, json_quoted, json_string_list,
    member_value, JsonView,
};
#[allow(unused_imports)]
use crate::message::is_drawn_at_random;
use crate::message::{InBoundMessage, OutBoundMessage};
use crate::text::{debug_text, decimal_text};
#[allow(unused_imports)]
use crate::text::{debug_form, decimal, is_uuid_text, text_result, texts};
use crate::types::{OrderCancelled, OrderPlacedMsg, PlaceMultipleOrdersResponse};

verus! {

/// The number of search results that are asked for where nothing else is said.
pub const DEFAULT_SEARCH_LIMIT: usize = 10;

/// The number of search results that are asked for.
pub open spec fn search_limit(limit: Option<usize>) -> nat {
    match limit {
        Some(limit) => limit as nat,
        None => DEFAULT_SEARCH_LIMIT as nat,
    }
}

/// A request to the server.
#[derive(Debug)]
pub enum Request {
    /// Stream the order book of an outcome token.
    SubscribeToInstrument(String),
    /// Stream the order books of all outcome tokens of a market.
    SubscribeToEvent(String),
    /// Stop streaming the order book of an outcome token.
    UnsubscribeFromInstrument(String),
    /// Stop streaming the order books of a market.
    UnsubscribeFromEvent(String),
    /// Find market tickers that contain a text, at most so many of them.
    SearchForMarkets(String, Option<usize>),
    /// The strike price of a market.
    GetPriceToBeat(String),
    /// A sign of life.
    RttToServer,
    /// The latency between the server and the exchange.
    RttToExchange,
    /// What is known of an outcome token.
    FetchClobIdInformation(String),
    /// The cash balance of the account.
    GetBalance,
    /// Place the order that is given as a JSON text.
    PlaceOrder(String),
    /// Place the orders that are given as the JSON text of a list.
    PlaceMultipleOrders(String),
    /// Cancel an order.
    CancelOrder(String),
    /// Cancel several orders.
    CancelMultipleOrders(Vec<String>),
    /// The open orders of the account.
    GetOrders,
    /// The state of an order.
    GetOrderStatus(String),
    /// The balance of the account in an outcome token.
    GetTokenBalance(String),
}

impl Request {
    /// The command name of the request.
    pub open spec fn action_spec(self) -> Seq<char> {
        match self {
            Request::SubscribeToInstrument(_) => "subscribe"@,
            Request::SubscribeToEvent(_) => "subscribe_to_market_by_ticker"@,
            Request::UnsubscribeFromInstrument(_) => "unsubscribe"@,
            Request::UnsubscribeFromEvent(_) => "unsubscribe_from_market_by_ticker"@,
            Request::SearchForMarkets(_, _) => "search_markets"@,
            Request::GetPriceToBeat(_) => "get_price_to_beat"@,
            Request::RttToServer => "ping"@,
            Request::RttToExchange => "rtt_to_exchange"@,
            Request::FetchClobIdInformation(_) => "fetch_clob_id_information"@,
            Request::GetBalance => "get_balance"@,
            Request::PlaceOrder(_) => "place_order"@,
            Request::PlaceMultipleOrders(_) => "place_multiple_orders"@,
            Request::CancelOrder(_) => "cancel_order"@,
            Request::CancelMultipleOrders(_) => "cancel_multiple_orders"@,
            Request::GetOrders => "get_orders"@,
            Request::GetOrderStatus(_) => "get_order_status"@,
            Request::GetTokenBalance(_) => "get_token_balance"@,
        }
    }

    /// The payload of the request, a JSON text.
    pub open spec fn payload_spec(self) -> Seq<char> {
        match self {
            Request::SubscribeToInstrument(id) => json_list(seq![id@]),
            Request::SubscribeToEvent(ticker) => json_list(seq![ticker@]),
            Request::UnsubscribeFromInstrument(id) => json_list(seq![id@]),
            Request::UnsubscribeFromEvent(ticker) => json_list(seq![ticker@]),
            Request::SearchForMarkets(query, limit) => json_list(
                seq![query@, decimal(search_limit(limit))],
            ),
            Request::GetPriceToBeat(ticker) => json_list(seq![ticker@]),
            Request::RttToServer => json_list(seq![]),
            Request::RttToExchange => json_list(seq![]),
            Request::FetchClobIdInformation(id) => json_list(seq![id@]),
            Request::GetBalance => json_list(seq![]),
            Request::PlaceOrder(order) => order@,
            Request::PlaceMultipleOrders(orders) => json_object("orders"@, orders@),
            Request::CancelOrder(id) => json_object("order_id"@, json_quoted(id@)),
            Request::CancelMultipleOrders(ids) => json_object("order_ids"@, json_list(texts(ids@))),
            Request::GetOrders => json_list(seq![]),
            Request::GetOrderStatus(id) => json_object("order_id"@, json_quoted(id@)),
            Request::GetTokenBalance(id) => json_object("token_id"@, json_quoted(id@)),
        }
    }

    /// What stands before the reason for which no reply came. `None` for a request that
    /// cannot go on without a reply.
    pub open spec fn no_reply_prefix(self) -> Option<Seq<char>> {
        match self {
            Request::SubscribeToInstrument(_) | Request::SubscribeToEvent(_) => Some(
                "Failed to get subscription confirmation: "@,
            ),
            Request::UnsubscribeFromInstrument(_) | Request::UnsubscribeFromEvent(_) => Some(
                "Failed to get unsubscription confirmation: "@,
            ),
            Request::SearchForMarkets(_, _) => Some("Failed to get search results: "@),
            Request::GetPriceToBeat(_) => Some("Failed to get price to beat: "@),
            Request::CancelOrder(_) => Some(""@),
            Request::GetOrders => Some("Failed to get orders: "@),
            Request::GetOrderStatus(_) => Some("Failed to get order status: "@),
            Request::GetTokenBalance(_) => Some("Failed to get token balance: "@),
            _ => None,
        }
    }

    /// What stands before an error that the server reports. `None` for a request that
    /// pays no attention to such an error.
    pub open spec fn server_error_prefix(self) -> Option<Seq<char>> {
        match self {
            Request::SubscribeToInstrument(_) => Some(
                "Server error when subscribing to instrument: "@,
            ),
            Request::SubscribeToEvent(_) => Some("Server error when subscribing to event: "@),
            Request::UnsubscribeFromInstrument(_) => None,
            Request::UnsubscribeFromEvent(_) => None,
            Request::SearchForMarkets(_, _) => Some("Server error when searching for markets: "@),
            Request::GetPriceToBeat(_) => Some("Server error when getting price to beat: "@),
            Request::RttToServer => Some("Error from server when pinging: "@),
            Request::RttToExchange => Some("Error from server when getting RTT to exchange: "@),
            Request::FetchClobIdInformation(_) => Some(
                "Error from server when fetching clob id information: "@,
            ),
            Request::GetBalance => Some("Error from server when getting balance: "@),
            Request::PlaceOrder(_) => Some("Error from server when placing order: "@),
            Request::PlaceMultipleOrders(_) => Some(
                "Error from server when placing multiple orders: "@,
            ),
            Request::CancelOrder(_) => Some("Error from server when cancelling order: "@),
            Request::CancelMultipleOrders(_) => Some(
                "Error from server when cancelling multiple orders: "@,
            ),
            Request::GetOrders => Some("Server error when fetching orders: "@),
            Request::GetOrderStatus(_) => Some("Server error when fetching order status: "@),
            Request::GetTokenBalance(_) => Some("Server error when fetching token balance: "@),
        }
    }

    /// What stands before the reason for which the payload of a reply cannot be read. `None`
    /// for a request that cannot go on without a readable payload.
    pub open spec fn unreadable_prefix(self) -> Option<Seq<char>> {
        match self {
            Request::SubscribeToInstrument(_) | Request::SubscribeToEvent(_) => Some(
                "Failed to parse subscription response: "@,
            ),
            Request::UnsubscribeFromInstrument(_) | Request::UnsubscribeFromEvent(_) => Some(
                "Failed to parse unsubscription response: "@,
            ),
            Request::SearchForMarkets(_, _) => Some("Failed to parse market search results: "@),
            Request::GetPriceToBeat(_) => Some("Failed to parse price to beat: "@),
            Request::FetchClobIdInformation(_) => Some(
                "Failed to parse CLOB info from response data: "@,
            ),
            Request::GetOrders => Some("Failed to parse orders response: "@),
            Request::GetOrderStatus(_) => Some("Failed to parse order status response: "@),
            Request::GetTokenBalance(_) => Some("Failed to parse token balance response: "@),
            _ => None,
        }
    }

    /// What a reply, or the reason for which none came, comes to: the payload, or a message.
    pub open spec fn outcome_spec(self, reply: Result<InBoundMessage, String>) -> Result<
        Seq<char>,
        Seq<char>,
    > {
        match reply {
            Err(reason) => Err(self.no_reply_prefix()->0 + reason@),
            Ok(message) => match (self.server_error_prefix(), message.error) {
                (Some(prefix), Some(error)) => Err(
                    prefix + "Some("@ + debug_form(error@) + ")"@,
                ),
                _ => Ok(message.data@),
            },
        }
    }

    /// The command name of the request.
    pub fn action(&self) -> (action: &'static str)
        ensures
            action@ == self.action_spec(),
    {
        match self {
            Request::SubscribeToInstrument(_) => "subscribe",
            Request::SubscribeToEvent(_) => "subscribe_to_market_by_ticker",
            Request::UnsubscribeFromInstrument(_) => "unsubscribe",
            Request::UnsubscribeFromEvent(_) => "unsubscribe_from_market_by_ticker",
            Request::SearchForMarkets(_, _) => "search_markets",
            Request::GetPriceToBeat(_) => "get_price_to_beat",
            Request::RttToServer => "ping",
            Request::RttToExchange => "rtt_to_exchange",
            Request::FetchClobIdInformation(_) => "fetch_clob_id_information",
            Request::GetBalance => "get_balance",
            Request::PlaceOrder(_) => "place_order",
            Request::PlaceMultipleOrders(_) => "place_multiple_orders",
            Request::CancelOrder(_) => "cancel_order",
            Request::CancelMultipleOrders(_) => "cancel_multiple_orders",
            Request::GetOrders => "get_orders",
            Request::GetOrderStatus(_) => "get_order_status",
            Request::GetTokenBalance(_) => "get_token_balance",
        }
    }

    /// The payload of the request, a JSON text.
    pub fn payload(&self) -> (json: String)
        ensures
            json@ == self.payload_spec(),
    {
        match self {
            Request::SubscribeToInstrument(id) => json_list_of(id),
            Request::SubscribeToEvent(ticker) => json_list_of(ticker),
            Request::UnsubscribeFromInstrument(id) => json_list_of(id),
            Request::UnsubscribeFromEvent(ticker) => json_list_of(ticker),
            Request::SearchForMarkets(query, limit) => {
                let count: usize = limit.unwrap_or(DEFAULT_SEARCH_LIMIT);
                let items = vec![query.clone(), decimal_text(count)];
                assert(texts(items@) =~= seq![query@, decimal(count as nat)]);
                json_list_text(&items)
            },
            Request::GetPriceToBeat(ticker) => json_list_of(ticker),
            Request::RttToServer => empty_json_list(),
            Request::RttToExchange => empty_json_list(),
            Request::FetchClobIdInformation(id) => json_list_of(id),
            Request::GetBalance => empty_json_list(),
            Request::PlaceOrder(order) => order.clone(),
            Request::PlaceMultipleOrders(orders) => json_object_text("orders", orders.as_str()),
            Request::CancelOrder(id) => json_object_text(
                "order_id",
                quote_json(id.as_str()).as_str(),
            ),
            Request::CancelMultipleOrders(ids) => json_object_text(
                "order_ids",
                json_list_text(ids).as_str(),
            ),
            Request::GetOrders => empty_json_list(),
            Request::GetOrderStatus(id) => json_object_text(
                "order_id",
                quote_json(id.as_str()).as_str(),
            ),
            Request::GetTokenBalance(id) => json_object_text(
                "token_id",
                quote_json(id.as_str()).as_str(),
            ),
        }
    }

    /// The message that makes the request. A correlation ID is generated if none is given.
    pub fn message(&self, correlation_id: Option<String>) -> (message: OutBoundMessage)
        ensures
            message@.action == self.action_spec(),
            message@.data == self.payload_spec(),
            match correlation_id {
                Some(id) => message@.correlation_id == id@,
                None => {
                    &&& is_uuid_text(message@.correlation_id)
                    &&& is_drawn_at_random(message@.correlation_id)
                },
            },
    {
        OutBoundMessage::new(self.action().to_string(), self.payload(), correlation_id)
    }

    /// What a reply, or the reason for which none came, comes to: the payload of the reply, or
    /// a message about what went wrong.
    pub fn outcome(&self, reply: Result<InBoundMessage, String>) -> (outcome: Result<
        String,
        String,
    >)
        requires
            reply is Err ==> self.no_reply_prefix() is Some,
        ensures
            match outcome {
                Ok(data) => self.outcome_spec(reply) == Ok::<Seq<char>, Seq<char>>(data@),
                Err(message) => self.outcome_spec(reply) == Err::<Seq<char>, Seq<char>>(message@),
            },
    {
        match reply {
            Err(reason) => {
                let prefix = match self {
                    Request::SubscribeToInstrument(_)
                    | Request::SubscribeToEvent(_) => "Failed to get subscription confirmation: ",
                    Request::UnsubscribeFromInstrument(_)
                    | Request::UnsubscribeFromEvent(_) => "Failed to get unsubscription confirmation: ",
                    Request::SearchForMarkets(_, _) => "Failed to get search results: ",
                    Request::GetPriceToBeat(_) => "Failed to get price to beat: ",
                    Request::GetOrders => "Failed to get orders: ",
                    Request::GetOrderStatus(_) => "Failed to get order status: ",
                    Request::GetTokenBalance(_) => "Failed to get token balance: ",
                    _ => "",
                };
                Err(prefix.to_string().concat(reason.as_str()))
            },
            Ok(message) => match message.error {
                Some(error) => match self.server_error(debug_text(error.as_str()).as_str()) {
                    Some(text) => Err(text),
                    None => Ok(message.data),
                },
                None => Ok(message.data),
            },
        }
    }

    /// The message about an error that the server reports, which is shown as `shown`. `None`
    /// for a request that pays no attention to such an error.
    pub fn server_error(&self, shown: &str) -> (message: Option<String>)
        ensures
            match self.server_error_prefix() {
                Some(prefix) => {
                    &&& message matches Some(text)
                    &&& text@ == prefix + "Some("@ + shown@ + ")"@
                },
                None => message is None,
            },
    {
        let prefix = match self {
            Request::UnsubscribeFromInstrument(_) | Request::UnsubscribeFromEvent(_) => return None,
            Request::SubscribeToInstrument(_) => "Server error when subscribing to instrument: ",
            Request::SubscribeToEvent(_) => "Server error when subscribing to event: ",
            Request::SearchForMarkets(_, _) => "Server error when searching for markets: ",
            Request::GetPriceToBeat(_) => "Server error when getting price to beat: ",
            Request::RttToServer => "Error from server when pinging: ",
            Request::RttToExchange => "Error from server when getting RTT to exchange: ",
            Request::FetchClobIdInformation(
                _,
            ) => "Error from server when fetching clob id information: ",
            Request::GetBalance => "Error from server when getting balance: ",
            Request::PlaceOrder(_) => "Error from server when placing order: ",
            Request::PlaceMultipleOrders(_) => "Error from server when placing multiple orders: ",
            Request::CancelOrder(_) => "Error from server when cancelling order: ",
            Request::CancelMultipleOrders(
                _,
            ) => "Error from server when cancelling multiple orders: ",
            Request::GetOrders => "Server error when fetching orders: ",
            Request::GetOrderStatus(_) => "Server error when fetching order status: ",
            Request::GetTokenBalance(_) => "Server error when fetching token balance: ",
        };
        let mut text = prefix.to_string();
        text.append("Some(");
        text.append(shown);
        text.append(")");
        Some(text)
    }

    /// The message about a reply whose payload cannot be read, for the reason given.
    pub fn unreadable(&self, reason: &str) -> (message: String)
        requires
            self.unreadable_prefix() is Some,
        ensures
            message@ == self.unreadable_prefix()->0 + reason@,
    {
        let prefix = match self {
            Request::SubscribeToInstrument(_)
            | Request::SubscribeToEvent(_) => "Failed to parse subscription response: ",
            Request::UnsubscribeFromInstrument(_)
            | Request::UnsubscribeFromEvent(_) => "Failed to parse unsubscription response: ",
            Request::SearchForMarkets(_, _) => "Failed to parse market search results: ",
            Request::GetPriceToBeat(_) => "Failed to parse price to beat: ",
            Request::FetchClobIdInformation(_) => "Failed to parse CLOB info from response data: ",
            Request::GetOrders => "Failed to parse orders response: ",
            Request::GetOrderStatus(_) => "Failed to parse order status response: ",
            _ => "Failed to parse token balance response: ",
        };
        prefix.to_string().concat(reason)
    }
}

fn json_list_of(item: &String) -> (json: String)
    ensures
        json@ == json_list(seq![item@]),
{
    let items = vec![item.clone()];
    assert(texts(items@) =~= seq![item@]);
    json_list_text(&items)
}

fn empty_json_list() -> (json: String)
    ensures
        json@ == json_list(seq![]),
{
    let items: Vec<String> = Vec::new();
    assert(texts(items@) =~= seq![]);
    json_list_text(&items)
}

/// The market tickers that a search came to, given what reading the payload gave.
pub fn search_results(list: Result<Vec<String>, String>) -> (tickers: Result<Vec<String>, String>)
    ensures
        match list {
            Ok(items) => tickers == Ok::<Vec<String>, String>(items),
            Err(reason) => {
                &&& tickers matches Err(message)
                &&& message@ == "Failed to parse market search results: "@ + reason@
            },
        },
{
    match list {
        Ok(items) => Ok(items),
        Err(reason) => Err(
            "Failed to parse market search results: ".to_string().concat(reason.as_str()),
        ),
    }
}

/// Reads the payload of the reply to a market search.
pub fn read_search_results(data: &str) -> (tickers: Result<Vec<String>, String>)
    ensures
        match json_string_list(data@) {
            Ok(items) => tickers matches Ok(list) && texts(list@) == items,
            Err(reason) => {
                &&& tickers matches Err(message)
                &&& message@ == "Failed to parse market search results: "@ + reason
            },
        },
{
    search_results(read_string_list(data))
}

/// The two members of the reply to a cancellation: `not_canceled` and `canceled`.
pub open spec fn cancellation_parts(document: Result<JsonView, Seq<char>>) -> Result<
    (Seq<char>, Seq<char>),
    Seq<char>,
> {
    match document {
        Ok(JsonView::Object(members)) => match member_value(members, "not_canceled"@) {
            None => Err(
                "Failed to get `not_canceled` key from order cancellation response data"@,
            ),
            Some(not_canceled) => match member_value(members, "canceled"@) {
                None => Err("Unable to get `canceled` key from order cancellation response data"@),
                Some(canceled) => Ok((not_canceled, canceled)),
            },
        },
        _ => Err("Failed to parse order cancellation response data"@),
    }
}

/// The two members of the reply to a cancellation, `not_canceled` and `canceled`, as JSON
/// texts, given what reading the payload gave.
pub fn cancellation_members(document: Result<JsonNode, String>) -> (parts: Result<
    (String, String),
    String,
>)
    ensures
        match parts {
            Ok((not_canceled, canceled)) => cancellation_parts(document_view(document)) == Ok::<
                (Seq<char>, Seq<char>),
                Seq<char>,
            >((not_canceled@, canceled@)),
            Err(message) => cancellation_parts(document_view(document)) == Err::<
                (Seq<char>, Seq<char>),
                Seq<char>,
            >(message@),
        },
{
    match document {
        Ok(JsonNode::Object(members)) => {
            let not_canceled = match find_member(&members, "not_canceled") {
                Some(value) => value,
                None => return Err(
                    "Failed to get `not_canceled` key from order cancellation response data".to_string(),
                ),
            };
            match find_member(&members, "canceled") {
                Some(canceled) => Ok((not_canceled, canceled)),
                None => Err(
                    "Unable to get `canceled` key from order cancellation response data".to_string(),
                ),
            }
        },
        _ => Err("Failed to parse order cancellation response data".to_string()),
    }
}

/// Reads the payload of the reply to a cancellation: an object whose `canceled` member is a
/// list of order IDs and whose `not_canceled` member can be any value.
pub fn read_cancellation(data: &str) -> (cancelled: Result<OrderCancelled, String>)
    ensures
        match cancellation_parts(json_document(data@)) {
            Ok((not_canceled, canceled)) => match json_string_list(canceled) {
                Ok(ids) => {
                    &&& cancelled matches Ok(order)
                    &&& order.not_canceled@ == not_canceled
                    &&& texts(order.canceled@) == ids
                },
                Err(reason) => cancelled matches Err(message) && message@ == reason,
            },
            Err(reason) => cancelled matches Err(message) && message@ == reason,
        },
{
    match cancellation_members(read_json(data)) {
        Ok((not_canceled, canceled)) => match read_string_list(canceled.as_str()) {
            Ok(ids) => Ok(OrderCancelled { not_canceled, canceled: ids }),
            Err(reason) => Err(reason),
        },
        Err(reason) => Err(reason),
    }
}

/// The acknowledgements of the orders that were placed; those of the orders that failed are
/// dropped.
pub fn placed_orders(response: PlaceMultipleOrdersResponse) -> (placed: Vec<OrderPlacedMsg>)
    ensures
        placed == response.success,
{
    response.success
}

/// The time between two readings of the clock, in milliseconds.
pub fn round_trip_millis(sent: u128, received: u128) -> (elapsed: u128)
    requires
        sent <= received,
    ensures
        elapsed == received - sent,
{
    received - sent
}

} // verus!
