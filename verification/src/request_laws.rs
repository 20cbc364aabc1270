//! What requests ask for, and what their replies come to: every argument is sent, every error
//! is reported, and every payload is handed on.

use vstd::prelude::*;

#[allow(unused_imports)]
use crate::json::{json_document, json_list, json_list_items, json_quoted, member_value, JsonView};
use crate::message::InBoundMessage;
#[allow(unused_imports)]
use crate::message_laws::law_list_holds_every_string;
#[allow(unused_imports)]
use crate::request::{cancellation_parts, Request};
#[allow(unused_imports)]
use crate::text::{debug_form, decimal, texts};

verus! {

/// A request for one token or market sends a list of its name alone.
pub proof fn law_named_thing_is_sent(name: String)
    ensures
        Request::SubscribeToInstrument(name).payload_spec() == "["@ + json_quoted(name@) + "]"@,
        Request::SubscribeToEvent(name).payload_spec() == "["@ + json_quoted(name@) + "]"@,
        Request::UnsubscribeFromInstrument(name).payload_spec() == "["@ + json_quoted(name@) + "]"@,
        Request::UnsubscribeFromEvent(name).payload_spec() == "["@ + json_quoted(name@) + "]"@,
        Request::GetPriceToBeat(name).payload_spec() == "["@ + json_quoted(name@) + "]"@,
        Request::FetchClobIdInformation(name).payload_spec() == "["@ + json_quoted(name@) + "]"@,
{
    let items = seq![name@];
    assert(json_list_items(items) == json_quoted(name@));
}

/// A search sends the text and the number of results that is asked for, ten where none is.
pub proof fn law_search_is_sent(query: String, limit: usize)
    ensures
        Request::SearchForMarkets(query, Some(limit)).payload_spec() == "["@ + json_quoted(query@)
            + ","@ + json_quoted(decimal(limit as nat)) + "]"@,
        Request::SearchForMarkets(query, None).payload_spec() == "["@ + json_quoted(query@) + ","@
            + json_quoted(decimal(10)) + "]"@,
{
    lemma_two_strings(query@, decimal(limit as nat));
    lemma_two_strings(query@, decimal(10));
}

proof fn lemma_two_strings(a: Seq<char>, b: Seq<char>)
    ensures
        json_list(seq![a, b]) == "["@ + json_quoted(a) + ","@ + json_quoted(b) + "]"@,
{
    let items = seq![a, b];
    assert(items.drop_last() =~= seq![a]);
    assert(json_list_items(seq![a]) == json_quoted(a));
    assert(json_list(items) =~= "["@ + json_quoted(a) + ","@ + json_quoted(b) + "]"@);
}

/// A request without arguments sends an empty list.
pub proof fn law_nothing_is_sent()
    ensures
        Request::RttToServer.payload_spec() == "["@ + "]"@,
        Request::RttToExchange.payload_spec() == "["@ + "]"@,
        Request::GetBalance.payload_spec() == "["@ + "]"@,
        Request::GetOrders.payload_spec() == "["@ + "]"@,
{
    assert("["@ + json_list_items(seq![]) + "]"@ =~= "["@ + "]"@);
}

/// Orders are sent as they are given: one as it is, several as a list under a name of its
/// own.
pub proof fn law_orders_are_sent(json: String)
    ensures
        Request::PlaceOrder(json).payload_spec() == json@,
        Request::PlaceMultipleOrders(json).payload_spec() == "{"@ + json_quoted("orders"@) + ":"@
            + json@ + "}"@,
{
}

/// A request about one order or token sends its ID under a name of its own.
pub proof fn law_id_is_sent(id: String)
    ensures
        Request::CancelOrder(id).payload_spec() == "{"@ + json_quoted("order_id"@) + ":"@
            + json_quoted(id@) + "}"@,
        Request::GetOrderStatus(id).payload_spec() == "{"@ + json_quoted("order_id"@) + ":"@
            + json_quoted(id@) + "}"@,
        Request::GetTokenBalance(id).payload_spec() == "{"@ + json_quoted("token_id"@) + ":"@
            + json_quoted(id@) + "}"@,
{
}

/// A cancellation of several orders sends all their IDs, each in its place, however many there
/// are: an object whose one member is the list of them.
pub proof fn law_every_order_is_cancelled(ids: Vec<String>)
    ensures
        Request::CancelMultipleOrders(ids).payload_spec() == "{"@ + json_quoted("order_ids"@)
            + ":"@ + ("["@ + Seq::new(
            ids@.len(),
            |i: int|
                if i == 0 {
                    json_quoted(ids@[i]@)
                } else {
                    ","@ + json_quoted(ids@[i]@)
                },
        ).flatten() + "]"@) + "}"@,
{
    let names = texts(ids@);
    law_list_holds_every_string(names);
    assert(Seq::new(
        names.len(),
        |i: int|
            if i == 0 {
                json_quoted(names[i])
            } else {
                ","@ + json_quoted(names[i])
            },
    ) =~= Seq::new(
        ids@.len(),
        |i: int|
            if i == 0 {
                json_quoted(ids@[i]@)
            } else {
                ","@ + json_quoted(ids@[i]@)
            },
    ));
}

/// The command names of the requests, whatever their arguments.
pub proof fn law_command_names(text: String, limit: Option<usize>, ids: Vec<String>)
    ensures
        Request::SubscribeToInstrument(text).action_spec() == "subscribe"@,
        Request::SubscribeToEvent(text).action_spec() == "subscribe_to_market_by_ticker"@,
        Request::UnsubscribeFromInstrument(text).action_spec() == "unsubscribe"@,
        Request::UnsubscribeFromEvent(text).action_spec() == "unsubscribe_from_market_by_ticker"@,
        Request::GetPriceToBeat(text).action_spec() == "get_price_to_beat"@,
        Request::FetchClobIdInformation(text).action_spec() == "fetch_clob_id_information"@,
        Request::SearchForMarkets(text, limit).action_spec() == "search_markets"@,
        Request::RttToServer.action_spec() == "ping"@,
        Request::RttToExchange.action_spec() == "rtt_to_exchange"@,
        Request::GetBalance.action_spec() == "get_balance"@,
        Request::GetOrders.action_spec() == "get_orders"@,
        Request::PlaceOrder(text).action_spec() == "place_order"@,
        Request::PlaceMultipleOrders(text).action_spec() == "place_multiple_orders"@,
        Request::CancelOrder(text).action_spec() == "cancel_order"@,
        Request::GetOrderStatus(text).action_spec() == "get_order_status"@,
        Request::GetTokenBalance(text).action_spec() == "get_token_balance"@,
        Request::CancelMultipleOrders(ids).action_spec() == "cancel_multiple_orders"@,
{
}

/// A reply without an error gives its payload, for every request.
pub proof fn law_payload_is_handed_on(request: Request, message: InBoundMessage)
    requires
        message.error is None,
    ensures
        request.outcome_spec(Ok(message)) == Ok::<Seq<char>, Seq<char>>(message.data@),
{
}

/// A reply with an error fails every request but an unsubscription, and the message ends with
/// the error as it is shown; an unsubscription pays no attention to it.
pub proof fn law_server_error_fails_the_request(
    request: Request,
    message: InBoundMessage,
    error: String,
)
    requires
        message.error == Some(error),
    ensures
        ({
            let outcome = request.outcome_spec(Ok(message));
            let shown = "Some("@ + debug_form(error@) + ")"@;
            if request is UnsubscribeFromInstrument || request is UnsubscribeFromEvent {
                outcome == Ok::<Seq<char>, Seq<char>>(message.data@)
            } else {
                &&& outcome matches Err(text)
                &&& text.len() > shown.len()
                &&& text.skip(text.len() - shown.len()) == shown
            }
        }),
{
    let shown = "Some("@ + debug_form(error@) + ")"@;
    if !(request is UnsubscribeFromInstrument || request is UnsubscribeFromEvent) {
        let prefix = request.server_error_prefix()->0;
        let text = request.outcome_spec(Ok(message))->Err_0;
        assert(text =~= prefix + shown);
        assert(text.skip(text.len() - shown.len()) =~= shown);
        lemma_prefixes_are_not_empty(request);
    }
}

proof fn lemma_prefixes_are_not_empty(request: Request)
    ensures
        request.server_error_prefix() matches Some(prefix) ==> prefix.len() > 0,
{
    reveal_strlit("Server error when subscribing to instrument: ");
    reveal_strlit("Server error when subscribing to event: ");
    reveal_strlit("Server error when searching for markets: ");
    reveal_strlit("Server error when getting price to beat: ");
    reveal_strlit("Error from server when pinging: ");
    reveal_strlit("Error from server when getting RTT to exchange: ");
    reveal_strlit("Error from server when fetching clob id information: ");
    reveal_strlit("Error from server when getting balance: ");
    reveal_strlit("Error from server when placing order: ");
    reveal_strlit("Error from server when placing multiple orders: ");
    reveal_strlit("Error from server when cancelling order: ");
    reveal_strlit("Error from server when cancelling multiple orders: ");
    reveal_strlit("Server error when fetching orders: ");
    reveal_strlit("Server error when fetching order status: ");
    reveal_strlit("Server error when fetching token balance: ");
}

/// The words before an error that the server reports.
pub proof fn law_server_errors_in_words(
    text: String,
    limit: Option<usize>,
    ids: Vec<String>,
    message: InBoundMessage,
    error: String,
)
    requires
        message.error == Some(error),
    ensures
        ({
            let shown = "Some("@ + debug_form(error@) + ")"@;
            let reply = Ok::<InBoundMessage, String>(message);
            &&& Request::SubscribeToInstrument(text).outcome_spec(reply) == Err::<Seq<char>, Seq<char>>(
                "Server error when subscribing to instrument: "@ + shown,
            )
            &&& Request::SubscribeToEvent(text).outcome_spec(reply) == Err::<Seq<char>, Seq<char>>(
                "Server error when subscribing to event: "@ + shown,
            )
            &&& Request::SearchForMarkets(text, limit).outcome_spec(reply) == Err::<Seq<char>, Seq<char>>(
                "Server error when searching for markets: "@ + shown,
            )
            &&& Request::GetPriceToBeat(text).outcome_spec(reply) == Err::<Seq<char>, Seq<char>>(
                "Server error when getting price to beat: "@ + shown,
            )
            &&& Request::RttToServer.outcome_spec(reply) == Err::<Seq<char>, Seq<char>>(
                "Error from server when pinging: "@ + shown,
            )
            &&& Request::RttToExchange.outcome_spec(reply) == Err::<Seq<char>, Seq<char>>(
                "Error from server when getting RTT to exchange: "@ + shown,
            )
            &&& Request::FetchClobIdInformation(text).outcome_spec(reply) == Err::<Seq<char>, Seq<char>>(
                "Error from server when fetching clob id information: "@ + shown,
            )
            &&& Request::GetBalance.outcome_spec(reply) == Err::<Seq<char>, Seq<char>>(
                "Error from server when getting balance: "@ + shown,
            )
            &&& Request::PlaceOrder(text).outcome_spec(reply) == Err::<Seq<char>, Seq<char>>(
                "Error from server when placing order: "@ + shown,
            )
            &&& Request::PlaceMultipleOrders(text).outcome_spec(reply) == Err::<Seq<char>, Seq<char>>(
                "Error from server when placing multiple orders: "@ + shown,
            )
            &&& Request::CancelOrder(text).outcome_spec(reply) == Err::<Seq<char>, Seq<char>>(
                "Error from server when cancelling order: "@ + shown,
            )
            &&& Request::CancelMultipleOrders(ids).outcome_spec(reply) == Err::<Seq<char>, Seq<char>>(
                "Error from server when cancelling multiple orders: "@ + shown,
            )
            &&& Request::GetOrders.outcome_spec(reply) == Err::<Seq<char>, Seq<char>>(
                "Server error when fetching orders: "@ + shown,
            )
            &&& Request::GetOrderStatus(text).outcome_spec(reply) == Err::<Seq<char>, Seq<char>>(
                "Server error when fetching order status: "@ + shown,
            )
            &&& Request::GetTokenBalance(text).outcome_spec(reply) == Err::<Seq<char>, Seq<char>>(
                "Server error when fetching token balance: "@ + shown,
            )
            &&& Request::SubscribeToInstrument(text).server_error_prefix() == Some(
                "Server error when subscribing to instrument: "@,
            )
            &&& Request::SubscribeToEvent(text).server_error_prefix() == Some(
                "Server error when subscribing to event: "@,
            )
            &&& Request::SearchForMarkets(text, limit).server_error_prefix() == Some(
                "Server error when searching for markets: "@,
            )
            &&& Request::GetPriceToBeat(text).server_error_prefix() == Some(
                "Server error when getting price to beat: "@,
            )
            &&& Request::RttToServer.server_error_prefix() == Some(
                "Error from server when pinging: "@,
            )
            &&& Request::RttToExchange.server_error_prefix() == Some(
                "Error from server when getting RTT to exchange: "@,
            )
            &&& Request::FetchClobIdInformation(text).server_error_prefix() == Some(
                "Error from server when fetching clob id information: "@,
            )
            &&& Request::GetBalance.server_error_prefix() == Some(
                "Error from server when getting balance: "@,
            )
            &&& Request::PlaceOrder(text).server_error_prefix() == Some(
                "Error from server when placing order: "@,
            )
            &&& Request::PlaceMultipleOrders(text).server_error_prefix() == Some(
                "Error from server when placing multiple orders: "@,
            )
            &&& Request::CancelOrder(text).server_error_prefix() == Some(
                "Error from server when cancelling order: "@,
            )
            &&& Request::CancelMultipleOrders(ids).server_error_prefix() == Some(
                "Error from server when cancelling multiple orders: "@,
            )
            &&& Request::GetOrders.server_error_prefix() == Some(
                "Server error when fetching orders: "@,
            )
            &&& Request::GetOrderStatus(text).server_error_prefix() == Some(
                "Server error when fetching order status: "@,
            )
            &&& Request::GetTokenBalance(text).server_error_prefix() == Some(
                "Server error when fetching token balance: "@,
            )
            &&& Request::UnsubscribeFromInstrument(text).server_error_prefix() is None
            &&& Request::UnsubscribeFromEvent(text).server_error_prefix() is None
        }),
{
    let shown = "Some("@ + debug_form(error@) + ")"@;
    let reply = Ok::<InBoundMessage, String>(message);
    assert(Request::SubscribeToInstrument(text).outcome_spec(reply)->Err_0 =~= "Server error when subscribing to instrument: "@ + shown);
    assert(Request::SubscribeToEvent(text).outcome_spec(reply)->Err_0 =~= "Server error when subscribing to event: "@ + shown);
    assert(Request::SearchForMarkets(text, limit).outcome_spec(reply)->Err_0 =~= "Server error when searching for markets: "@ + shown);
    assert(Request::GetPriceToBeat(text).outcome_spec(reply)->Err_0 =~= "Server error when getting price to beat: "@ + shown);
    assert(Request::RttToServer.outcome_spec(reply)->Err_0 =~= "Error from server when pinging: "@ + shown);
    assert(Request::RttToExchange.outcome_spec(reply)->Err_0 =~= "Error from server when getting RTT to exchange: "@ + shown);
    assert(Request::FetchClobIdInformation(text).outcome_spec(reply)->Err_0 =~= "Error from server when fetching clob id information: "@ + shown);
    assert(Request::GetBalance.outcome_spec(reply)->Err_0 =~= "Error from server when getting balance: "@ + shown);
    assert(Request::PlaceOrder(text).outcome_spec(reply)->Err_0 =~= "Error from server when placing order: "@ + shown);
    assert(Request::PlaceMultipleOrders(text).outcome_spec(reply)->Err_0 =~= "Error from server when placing multiple orders: "@ + shown);
    assert(Request::CancelOrder(text).outcome_spec(reply)->Err_0 =~= "Error from server when cancelling order: "@ + shown);
    assert(Request::CancelMultipleOrders(ids).outcome_spec(reply)->Err_0 =~= "Error from server when cancelling multiple orders: "@ + shown);
    assert(Request::GetOrders.outcome_spec(reply)->Err_0 =~= "Server error when fetching orders: "@ + shown);
    assert(Request::GetOrderStatus(text).outcome_spec(reply)->Err_0 =~= "Server error when fetching order status: "@ + shown);
    assert(Request::GetTokenBalance(text).outcome_spec(reply)->Err_0 =~= "Server error when fetching token balance: "@ + shown);
}

/// The words before the reason for which no reply came, and the requests that have none.
pub proof fn law_missing_replies_in_words(
    text: String,
    limit: Option<usize>,
    ids: Vec<String>,
    reason: String,
)
    ensures
        Request::SubscribeToInstrument(text).no_reply_prefix() == Some("Failed to get subscription confirmation: "@),
        Request::SubscribeToInstrument(text).outcome_spec(Err(reason)) == Err::<Seq<char>, Seq<char>>(
            "Failed to get subscription confirmation: "@ + reason@,
        ),
        Request::SubscribeToEvent(text).no_reply_prefix() == Some("Failed to get subscription confirmation: "@),
        Request::SubscribeToEvent(text).outcome_spec(Err(reason)) == Err::<Seq<char>, Seq<char>>(
            "Failed to get subscription confirmation: "@ + reason@,
        ),
        Request::UnsubscribeFromInstrument(text).no_reply_prefix() == Some("Failed to get unsubscription confirmation: "@),
        Request::UnsubscribeFromInstrument(text).outcome_spec(Err(reason)) == Err::<Seq<char>, Seq<char>>(
            "Failed to get unsubscription confirmation: "@ + reason@,
        ),
        Request::UnsubscribeFromEvent(text).no_reply_prefix() == Some("Failed to get unsubscription confirmation: "@),
        Request::UnsubscribeFromEvent(text).outcome_spec(Err(reason)) == Err::<Seq<char>, Seq<char>>(
            "Failed to get unsubscription confirmation: "@ + reason@,
        ),
        Request::SearchForMarkets(text, limit).no_reply_prefix() == Some("Failed to get search results: "@),
        Request::SearchForMarkets(text, limit).outcome_spec(Err(reason)) == Err::<Seq<char>, Seq<char>>(
            "Failed to get search results: "@ + reason@,
        ),
        Request::GetPriceToBeat(text).no_reply_prefix() == Some("Failed to get price to beat: "@),
        Request::GetPriceToBeat(text).outcome_spec(Err(reason)) == Err::<Seq<char>, Seq<char>>(
            "Failed to get price to beat: "@ + reason@,
        ),
        Request::GetOrders.no_reply_prefix() == Some("Failed to get orders: "@),
        Request::GetOrders.outcome_spec(Err(reason)) == Err::<Seq<char>, Seq<char>>(
            "Failed to get orders: "@ + reason@,
        ),
        Request::GetOrderStatus(text).no_reply_prefix() == Some("Failed to get order status: "@),
        Request::GetOrderStatus(text).outcome_spec(Err(reason)) == Err::<Seq<char>, Seq<char>>(
            "Failed to get order status: "@ + reason@,
        ),
        Request::GetTokenBalance(text).no_reply_prefix() == Some("Failed to get token balance: "@),
        Request::GetTokenBalance(text).outcome_spec(Err(reason)) == Err::<Seq<char>, Seq<char>>(
            "Failed to get token balance: "@ + reason@,
        ),
        Request::CancelOrder(text).no_reply_prefix() == Some(""@),
        Request::CancelOrder(text).outcome_spec(Err(reason)) == Err::<Seq<char>, Seq<char>>(
            reason@,
        ),
        Request::RttToServer.no_reply_prefix() is None,
        Request::RttToExchange.no_reply_prefix() is None,
        Request::FetchClobIdInformation(text).no_reply_prefix() is None,
        Request::GetBalance.no_reply_prefix() is None,
        Request::PlaceOrder(text).no_reply_prefix() is None,
        Request::PlaceMultipleOrders(text).no_reply_prefix() is None,
        Request::CancelMultipleOrders(ids).no_reply_prefix() is None,
{
    reveal_strlit("");
    assert(""@ + reason@ =~= reason@);
}

/// The words before the reason for which a payload cannot be read, and the requests that have
/// none.
pub proof fn law_unreadable_replies_in_words(
    text: String,
    limit: Option<usize>,
    ids: Vec<String>,
)
    ensures
        Request::SubscribeToInstrument(text).unreadable_prefix() == Some(
            "Failed to parse subscription response: "@,
        ),
        Request::SubscribeToEvent(text).unreadable_prefix() == Some(
            "Failed to parse subscription response: "@,
        ),
        Request::UnsubscribeFromInstrument(text).unreadable_prefix() == Some(
            "Failed to parse unsubscription response: "@,
        ),
        Request::UnsubscribeFromEvent(text).unreadable_prefix() == Some(
            "Failed to parse unsubscription response: "@,
        ),
        Request::SearchForMarkets(text, limit).unreadable_prefix() == Some(
            "Failed to parse market search results: "@,
        ),
        Request::GetPriceToBeat(text).unreadable_prefix() == Some(
            "Failed to parse price to beat: "@,
        ),
        Request::FetchClobIdInformation(text).unreadable_prefix() == Some(
            "Failed to parse CLOB info from response data: "@,
        ),
        Request::GetOrders.unreadable_prefix() == Some(
            "Failed to parse orders response: "@,
        ),
        Request::GetOrderStatus(text).unreadable_prefix() == Some(
            "Failed to parse order status response: "@,
        ),
        Request::GetTokenBalance(text).unreadable_prefix() == Some(
            "Failed to parse token balance response: "@,
        ),
        Request::RttToServer.unreadable_prefix() is None,
        Request::RttToExchange.unreadable_prefix() is None,
        Request::GetBalance.unreadable_prefix() is None,
        Request::PlaceOrder(text).unreadable_prefix() is None,
        Request::PlaceMultipleOrders(text).unreadable_prefix() is None,
        Request::CancelOrder(text).unreadable_prefix() is None,
        Request::CancelMultipleOrders(ids).unreadable_prefix() is None,
{
}

/// The reply to a cancellation gives its two members, each as it is, whatever else it holds;
/// without one of them, or if it is no object, it is refused.
pub proof fn law_cancellation_gives_both_members(members: Seq<(Seq<char>, Seq<char>)>)
    ensures
        ({
            let parts = cancellation_parts(Ok(JsonView::Object(members)));
            match (member_value(members, "not_canceled"@), member_value(members, "canceled"@)) {
                (Some(not_canceled), Some(canceled)) => parts == Ok::<
                    (Seq<char>, Seq<char>),
                    Seq<char>,
                >((not_canceled, canceled)),
                (None, _) => parts == Err::<(Seq<char>, Seq<char>), Seq<char>>(
                    "Failed to get `not_canceled` key from order cancellation response data"@,
                ),
                (Some(_), None) => parts == Err::<(Seq<char>, Seq<char>), Seq<char>>(
                    "Unable to get `canceled` key from order cancellation response data"@,
                ),
            }
        }),
        forall|document: Result<JsonView, Seq<char>>|
            !(document matches Ok(JsonView::Object(_))) ==> #[trigger] cancellation_parts(document)
                == Err::<(Seq<char>, Seq<char>), Seq<char>>(
                "Failed to parse order cancellation response data"@,
            ),
{
}

} // verus!
