//! What messages hold once they are read, decompressed or written: each field on its own, and
//! payloads of any kind and size.

use vstd::prelude::*;
#[allow(unused_imports)]
use vstd::utf8::{
    decode_utf8, encode_utf8, encode_utf8_decode_utf8, encode_utf8_valid_utf8, valid_utf8,
};

#[allow(unused_imports)]
use crate::json::{
    compacted, document_view, is_member_value, is_quoted, json_compact, json_document, json_escape,
    json_escaped, json_items, json_list, json_list_items, json_members, json_object,
    json_object_of, json_quoted, member_texts, member_value, nesting, nesting_scan, JsonNode,
    JsonView,
};
#[allow(unused_imports)]
use crate::message::{
    after_pipe, base64_bytes, echo, inbound_view, inflated, message_in, outbound_json,
    outbound_packet, packet_text, with_payload, zlib_text, InBoundMessage, InBoundView,
    OutBoundMessage, OutBoundView,
};
#[allow(unused_imports)]
use crate::process::is_pushed_action;
#[allow(unused_imports)]
use crate::text::{
    all_digits, decimal, digits_value, is_digit, law_decimal_reads_back, lemma_decimal_is_digits,
    pad_left, repeated, spelled_number,
};

verus! {

/// A lookup gives the value of the member with the key, wherever it stands.
pub proof fn law_member_is_found(
    members: Seq<(Seq<char>, Seq<char>)>,
    key: Seq<char>,
    i: int,
)
    requires
        0 <= i < members.len(),
        members[i].0 == key,
        forall|j: int| 0 <= j < i ==> (#[trigger] members[j]).0 != key,
    ensures
        member_value(members, key) == Some(members[i].1),
    decreases members.len(),
{
    if i > 0 {
        let rest = members.drop_first();
        assert(members[0].0 != key);
        assert forall|j: int| 0 <= j < i - 1 implies (#[trigger] rest[j]).0 != key by {
            assert(rest[j] == members[j + 1]);
        }
        assert(rest[i - 1] == members[i]);
        law_member_is_found(rest, key, i - 1);
    }
}

/// A lookup gives nothing if no member has the key.
pub proof fn law_missing_member_is_missed(members: Seq<(Seq<char>, Seq<char>)>, key: Seq<char>)
    requires
        forall|j: int| 0 <= j < members.len() ==> (#[trigger] members[j]).0 != key,
    ensures
        member_value(members, key) is None,
    decreases members.len(),
{
    if members.len() > 0 {
        let rest = members.drop_first();
        assert(members[0].0 != key);
        assert forall|j: int| 0 <= j < rest.len() implies (#[trigger] rest[j]).0 != key by {
            assert(rest[j] == members[j + 1]);
        }
        law_missing_member_is_missed(rest, key);
    }
}

/// Each field of a message is that of the member with its name, whatever the other members
/// hold: a string action, any data, and an error, a mark and a correlation ID that may be
/// missing or `null`.
pub proof fn law_each_field_is_its_own_member(
    json: Seq<char>,
    members: Seq<(Seq<char>, Seq<char>)>,
    action: Seq<char>,
    data: Seq<char>,
)
    requires
        json_document(json) == Ok::<JsonView, Seq<char>>(JsonView::Object(members)),
        member_value(members, "action"@) is Some,
        json_document(member_value(members, "action"@)->0) == Ok::<JsonView, Seq<char>>(
            JsonView::Text(action),
        ),
        member_value(members, "data"@) == Some(data),
        member_value(members, "error"@) matches Some(text) ==> {
            ||| json_document(text) == Ok::<JsonView, Seq<char>>(JsonView::Null)
            ||| json_document(text) matches Ok(JsonView::Text(_))
        },
        member_value(members, "compressed"@) matches Some(text) ==> {
            ||| json_document(text) == Ok::<JsonView, Seq<char>>(JsonView::Null)
            ||| json_document(text) matches Ok(JsonView::Bool(_))
        },
        member_value(members, "correlation_id"@) matches Some(text) ==> {
            ||| json_document(text) == Ok::<JsonView, Seq<char>>(JsonView::Null)
            ||| json_document(text) matches Ok(JsonView::Text(_))
        },
    ensures
        message_in(json) is Some,
        message_in(json)->0.action == action,
        message_in(json)->0.data == data,
        match member_value(members, "error"@) {
            Some(text) => match json_document(text) {
                Ok(JsonView::Text(value)) => message_in(json)->0.error == Some(value),
                _ => message_in(json)->0.error is None,
            },
            None => message_in(json)->0.error is None,
        },
        match member_value(members, "compressed"@) {
            Some(text) => match json_document(text) {
                Ok(JsonView::Bool(value)) => message_in(json)->0.compressed == Some(value),
                _ => message_in(json)->0.compressed is None,
            },
            None => message_in(json)->0.compressed is None,
        },
        match member_value(members, "correlation_id"@) {
            Some(text) => match json_document(text) {
                Ok(JsonView::Text(value)) => message_in(json)->0.correlation_id == Some(value),
                _ => message_in(json)->0.correlation_id is None,
            },
            None => message_in(json)->0.correlation_id is None,
        },
{
}

/// A list of five is read as a message field by field: action, data, error, mark and
/// correlation ID.
pub proof fn law_list_is_read_in_order(
    json: Seq<char>,
    items: Seq<Seq<char>>,
    action: Seq<char>,
    error: Seq<char>,
    mark: bool,
    id: Seq<char>,
)
    requires
        json_document(json) == Ok::<JsonView, Seq<char>>(JsonView::List(items)),
        items.len() == 5,
        json_document(items[0]) == Ok::<JsonView, Seq<char>>(JsonView::Text(action)),
        json_document(items[2]) == Ok::<JsonView, Seq<char>>(JsonView::Text(error)),
        json_document(items[3]) == Ok::<JsonView, Seq<char>>(JsonView::Bool(mark)),
        json_document(items[4]) == Ok::<JsonView, Seq<char>>(JsonView::Text(id)),
    ensures
        message_in(json) is Some,
        message_in(json)->0.action == action,
        message_in(json)->0.data == items[1],
        message_in(json)->0.error == Some(error),
        message_in(json)->0.compressed == Some(mark),
        message_in(json)->0.correlation_id == Some(id),
{
}

/// Only an object, or a list of five, is a message; its action is a string, it has data, and
/// its error, mark and correlation ID are of their kinds.
pub proof fn law_what_is_no_message(json: Seq<char>)
    ensures
        match json_document(json) {
            Ok(JsonView::Object(members)) => {
                &&& member_value(members, "action"@) is None ==> message_in(json) is None
                &&& member_value(members, "data"@) is None ==> message_in(json) is None
                &&& member_value(members, "action"@) matches Some(text) ==> !(json_document(
                    text,
                ) matches Ok(JsonView::Text(_))) ==> message_in(json) is None
                &&& member_value(members, "error"@) matches Some(text) ==> !(json_document(
                    text,
                ) matches Ok(JsonView::Text(_))) && json_document(text) != Ok::<
                    JsonView,
                    Seq<char>,
                >(JsonView::Null) ==> message_in(json) is None
                &&& member_value(members, "compressed"@) matches Some(text) ==> !(json_document(
                    text,
                ) matches Ok(JsonView::Bool(_))) && json_document(text) != Ok::<
                    JsonView,
                    Seq<char>,
                >(JsonView::Null) ==> message_in(json) is None
                &&& member_value(members, "correlation_id"@) matches Some(text) ==> !(
                json_document(text) matches Ok(JsonView::Text(_))) && json_document(text) != Ok::<
                    JsonView,
                    Seq<char>,
                >(JsonView::Null) ==> message_in(json) is None
            },
            Ok(JsonView::List(items)) => items.len() != 5 ==> message_in(json) is None,
            _ => message_in(json) is None,
        },
{
}

/// A payload that is the base64 text of a zlib stream of a JSON document is replaced by that
/// document, letter for letter, whatever its kind and size; the mark is cleared, and the rest
/// of the message stays.
pub proof fn law_payload_is_inflated(
    message: InBoundView,
    text: Seq<char>,
    bytes: Seq<u8>,
    json: Seq<char>,
)
    requires
        message.compressed == Some(true),
        json_document(message.data) == Ok::<JsonView, Seq<char>>(JsonView::Text(text)),
        base64_bytes(text) == Some(bytes),
        zlib_text(bytes) == Some(json),
        json_document(json) is Ok,
    ensures
        ({
            let after = with_payload(message, inflated(message.data));
            &&& after.data == json
            &&& after.compressed == Some(false)
            &&& after.action == message.action
            &&& after.error == message.error
            &&& after.correlation_id == message.correlation_id
        }),
{
}

/// A message that is not marked as compressed stays as it is, and so does one whose payload
/// is no string, no base64 text, no zlib stream of a text, or no JSON document inside.
pub proof fn law_other_payloads_stay(message: InBoundView)
    requires
        message.compressed == Some(true) ==> match json_document(message.data) {
            Ok(JsonView::Text(text)) => match base64_bytes(text) {
                Some(bytes) => match zlib_text(bytes) {
                    Some(json) => json_document(json) is Err,
                    None => true,
                },
                None => true,
            },
            _ => true,
        },
    ensures
        with_payload(message, inflated(message.data)) == message,
{
}

/// Two messages with the same mark and payload come out with the same mark and payload,
/// whatever else they hold.
pub proof fn law_inflation_looks_at_the_payload_alone(a: InBoundView, b: InBoundView)
    requires
        a.data == b.data,
        a.compressed == b.compressed,
    ensures
        with_payload(a, inflated(a.data)).data == with_payload(b, inflated(b.data)).data,
        with_payload(a, inflated(a.data)).compressed == with_payload(
            b,
            inflated(b.data),
        ).compressed,
{
}

/// A payload is put in the place of that of a marked message as it is, and in no other place.
pub proof fn law_payload_is_replaced(message: InBoundView, payload: Seq<char>)
    ensures
        message.compressed == Some(true) ==> {
            let after = with_payload(message, Some(payload));
            &&& after.data == payload
            &&& after.compressed == Some(false)
            &&& after.action == message.action
            &&& after.error == message.error
            &&& after.correlation_id == message.correlation_id
        },
        message.compressed != Some(true) ==> with_payload(message, Some(payload)) == message,
        with_payload(message, None) == message,
{
}

/// The JSON text of a request: its action and its correlation ID as strings, and its payload
/// as it is.
pub proof fn law_request_is_written_out(request: OutBoundView)
    ensures
        outbound_json(request) == "{\"action\":"@ + json_quoted(request.action) + ",\"data\":"@
            + request.data + ",\"correlation_id\":"@ + json_quoted(request.correlation_id) + "}"@,
        outbound_packet(request) == encode_utf8(packet_text(outbound_json(request))),
{
}

/// A request that is read back has the action, the payload and the correlation ID that it was
/// written with, and no error and no mark.
pub proof fn law_echo_is_the_request(request: OutBoundView)
    ensures
        echo(request).action == request.action,
        echo(request).correlation_id == Some(request.correlation_id),
        echo(request).error is None,
        echo(request).compressed is None,
        is_quoted(request.data) ==> echo(request).data == request.data,
        !is_quoted(request.data) ==> echo(request).data == json_compact(
            json_document(request.data)->Ok_0,
        ),
        json_document(request.data) is Ok && nesting(request.data) < 100
            ==> is_member_value(request.data),
        is_quoted(request.data) ==> is_member_value(request.data),
{
}

/// The header of a JSON packet is `~` and a number of at least four digits, which is the
/// number of bytes behind the `|`; it has no leading zeros beyond the fourth digit.
pub proof fn law_header_counts_the_bytes(json: Seq<char>)
    ensures
        ({
            let text = packet_text(json);
            let at = text.len() - json.len() - 1;
            let digits = text.subrange(1, at);
            &&& at >= 5
            &&& text[0] == '~'
            &&& text[at] == '|'
            &&& text.skip(at + 1) == json
            &&& forall|i: int|
                0 <= i < digits.len() ==> '0' <= #[trigger] digits[i] && digits[i] <= '9'
            &&& digits_value(digits) == encode_utf8(json).len()
            &&& digits.len() > 4 ==> digits == decimal(encode_utf8(json).len())
        }),
{
    let n = encode_utf8(json).len();
    let number = decimal(n);
    let digits = pad_left(number, '0', 4);
    let text = packet_text(json);
    reveal_strlit("~");
    reveal_strlit("|");
    let at = 1 + digits.len() as int;
    assert(text.len() == at + 1 + json.len());
    assert(text.skip(at + 1) =~= json);
    assert(text.subrange(1, at) =~= digits);
    lemma_decimal_is_digits(n);
    law_decimal_reads_back(n);
    assert(is_digit(number[0]));
    assert(digits_value(number) == n);
    lemma_zeros_in_front((digits.len() - number.len()) as nat, number);
    assert(digits =~= repeated('0', (digits.len() - number.len()) as nat) + number);
    assert forall|i: int| 0 <= i < digits.len() implies '0' <= #[trigger] digits[i] && digits[i]
        <= '9' by {
        if i >= digits.len() - number.len() {
            assert(is_digit(number[i - (digits.len() - number.len())]));
        }
    }
}

proof fn lemma_zeros_in_front(count: nat, number: Seq<char>)
    ensures
        digits_value(repeated('0', count) + number) == digits_value(number),
    decreases number.len() + count,
{
    let all = repeated('0', count) + number;
    if number.len() > 0 {
        assert(all.drop_last() =~= repeated('0', count) + number.drop_last());
        lemma_zeros_in_front(count, number.drop_last());
    } else if count > 0 {
        assert(all.drop_last() =~= repeated('0', (count - 1) as nat) + number);
        lemma_zeros_in_front((count - 1) as nat, number);
        assert(number =~= Seq::empty());
    } else {
        assert(all =~= number);
    }
}

/// What stands behind the first `|` comes without it, and what stands before it holds no `|`;
/// a text without a `|` has nothing there.
pub proof fn law_text_comes_apart_at_the_pipe(text: Seq<char>)
    ensures
        match after_pipe(text) {
            Some(rest) => {
                let at = text.len() - rest.len() - 1;
                &&& at >= 0
                &&& text[at] == '|'
                &&& text.skip(at + 1) == rest
                &&& forall|i: int| 0 <= i < at ==> text[i] != '|'
            },
            None => forall|i: int| 0 <= i < text.len() ==> text[i] != '|',
        },
{
    text.index_of_first_ensures('|');
    match text.index_of_first('|') {
        Some(i) => {
            let rest = text.skip(i + 1);
            assert(text.len() - rest.len() - 1 == i);
        },
        None => {
            assert forall|i: int| 0 <= i < text.len() implies text[i] != '|' by {
                if text[i] == '|' {
                    assert(text.contains('|'));
                }
            }
        },
    }
}

/// The server pushes three actions by itself, and no others.
pub proof fn law_what_is_pushed(action: Seq<char>)
    ensures
        is_pushed_action(action) <==> (action == "notification"@ || action == "fatal_error"@
            || action == "account_update"@),
{
}

/// Messages are looked at with all their fields.
pub proof fn law_message_views(inbound: InBoundMessage, outbound: OutBoundMessage)
    ensures
        inbound@.action == inbound.action@,
        inbound@.data == inbound.data@,
        inbound.error is None ==> inbound@.error is None,
        inbound.error is Some ==> inbound@.error == Some(inbound.error->0@),
        inbound@.compressed == inbound.compressed,
        inbound.correlation_id is None ==> inbound@.correlation_id is None,
        inbound.correlation_id is Some ==> inbound@.correlation_id == Some(
            inbound.correlation_id->0@,
        ),
        outbound@.action == outbound.action@,
        outbound@.data == outbound.data@,
        outbound@.correlation_id == outbound.correlation_id@,
        inbound_view(Some(inbound)) == Some(inbound@),
        inbound_view(None) is None,
{
}

/// JSON documents are looked at with all that they hold.
pub proof fn law_document_views(
    node: JsonNode,
    message: String,
    text: String,
    items: Vec<String>,
    members: Vec<(String, String)>,
    flag: bool,
    integer: Option<u64>,
)
    ensures
        document_view(Ok(node)) == Ok::<JsonView, Seq<char>>(node@),
        document_view(Err(message)) == Err::<JsonView, Seq<char>>(message@),
        JsonNode::Null@ == JsonView::Null,
        JsonNode::Bool(flag)@ == JsonView::Bool(flag),
        (JsonNode::Number { text, integer })@ == (JsonView::Number { text: text@, integer }),
        JsonNode::Text(text)@ == JsonView::Text(text@),
        JsonNode::List(items)@ matches JsonView::List(list) && list.len() == items@.len() && (
        forall|i: int| 0 <= i < items@.len() ==> #[trigger] list[i] == items@[i]@),
        JsonNode::Object(members)@ matches JsonView::Object(list) && list.len() == members@.len()
            && (forall|i: int|
            0 <= i < members@.len() ==> (#[trigger] list[i]).0 == members@[i].0@ && list[i].1
                == members@[i].1@),
{
}

/// A JSON list of strings holds each of them, in order, with commas between them, however many
/// there are.
pub proof fn law_list_holds_every_string(items: Seq<Seq<char>>)
    ensures
        json_list(items) == "["@ + Seq::new(
            items.len(),
            |i: int|
                if i == 0 {
                    json_quoted(items[i])
                } else {
                    ","@ + json_quoted(items[i])
                },
        ).flatten() + "]"@,
{
    let parts = Seq::new(
        items.len(),
        |i: int|
            if i == 0 {
                json_quoted(items[i])
            } else {
                ","@ + json_quoted(items[i])
            },
    );
    lemma_list_items(items, parts);
    parts.lemma_flatten_and_flatten_alt_are_equivalent();
}

proof fn lemma_list_items(items: Seq<Seq<char>>, parts: Seq<Seq<char>>)
    requires
        parts.len() == items.len(),
        forall|i: int|
            0 <= i < items.len() ==> #[trigger] parts[i] == if i == 0 {
                json_quoted(items[i])
            } else {
                ","@ + json_quoted(items[i])
            },
    ensures
        json_list_items(items) == parts.flatten_alt(),
    decreases items.len(),
{
    reveal_with_fuel(Seq::flatten_alt, 2);
    if items.len() == 1 {
        assert(parts[0] == json_quoted(items[0]));
        assert(parts.drop_last() =~= Seq::empty());
        assert(parts.flatten_alt() =~= json_quoted(items[0]));
    } else if items.len() > 1 {
        let n = items.len() - 1;
        lemma_list_items(items.drop_last(), parts.drop_last());
        assert(parts[n] == ","@ + json_quoted(items[n]));
        assert(parts.flatten_alt() =~= parts.drop_last().flatten_alt() + parts[n]);
        assert(json_list_items(items) =~= parts.flatten_alt());
    }
}

/// A JSON object holds each of its members, in order, with commas between them, however many
/// there are.
pub proof fn law_object_holds_every_member(members: Seq<(Seq<char>, Seq<char>)>)
    ensures
        json_object_of(members) == "{"@ + Seq::new(
            members.len(),
            |i: int|
                if i == 0 {
                    json_quoted(members[i].0) + ":"@ + members[i].1
                } else {
                    ","@ + (json_quoted(members[i].0) + ":"@ + members[i].1)
                },
        ).flatten() + "}"@,
{
    let parts = Seq::new(
        members.len(),
        |i: int|
            if i == 0 {
                json_quoted(members[i].0) + ":"@ + members[i].1
            } else {
                ","@ + (json_quoted(members[i].0) + ":"@ + members[i].1)
            },
    );
    lemma_members(members, parts);
    parts.lemma_flatten_and_flatten_alt_are_equivalent();
}

proof fn lemma_members(members: Seq<(Seq<char>, Seq<char>)>, parts: Seq<Seq<char>>)
    requires
        parts.len() == members.len(),
        forall|i: int|
            0 <= i < members.len() ==> #[trigger] parts[i] == if i == 0 {
                json_quoted(members[i].0) + ":"@ + members[i].1
            } else {
                ","@ + (json_quoted(members[i].0) + ":"@ + members[i].1)
            },
    ensures
        json_members(members) == parts.flatten_alt(),
    decreases members.len(),
{
    reveal_with_fuel(Seq::flatten_alt, 2);
    if members.len() == 1 {
        assert(parts.drop_last() =~= Seq::empty());
        assert(parts.flatten_alt() =~= parts[0]);
    } else if members.len() > 1 {
        let n = members.len() - 1;
        lemma_members(members.drop_last(), parts.drop_last());
        assert(parts[n] == ","@ + (json_quoted(members[n].0) + ":"@ + members[n].1));
        assert(parts.flatten_alt() =~= parts.drop_last().flatten_alt() + parts[n]);
        assert(json_members(members) =~= parts.flatten_alt());
    }
}

/// A character stands in a JSON string behind those before it, and as itself unless it is a
/// quotation mark, a backslash or a control character.
pub proof fn law_strings_are_quoted_character_by_character(text: Seq<char>, c: char)
    ensures
        json_escaped(Seq::empty()).len() == 0,
        json_escaped(text.push(c)) == json_escaped(text) + json_escape(c),
        (c as u32) >= 0x20 && c != '"' && c != '\\' ==> json_escape(c) == seq![c],
        json_escape('"') == seq!['\\', '"'],
        json_escape('\\') == seq!['\\', '\\'],
        json_escape('\n') == seq!['\\', 'n'],
        json_quoted(text) == seq!['"'] + json_escaped(text) + seq!['"'],
{
    assert(text.push(c).drop_last() =~= text);
}

/// The nesting of a JSON text starts at nothing, and grows by one at most with each character,
/// and only with one that opens a list or an object.
pub proof fn law_nesting_grows_with_brackets(text: Seq<char>, c: char)
    ensures
        nesting(Seq::empty()) == 0,
        nesting(text) <= nesting(text.push(c)) <= nesting(text) + 1,
        c != '[' && c != '{' ==> nesting(text.push(c)) == nesting(text),
{
    assert(text.push(c).drop_last() =~= text);
    lemma_depth_is_covered(text);
}

proof fn lemma_depth_is_covered(text: Seq<char>)
    ensures
        nesting_scan(text).depth <= nesting_scan(text).deepest,
    decreases text.len(),
{
    if text.len() > 0 {
        lemma_depth_is_covered(text.drop_last());
    }
}

/// The compact form of each kind of document.
pub proof fn law_compact_forms(
    number: Seq<char>,
    integer: Option<u64>,
    text: Seq<char>,
    items: Seq<Seq<char>>,
    members: Seq<(Seq<char>, Seq<char>)>,
)
    ensures
        json_compact(JsonView::Null) == "null"@,
        json_compact(JsonView::Bool(true)) == "true"@,
        json_compact(JsonView::Bool(false)) == "false"@,
        json_compact(JsonView::Number { text: number, integer }) == number,
        json_compact(JsonView::Text(text)) == json_quoted(text),
        json_compact(JsonView::List(items)) == "["@ + Seq::new(
            items.len(),
            |i: int|
                if i == 0 {
                    items[i]
                } else {
                    ","@ + items[i]
                },
        ).flatten() + "]"@,
        json_compact(JsonView::Object(members)) == json_object_of(members),
{
    let parts = Seq::new(
        items.len(),
        |i: int|
            if i == 0 {
                items[i]
            } else {
                ","@ + items[i]
            },
    );
    lemma_items(items, parts);
    parts.lemma_flatten_and_flatten_alt_are_equivalent();
}

proof fn lemma_items(items: Seq<Seq<char>>, parts: Seq<Seq<char>>)
    requires
        parts.len() == items.len(),
        forall|i: int|
            0 <= i < items.len() ==> #[trigger] parts[i] == if i == 0 {
                items[i]
            } else {
                ","@ + items[i]
            },
    ensures
        json_items(items) == parts.flatten_alt(),
    decreases items.len(),
{
    reveal_with_fuel(Seq::flatten_alt, 2);
    if items.len() == 1 {
        assert(parts.drop_last() =~= Seq::empty());
        assert(parts.flatten_alt() =~= parts[0]);
    } else if items.len() > 1 {
        let n = items.len() - 1;
        lemma_items(items.drop_last(), parts.drop_last());
        assert(parts[n] == ","@ + items[n]);
        assert(parts.flatten_alt() =~= parts.drop_last().flatten_alt() + parts[n]);
        assert(json_items(items) =~= parts.flatten_alt());
    }
}

} // verus!
