//! JSON messages: building, framing, unframing and decompressing them.

use base64::Engine;
use std::io::Read;
use vstd::prelude::*;
use vstd::slice::slice_to_vec;
use vstd::string::*;
#[allow(unused_imports)]
use vstd::utf8::{decode_utf8, encode_utf8, valid_utf8};

use crate::json::{find_member, quote_json, read_json, JsonNode};
#[allow(unused_imports)]
use crate::json::{
    are_members, compacted, document_view, holds_members, is_member_value, json_document,
    json_escape, json_escaped, json_items, json_members, json_object_of, json_quoted, member_texts,
    member_value, reads_written_object, reads_written_string, JsonView,
};
#[allow(unused_imports)]
use crate::laws::law_unframing_undoes_framing;
use crate::packet::ProtocolFns;
use crate::text::{decimal_text, lossy_text, push_padded};
#[allow(unused_imports)]
use crate::text::{decimal, is_uuid_text, optional_text, pad_left, received_text, texts};

verus! {

/// A request to the server. `data` is a JSON text.
#[derive(Debug, Clone)]
pub struct OutBoundMessage {
    pub action: String,
    pub data: String,
    pub correlation_id: String,
}

/// A message from the server. `data` is a JSON text.
#[derive(Debug, Clone)]
pub struct InBoundMessage {
    pub action: String,
    pub data: String,
    pub error: Option<String>,
    pub compressed: Option<bool>,
    pub correlation_id: Option<String>,
}

/// An [`OutBoundMessage`] as a mathematical value.
pub ghost struct OutBoundView {
    pub action: Seq<char>,
    pub data: Seq<char>,
    pub correlation_id: Seq<char>,
}

/// An [`InBoundMessage`] as a mathematical value.
pub ghost struct InBoundView {
    pub action: Seq<char>,
    pub data: Seq<char>,
    pub error: Option<Seq<char>>,
    pub compressed: Option<bool>,
    pub correlation_id: Option<Seq<char>>,
}

impl View for OutBoundMessage {
    type V = OutBoundView;

    open spec fn view(&self) -> OutBoundView {
        OutBoundView {
            action: self.action@,
            data: self.data@,
            correlation_id: self.correlation_id@,
        }
    }
}

impl View for InBoundMessage {
    type V = InBoundView;

    open spec fn view(&self) -> InBoundView {
        InBoundView {
            action: self.action@,
            data: self.data@,
            error: optional_text(self.error),
            compressed: self.compressed,
            correlation_id: optional_text(self.correlation_id),
        }
    }
}

/// The JSON object of a request.
pub open spec fn outbound_json(message: OutBoundView) -> Seq<char> {
    "{\"action\":"@ + json_quoted(message.action) + ",\"data\":"@ + message.data
        + ",\"correlation_id\":"@ + json_quoted(message.correlation_id) + "}"@
}

/// A JSON packet as text: `~`, the length of the JSON text in bytes with at least four
/// digits, `|`, and the JSON text.
pub open spec fn packet_text(json: Seq<char>) -> Seq<char> {
    "~"@ + pad_left(decimal(encode_utf8(json).len()), '0', 4) + "|"@ + json
}

/// The bytes of the packet of a request.
pub open spec fn outbound_packet(message: OutBoundView) -> Seq<u8> {
    encode_utf8(packet_text(outbound_json(message)))
}

/// What stands behind the first `|` of `text`.
pub open spec fn after_pipe(text: Seq<char>) -> Option<Seq<char>> {
    match text.index_of_first('|') {
        Some(i) => Some(text.skip(i + 1)),
        None => None,
    }
}

/// A message that may be missing as a mathematical value.
pub open spec fn inbound_view(message: Option<InBoundMessage>) -> Option<InBoundView> {
    match message {
        Some(message) => Some(message@),
        None => None,
    }
}

/// The contents of a field that holds a string. `None` where it does not.
pub open spec fn text_in(document: Result<JsonView, Seq<char>>) -> Option<Seq<char>> {
    match document {
        Ok(JsonView::Text(text)) => Some(text),
        _ => None,
    }
}

/// The contents of a field that holds a string or `null`. `None` where it holds neither.
pub open spec fn optional_text_in(document: Result<JsonView, Seq<char>>) -> Option<
    Option<Seq<char>>,
> {
    match document {
        Ok(JsonView::Null) => Some(None),
        Ok(JsonView::Text(text)) => Some(Some(text)),
        _ => None,
    }
}

/// The contents of a field that holds a boolean or `null`. `None` where it holds neither.
pub open spec fn optional_bool_in(document: Result<JsonView, Seq<char>>) -> Option<Option<bool>> {
    match document {
        Ok(JsonView::Null) => Some(None),
        Ok(JsonView::Bool(value)) => Some(Some(value)),
        _ => None,
    }
}

/// The JSON texts of the five fields of a message, in order, as far as they are there.
pub ghost struct FieldTexts {
    pub action: Option<Seq<char>>,
    pub data: Option<Seq<char>>,
    pub error: Option<Seq<char>>,
    pub compressed: Option<Seq<char>>,
    pub correlation_id: Option<Seq<char>>,
}

/// The fields of a message that is an object, or the list of its five fields.
pub open spec fn field_texts(document: Result<JsonView, Seq<char>>) -> Option<FieldTexts> {
    match document {
        Ok(JsonView::Object(members)) => Some(
            FieldTexts {
                action: member_value(members, "action"@),
                data: member_value(members, "data"@),
                error: member_value(members, "error"@),
                compressed: member_value(members, "compressed"@),
                correlation_id: member_value(members, "correlation_id"@),
            },
        ),
        Ok(JsonView::List(items)) => if items.len() == 5 {
            Some(
                FieldTexts {
                    action: Some(items[0]),
                    data: Some(items[1]),
                    error: Some(items[2]),
                    compressed: Some(items[3]),
                    correlation_id: Some(items[4]),
                },
            )
        } else {
            None
        },
        _ => None,
    }
}

/// The message with the given fields: the action has to be a string, the data can be
/// anything, and of the others each can be missing or `null`.
pub open spec fn message_of(fields: FieldTexts) -> Option<InBoundView> {
    let action = match fields.action {
        Some(text) => text_in(json_document(text)),
        None => None,
    };
    let error = match fields.error {
        Some(text) => optional_text_in(json_document(text)),
        None => Some(None),
    };
    let compressed = match fields.compressed {
        Some(text) => optional_bool_in(json_document(text)),
        None => Some(None),
    };
    let correlation_id = match fields.correlation_id {
        Some(text) => optional_text_in(json_document(text)),
        None => Some(None),
    };
    match (action, fields.data, error, compressed, correlation_id) {
        (Some(action), Some(data), Some(error), Some(compressed), Some(correlation_id)) => Some(
            InBoundView { action, data, error, compressed, correlation_id },
        ),
        _ => None,
    }
}

/// The message that a JSON text is.
pub open spec fn message_in(json: Seq<char>) -> Option<InBoundView> {
    match field_texts(json_document(json)) {
        Some(fields) => message_of(fields),
        None => None,
    }
}

/// What a request is when it is read as a message from the other side: the same action, data
/// and correlation ID, and nothing else.
pub open spec fn echo(request: OutBoundView) -> InBoundView {
    InBoundView {
        action: request.action,
        data: compacted(request.data),
        error: None,
        compressed: None,
        correlation_id: Some(request.correlation_id),
    }
}

/// The bytes that the standard base64 alphabet with padding decodes `text` to, or `None`
/// where it is no base64 text.
pub uninterp spec fn base64_bytes(text: Seq<char>) -> Option<Seq<u8>>;

/// The text that a zlib stream holds, or `None` where the bytes are no such stream or what
/// it holds is no text.
pub uninterp spec fn zlib_text(bytes: Seq<u8>) -> Option<Seq<char>>;

/// The JSON text that a compressed payload stands for: the payload is a JSON string, in
/// base64, of a zlib stream, of a JSON document.
pub open spec fn inflated(data: Seq<char>) -> Option<Seq<char>> {
    match json_document(data) {
        Ok(JsonView::Text(text)) => match base64_bytes(text) {
            Some(bytes) => match zlib_text(bytes) {
                Some(json) => if json_document(json) is Ok {
                    Some(json)
                } else {
                    None
                },
                None => None,
            },
            None => None,
        },
        _ => None,
    }
}

/// A message marked as compressed with its payload replaced, if there is a replacement;
/// any other message as it is.
pub open spec fn with_payload(message: InBoundView, payload: Option<Seq<char>>) -> InBoundView {
    match payload {
        Some(json) if message.compressed == Some(true) => InBoundView {
            data: json,
            compressed: Some(false),
            ..message
        },
        _ => message,
    }
}

/// `Uuid::new_v4`, written out by its `Display`: a random version 4 UUID in the hyphenated
/// lower-case form. Which one comes back is left to chance, and nothing is said of it
/// beyond its form.
#[verifier::external_body]
fn new_correlation_id() -> (id: String)
    ensures
        is_uuid_text(id@),
{
    uuid::Uuid::new_v4().to_string()
}

/// `Engine::decode` of `base64`'s standard engine. What comes back depends on the text
/// alone.
#[verifier::external_body]
fn decode_base64(text: &str) -> (bytes: Option<Vec<u8>>)
    ensures
        match bytes {
            Some(bytes) => base64_bytes(text@) == Some(bytes@),
            None => base64_bytes(text@) is None,
        },
{
    base64::engine::general_purpose::STANDARD.decode(text).ok()
}

/// `read_to_string` on a `flate2::read::ZlibDecoder` over the bytes. What comes back
/// depends on the bytes alone.
#[verifier::external_body]
fn inflate_text(bytes: &[u8]) -> (text: Option<String>)
    ensures
        optional_text(text) == zlib_text(bytes@),
{
    let mut text = String::new();
    match flate2::read::ZlibDecoder::new(bytes).read_to_string(&mut text) {
        Ok(_) => Some(text),
        Err(_) => None,
    }
}

/// Whether a correlation ID was drawn at random, by a call of `Uuid::new_v4`.
pub closed spec fn is_drawn_at_random(id: Seq<char>) -> bool {
    exists|drawn: String| drawn@ == id && #[trigger] call_ensures(new_correlation_id, (), drawn)
}

/// Makes the call that `draw` stands for.
fn draw_with(draw: impl Fn() -> String) -> (id: String)
    requires
        call_requires(draw, ()),
    ensures
        call_ensures(draw, (), id),
{
    draw()
}

impl OutBoundMessage {
    /// Constructs an outbound message with a randomly generated correlation ID if one is not
    /// provided.
    ///
    /// `action` is the server command name and `data` the command payload as a JSON text.
    /// The correlation ID ties the server's response to this specific request; a generated
    /// one is a version 4 UUID.
    pub fn new(action: String, data: String, correlation_id: Option<String>) -> (message: Self)
        ensures
            message.action@ == action@,
            message.data@ == data@,
            match correlation_id {
                Some(id) => message.correlation_id@ == id@,
                None => {
                    &&& is_uuid_text(message.correlation_id@)
                    &&& is_drawn_at_random(message.correlation_id@)
                },
            },
    {
        let correlation_id = match correlation_id {
            Some(id) => id,
            None => draw_with(new_correlation_id),
        };
        OutBoundMessage { action, data, correlation_id }
    }

    /// The JSON object that goes over the wire.
    pub fn to_json(&self) -> (json: String)
        ensures
            json@ == outbound_json(self@),
    {
        let mut json = "{\"action\":".to_string();
        json.append(quote_json(self.action.as_str()).as_str());
        json.append(",\"data\":");
        json.append(self.data.as_str());
        json.append(",\"correlation_id\":");
        json.append(quote_json(self.correlation_id.as_str()).as_str());
        json.append("}");
        json
    }
}

/// Puts the header of a JSON packet in front of a JSON text.
pub fn frame_json(json: &str) -> (packet: Vec<u8>)
    ensures
        packet@ == encode_utf8(packet_text(json@)),
{
    let mut text = "~".to_string();
    push_padded(&mut text, decimal_text(json.as_bytes().len()).as_str(), '0', 4);
    text.append("|");
    text.append(json);
    slice_to_vec(text.as_str().as_bytes())
}

/// What stands behind the first `|` of `text`.
pub fn text_after_pipe(text: &str) -> (rest: Option<String>)
    ensures
        optional_text(rest) == after_pipe(text@),
{
    let mut rest: Option<String> = None;
    let ghost mut at: int = 0;
    for c in chars: text.chars()
        invariant
            chars.seq() == text@,
            match rest {
                None => forall|j: int| 0 <= j < chars.index() ==> text@[j] != '|',
                Some(s) => {
                    &&& 0 <= at < chars.index()
                    &&& text@[at] == '|'
                    &&& forall|j: int| 0 <= j < at ==> text@[j] != '|'
                    &&& s@ == text@.subrange(at + 1, chars.index() as int)
                },
            },
    {
        match rest {
            Some(s) => {
                let mut longer = s;
                longer.push(c);
                assert(longer@ =~= text@.subrange(at + 1, chars.index() + 1));
                rest = Some(longer);
            },
            None => {
                if c == '|' {
                    proof {
                        at = chars.index() as int;
                    }
                    rest = Some(String::new());
                    assert(Seq::<char>::empty() =~= text@.subrange(at + 1, chars.index() + 1));
                } else {
                    rest = None;
                }
            },
        }
    }
    proof {
        text@.index_of_first_ensures('|');
        if rest is Some {
            assert(text@.contains('|'));
            assert(text@.subrange(at + 1, text@.len() as int) =~= text@.skip(at + 1));
        }
    }
    rest
}

/// Replaces the payload of a message that is marked as compressed, and clears the mark,
/// if there is a payload to replace it with.
pub fn replace_payload(msg: &mut InBoundMessage, payload: Option<String>)
    ensures
        final(msg)@ == with_payload(old(msg)@, optional_text(payload)),
{
    if let Some(compressed) = msg.compressed {
        if compressed {
            if let Some(json) = payload {
                msg.data = json;
                msg.compressed = Some(false);
            }
        }
    }
}

/// Decodes and decompresses a payload.
pub fn inflate_payload(data: &str) -> (json: Option<String>)
    ensures
        optional_text(json) == inflated(data@),
{
    let text = match read_json(data) {
        Ok(JsonNode::Text(text)) => text,
        _ => return None,
    };
    let bytes = match decode_base64(text.as_str()) {
        Some(bytes) => bytes,
        None => return None,
    };
    let json = match inflate_text(bytes.as_slice()) {
        Some(json) => json,
        None => return None,
    };
    match read_json(json.as_str()) {
        Ok(_) => Some(json),
        Err(_) => None,
    }
}

/// The contents of a field that holds a string.
pub fn text_from_document(document: Result<JsonNode, String>) -> (text: Option<String>)
    ensures
        optional_text(text) == text_in(document_view(document)),
{
    match document {
        Ok(JsonNode::Text(text)) => Some(text),
        _ => None,
    }
}

/// The contents of a field that holds a string or `null`.
pub fn optional_text_from_document(document: Result<JsonNode, String>) -> (text: Option<
    Option<String>,
>)
    ensures
        match text {
            Some(text) => optional_text_in(document_view(document)) == Some(optional_text(text)),
            None => optional_text_in(document_view(document)) is None,
        },
{
    match document {
        Ok(JsonNode::Null) => Some(None),
        Ok(JsonNode::Text(text)) => Some(Some(text)),
        _ => None,
    }
}

/// The contents of a field that holds a boolean or `null`.
pub fn optional_bool_from_document(document: Result<JsonNode, String>) -> (value: Option<
    Option<bool>,
>)
    ensures
        value == optional_bool_in(document_view(document)),
{
    match document {
        Ok(JsonNode::Null) => Some(None),
        Ok(JsonNode::Bool(value)) => Some(Some(value)),
        _ => None,
    }
}

/// The JSON texts of the five fields of a message, as far as they are there.
#[derive(Debug, Clone)]
pub struct MessageFields {
    pub action: Option<String>,
    pub data: Option<String>,
    pub error: Option<String>,
    pub compressed: Option<String>,
    pub correlation_id: Option<String>,
}

impl View for MessageFields {
    type V = FieldTexts;

    open spec fn view(&self) -> FieldTexts {
        FieldTexts {
            action: optional_text(self.action),
            data: optional_text(self.data),
            error: optional_text(self.error),
            compressed: optional_text(self.compressed),
            correlation_id: optional_text(self.correlation_id),
        }
    }
}

/// The fields of a message, given what reading its JSON text came to.
pub fn fields_from_document(document: Result<JsonNode, String>) -> (fields: Option<MessageFields>)
    ensures
        match fields {
            Some(fields) => field_texts(document_view(document)) == Some(fields@),
            None => field_texts(document_view(document)) is None,
        },
{
    match document {
        Ok(JsonNode::Object(members)) => Some(
            MessageFields {
                action: find_member(&members, "action"),
                data: find_member(&members, "data"),
                error: find_member(&members, "error"),
                compressed: find_member(&members, "compressed"),
                correlation_id: find_member(&members, "correlation_id"),
            },
        ),
        Ok(JsonNode::List(items)) => {
            if items.len() != 5 {
                return None;
            }
            Some(
                MessageFields {
                    action: Some(items[0].clone()),
                    data: Some(items[1].clone()),
                    error: Some(items[2].clone()),
                    compressed: Some(items[3].clone()),
                    correlation_id: Some(items[4].clone()),
                },
            )
        },
        _ => None,
    }
}

/// Reads the fields of a message.
fn message_from_fields(fields: MessageFields) -> (message: Option<InBoundMessage>)
    ensures
        inbound_view(message) == message_of(fields@),
        forall|request: OutBoundView|
            fields@ == #[trigger] echo_fields(request) ==> inbound_view(message) == Some(
                echo(request),
            ),
{
    let action = match &fields.action {
        Some(text) => text_from_document(read_json(text.as_str()))?,
        None => return None,
    };
    let data = fields.data?;
    let error = match &fields.error {
        Some(text) => optional_text_from_document(read_json(text.as_str()))?,
        None => None,
    };
    let compressed = match &fields.compressed {
        Some(text) => optional_bool_from_document(read_json(text.as_str()))?,
        None => None,
    };
    let correlation_id = match &fields.correlation_id {
        Some(text) => optional_text_from_document(read_json(text.as_str()))?,
        None => None,
    };
    Some(InBoundMessage { action, data, error, compressed, correlation_id })
}

/// The JSON texts of the fields of a request.
spec fn echo_fields(request: OutBoundView) -> FieldTexts {
    FieldTexts {
        action: Some(json_quoted(request.action)),
        data: Some(compacted(request.data)),
        error: None,
        compressed: None,
        correlation_id: Some(json_quoted(request.correlation_id)),
    }
}

/// The members of the JSON object of a request.
spec fn outbound_members(request: OutBoundView) -> Seq<(Seq<char>, Seq<char>)> {
    seq![
        ("action"@, json_quoted(request.action)),
        ("data"@, request.data),
        ("correlation_id"@, json_quoted(request.correlation_id)),
    ]
}

/// Reads a message.
pub fn read_message(json: &str) -> (message: Option<InBoundMessage>)
    ensures
        inbound_view(message) == message_in(json@),
        forall|request: OutBoundView|
            json@ == #[trigger] outbound_json(request) && is_member_value(request.data)
                ==> inbound_view(message) == Some(echo(request)),
{
    let document = read_json(json);
    let ghost read = document_view(document);
    match fields_from_document(document) {
        Some(fields) => {
            let message = message_from_fields(fields);
            proof {
                assert forall|request: OutBoundView|
                    json@ == #[trigger] outbound_json(request) && is_member_value(
                        request.data,
                    ) implies inbound_view(message) == Some(echo(request)) by {
                    lemma_outbound_fields(read, request);
                }
            }
            message
        },
        None => {
            proof {
                assert forall|request: OutBoundView|
                    json@ == #[trigger] outbound_json(request) && is_member_value(
                        request.data,
                    ) implies false by {
                    lemma_outbound_fields(read, request);
                }
            }
            None
        },
    }
}

/// A text without characters that have to be escaped stands in a JSON string as it is.
proof fn lemma_plain_text(text: Seq<char>)
    requires
        forall|i: int| 0 <= i < text.len() ==> json_escape(#[trigger] text[i]) == seq![text[i]],
    ensures
        json_escaped(text) == text,
    decreases text.len(),
{
    if text.len() > 0 {
        let front = text.drop_last();
        assert forall|i: int| 0 <= i < front.len() implies json_escape(#[trigger] front[i])
            == seq![front[i]] by {
            assert(front[i] == text[i]);
        }
        lemma_plain_text(front);
        assert(json_escape(text[text.len() - 1]) == seq![text[text.len() - 1]]);
        assert(front + seq![text.last()] =~= text);
    } else {
        assert(text =~= Seq::empty());
    }
}

/// The JSON object of a request is made of its members.
proof fn lemma_outbound_json(request: OutBoundView)
    ensures
        outbound_json(request) == json_object_of(outbound_members(request)),
{
    let members = outbound_members(request);
    reveal_strlit("action");
    reveal_strlit("data");
    reveal_strlit("correlation_id");
    reveal_strlit("{\"action\":");
    reveal_strlit(",\"data\":");
    reveal_strlit(",\"correlation_id\":");
    reveal_strlit("{");
    reveal_strlit("}");
    reveal_strlit(",");
    reveal_strlit(":");
    lemma_plain_text("action"@);
    lemma_plain_text("data"@);
    lemma_plain_text("correlation_id"@);
    let two = members.drop_last();
    let one = two.drop_last();
    assert(json_members(one) =~= json_quoted("action"@) + ":"@ + json_quoted(request.action));
    assert(json_members(two) =~= json_members(one) + ","@ + (json_quoted("data"@) + ":"@
        + request.data));
    assert(json_members(members) =~= json_members(two) + ","@ + (json_quoted("correlation_id"@)
        + ":"@ + json_quoted(request.correlation_id)));
    assert("{\"action\":"@ =~= "{"@ + json_quoted("action"@) + ":"@);
    assert(",\"data\":"@ =~= ","@ + json_quoted("data"@) + ":"@);
    assert(",\"correlation_id\":"@ =~= ","@ + json_quoted("correlation_id"@) + ":"@);
    assert(outbound_json(request) =~= json_object_of(members));
}

/// What reading the JSON object of a request gives.
proof fn lemma_outbound_fields(document: Result<JsonView, Seq<char>>, request: OutBoundView)
    requires
        reads_written_object(document, outbound_json(request)),
        is_member_value(request.data),
    ensures
        field_texts(document) == Some(echo_fields(request)),
{
    let members = outbound_members(request);
    lemma_outbound_json(request);
    reveal_strlit("action");
    reveal_strlit("data");
    reveal_strlit("error");
    reveal_strlit("compressed");
    reveal_strlit("correlation_id");
    assert("action"@.len() == 6 && "data"@.len() == 4 && "correlation_id"@.len() == 14);
    assert("error"@.len() == 5 && "compressed"@.len() == 10);
    assert(are_members(members));
    assert(holds_members(document, members));
    reveal_with_fuel(member_value, 4);
    let rest = members.drop_first();
    let last = rest.drop_first();
    assert(member_value(members, "action"@) == Some(json_quoted(request.action)));
    assert(rest[0] == members[1] && last[0] == members[2]);
    assert(last.drop_first().len() == 0);
    assert(member_value(members, "data"@) == Some(request.data));
    assert(member_value(members, "correlation_id"@) == Some(json_quoted(request.correlation_id)));
    assert(member_value(members, "error"@) is None);
    assert(member_value(members, "compressed"@) is None);
}

impl ProtocolFns {
    /// Serializes an [`OutBoundMessage`] into wire bytes.
    ///
    /// Produces `~NNNN|{...json...}` where `NNNN` is the zero-padded length of the JSON body.
    pub fn protocol_1_encoder(message: &OutBoundMessage) -> (packet: Vec<u8>)
        ensures
            packet@ == outbound_packet(message@),
    {
        frame_json(message.to_json().as_str())
    }

    /// Deserializes a JSON packet into an [`InBoundMessage`].
    ///
    /// Strips the `~NNNN` header and the `|` separator, then reads the JSON body. Bytes that
    /// are not UTF-8 are read as replacement characters. It is an error if there is no
    /// separator or if the body is no message. A request that was encoded is read back as it
    /// was written, with its payload in compact form.
    pub fn protocol_1_decoder(message: &[u8]) -> (decoded: Result<InBoundMessage, String>)
        ensures
            match after_pipe(received_text(message@)) {
                Some(json) => match message_in(json) {
                    Some(read) => decoded matches Ok(msg) && msg@ == read,
                    None => {
                        &&& decoded matches Err(reason)
                        &&& reason@ == "Failed to deserialize message"@
                    },
                },
                None => decoded matches Err(reason) && reason@ == "Invalid message format"@,
            },
            forall|request: OutBoundView|
                message@ == #[trigger] outbound_packet(request) && is_member_value(request.data)
                    ==> (decoded matches Ok(msg) && msg@ == echo(request)),
    {
        let text = lossy_text(message);
        match text_after_pipe(text.as_str()) {
            Some(json) => {
                let read = read_message(json.as_str());
                proof {
                    assert forall|request: OutBoundView|
                        message@ == #[trigger] outbound_packet(request) && is_member_value(
                            request.data,
                        ) implies (read matches Some(msg) && msg@ == echo(request)) by {
                        law_unframing_undoes_framing(outbound_json(request));
                    }
                }
                match read {
                    Some(msg) => Ok(msg),
                    None => Err("Failed to deserialize message".to_string()),
                }
            },
            None => {
                proof {
                    assert forall|request: OutBoundView|
                        message@ == #[trigger] outbound_packet(request) implies false by {
                        law_unframing_undoes_framing(outbound_json(request));
                    }
                }
                Err("Invalid message format".to_string())
            },
        }
    }

    /// Decompresses a JSON message in place if it is marked as compressed.
    ///
    /// When the server sets `compressed: true` on a response, the `data` field is a
    /// base64-encoded zlib-compressed JSON text. This function decodes and decompresses it,
    /// replacing `data` and setting `compressed` to `false`. The message stays as it is if it
    /// is not marked as compressed or if any of the steps fails.
    pub fn maybe_decompress_p1(msg: &mut InBoundMessage)
        ensures
            final(msg)@ == with_payload(old(msg)@, inflated(old(msg)@.data)),
    {
        if let Some(compressed) = msg.compressed {
            if compressed {
                let payload = inflate_payload(msg.data.as_str());
                replace_payload(msg, payload);
            }
        }
    }
}

} // verus!
