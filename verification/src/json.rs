//! JSON texts: writing strings, lists and objects, and looking into a document.
//!
//! A JSON value is held as its text. Quoting and reading are `serde_json`'s.

use serde_json::Value;
use vstd::prelude::*;
use vstd::string::*;

#[allow(unused_imports)]
use crate::text::texts;

verus! {

/// The lower-case hexadecimal digit with the value `nibble`.
pub open spec fn lower_hex_char(nibble: int) -> char {
    if nibble < 10 {
        (0x30 + nibble) as u8 as char
    } else {
        (0x57 + nibble) as u8 as char
    }
}

/// How a character stands inside a JSON string.
pub open spec fn json_escape(c: char) -> Seq<char> {
    if c == '"' {
        seq!['\\', '"']
    } else if c == '\\' {
        seq!['\\', '\\']
    } else if c == '\u{8}' {
        seq!['\\', 'b']
    } else if c == '\t' {
        seq!['\\', 't']
    } else if c == '\n' {
        seq!['\\', 'n']
    } else if c == '\u{c}' {
        seq!['\\', 'f']
    } else if c == '\r' {
        seq!['\\', 'r']
    } else if (c as u32) < 0x20 {
        seq!['\\', 'u', '0', '0', lower_hex_char(c as int / 16), lower_hex_char(c as int % 16)]
    } else {
        seq![c]
    }
}

/// The characters of `text` as they stand inside a JSON string.
pub open spec fn json_escaped(text: Seq<char>) -> Seq<char>
    decreases text.len(),
{
    if text.len() == 0 {
        Seq::empty()
    } else {
        json_escaped(text.drop_last()) + json_escape(text.last())
    }
}

/// `text` as a JSON string.
pub open spec fn json_quoted(text: Seq<char>) -> Seq<char> {
    seq!['"'] + json_escaped(text) + seq!['"']
}

/// The members of a JSON list of strings, with commas between them.
pub open spec fn json_list_items(items: Seq<Seq<char>>) -> Seq<char>
    decreases items.len(),
{
    if items.len() == 0 {
        Seq::empty()
    } else if items.len() == 1 {
        json_quoted(items[0])
    } else {
        json_list_items(items.drop_last()) + ","@ + json_quoted(items.last())
    }
}

/// A JSON list of strings.
pub open spec fn json_list(items: Seq<Seq<char>>) -> Seq<char> {
    "["@ + json_list_items(items) + "]"@
}

/// A JSON object with one member, whose value is the JSON text `value`.
pub open spec fn json_object(key: Seq<char>, value: Seq<char>) -> Seq<char> {
    "{"@ + json_quoted(key) + ":"@ + value + "}"@
}

/// The members of a JSON object, given by their keys and JSON texts, with commas between
/// them.
pub open spec fn json_members(members: Seq<(Seq<char>, Seq<char>)>) -> Seq<char>
    decreases members.len(),
{
    if members.len() == 0 {
        Seq::empty()
    } else {
        let last = json_quoted(members.last().0) + ":"@ + members.last().1;
        if members.len() == 1 {
            last
        } else {
            json_members(members.drop_last()) + ","@ + last
        }
    }
}

/// A JSON object with the given members.
pub open spec fn json_object_of(members: Seq<(Seq<char>, Seq<char>)>) -> Seq<char> {
    "{"@ + json_members(members) + "}"@
}

/// JSON texts with commas between them.
pub open spec fn json_items(items: Seq<Seq<char>>) -> Seq<char>
    decreases items.len(),
{
    if items.len() == 0 {
        Seq::empty()
    } else if items.len() == 1 {
        items[0]
    } else {
        json_items(items.drop_last()) + ","@ + items.last()
    }
}

/// What a JSON document is. The values inside a list or an object are given as compact JSON
/// texts.
#[derive(Debug)]
pub enum JsonNode {
    /// `null`.
    Null,
    /// A boolean.
    Bool(bool),
    /// A number: its JSON text, and its value if it is a `u64`.
    Number { text: String, integer: Option<u64> },
    /// A string, with its contents.
    Text(String),
    /// A list.
    List(Vec<String>),
    /// An object, with the key and the value of each member.
    Object(Vec<(String, String)>),
}

/// A [`JsonNode`] as a mathematical value.
pub ghost enum JsonView {
    Null,
    Bool(bool),
    Number { text: Seq<char>, integer: Option<u64> },
    Text(Seq<char>),
    List(Seq<Seq<char>>),
    Object(Seq<(Seq<char>, Seq<char>)>),
}

/// The compact JSON text of a document: no blanks between its parts.
pub open spec fn json_compact(document: JsonView) -> Seq<char> {
    match document {
        JsonView::Null => "null"@,
        JsonView::Bool(true) => "true"@,
        JsonView::Bool(false) => "false"@,
        JsonView::Number { text, .. } => text,
        JsonView::Text(text) => json_quoted(text),
        JsonView::List(items) => "["@ + json_items(items) + "]"@,
        JsonView::Object(members) => json_object_of(members),
    }
}

/// How far into a JSON text a scan for nested lists and objects has come.
pub ghost struct NestingScan {
    /// Whether the scan is inside a string.
    pub in_string: bool,
    /// Whether the next character of the string is escaped.
    pub escaped: bool,
    /// The number of lists and objects that are open.
    pub depth: int,
    /// The largest number of them that were open at a time.
    pub deepest: int,
}

/// Scans a JSON text for nested lists and objects.
pub open spec fn nesting_scan(text: Seq<char>) -> NestingScan
    decreases text.len(),
{
    if text.len() == 0 {
        NestingScan { in_string: false, escaped: false, depth: 0, deepest: 0 }
    } else {
        let scan = nesting_scan(text.drop_last());
        let c = text.last();
        if scan.in_string {
            NestingScan {
                in_string: scan.escaped || c != '"',
                escaped: !scan.escaped && c == '\\',
                ..scan
            }
        } else if c == '"' {
            NestingScan { in_string: true, ..scan }
        } else if c == '[' || c == '{' {
            let depth = scan.depth + 1;
            NestingScan {
                depth,
                deepest: if depth > scan.deepest {
                    depth
                } else {
                    scan.deepest
                },
                ..scan
            }
        } else if c == ']' || c == '}' {
            NestingScan { depth: scan.depth - 1, ..scan }
        } else {
            scan
        }
    }
}

/// How deep lists and objects are nested in a JSON text.
pub open spec fn nesting(text: Seq<char>) -> int {
    nesting_scan(text).deepest
}

/// Whether `text` is a JSON string as this crate writes it.
pub open spec fn is_quoted(text: Seq<char>) -> bool {
    exists|contents: Seq<char>| text == #[trigger] json_quoted(contents)
}

/// Whether `text` can stand as the value of a member: it is a JSON string, or a JSON document
/// that is nested less than a hundred deep.
pub open spec fn is_member_value(text: Seq<char>) -> bool {
    is_quoted(text) || (json_document(text) is Ok && nesting(text) < 100)
}

/// The compact form of a JSON text that can stand as the value of a member.
pub open spec fn compacted(text: Seq<char>) -> Seq<char> {
    if is_quoted(text) {
        text
    } else {
        json_compact(json_document(text)->Ok_0)
    }
}

/// Whether members can be written as an object: their keys are different, and their values
/// can stand there.
pub open spec fn are_members(members: Seq<(Seq<char>, Seq<char>)>) -> bool {
    &&& forall|i: int, j: int|
        0 <= i < j < members.len() ==> (#[trigger] members[i]).0 != (#[trigger] members[j]).0
    &&& forall|i: int| 0 <= i < members.len() ==> is_member_value((#[trigger] members[i]).1)
}

/// Whether a document is an object with exactly the given members, each with its value in
/// compact form.
pub open spec fn holds_members(
    document: Result<JsonView, Seq<char>>,
    members: Seq<(Seq<char>, Seq<char>)>,
) -> bool {
    &&& document matches Ok(JsonView::Object(read))
    &&& forall|key: Seq<char>| #[trigger]
        member_value(read, key) == match member_value(members, key) {
            Some(value) => Some(compacted(value)),
            None => None,
        }
}

/// If `text` is a string as this crate writes it, `document` is that string.
pub open spec fn reads_written_string(
    document: Result<JsonView, Seq<char>>,
    text: Seq<char>,
) -> bool {
    forall|contents: Seq<char>|
        text == #[trigger] json_quoted(contents) ==> document == Ok::<JsonView, Seq<char>>(
            JsonView::Text(contents),
        )
}

/// If `text` is an object as this crate writes it, `document` is an object with its members.
pub open spec fn reads_written_object(
    document: Result<JsonView, Seq<char>>,
    text: Seq<char>,
) -> bool {
    forall|members: Seq<(Seq<char>, Seq<char>)>|
        text == #[trigger] json_object_of(members) && are_members(members) ==> holds_members(
            document,
            members,
        )
}

/// The texts of a sequence of members.
pub open spec fn member_texts(members: Seq<(String, String)>) -> Seq<(Seq<char>, Seq<char>)> {
    members.map_values(|m: (String, String)| (m.0@, m.1@))
}

/// The value of the first member with the key `key`.
pub open spec fn member_value(members: Seq<(Seq<char>, Seq<char>)>, key: Seq<char>) -> Option<
    Seq<char>,
>
    decreases members.len(),
{
    if members.len() == 0 {
        None
    } else if members[0].0 == key {
        Some(members[0].1)
    } else {
        member_value(members.drop_first(), key)
    }
}

impl View for JsonNode {
    type V = JsonView;

    open spec fn view(&self) -> JsonView {
        match self {
            JsonNode::Null => JsonView::Null,
            JsonNode::Bool(value) => JsonView::Bool(*value),
            JsonNode::Number { text, integer } => JsonView::Number {
                text: text@,
                integer: *integer,
            },
            JsonNode::Text(text) => JsonView::Text(text@),
            JsonNode::List(items) => JsonView::List(texts(items@)),
            JsonNode::Object(members) => JsonView::Object(member_texts(members@)),
        }
    }
}

/// What reading a document came to, as a mathematical value.
pub open spec fn document_view(document: Result<JsonNode, String>) -> Result<
    JsonView,
    Seq<char>,
> {
    match document {
        Ok(node) => Ok(node@),
        Err(message) => Err(message@),
    }
}

/// What `serde_json` reads `text` as, or the words in which it says that it is no JSON
/// document.
pub uninterp spec fn json_document(text: Seq<char>) -> Result<JsonView, Seq<char>>;

/// What `serde_json` reads `text` as if a list of strings is asked for, or the words in
/// which it says that it is none.
pub uninterp spec fn json_string_list(text: Seq<char>) -> Result<Seq<Seq<char>>, Seq<char>>;

/// `serde_json::to_string` on a string: the text between quotation marks, with quotation
/// marks, backslashes and control characters escaped.
#[verifier::external_body]
pub(crate) fn quote_json(text: &str) -> (json: String)
    ensures
        json@ == json_quoted(text@),
{
    serde_json::to_string(text).expect("a string has a JSON form")
}

/// `serde_json::from_str` to a `serde_json::Value`: an error where the text is no JSON
/// document, and otherwise what the value is, with the values inside it written out by its
/// compact `Display`. What comes back, and the words of a failure, depend on the text alone.
/// A string that is written with its escapes is read as what was written, and an object that
/// is written member by member is read as an object with these members, in some order, with
/// their values in compact form. For that the keys have to be different, and the values
/// nested less than a hundred deep: `serde_json` refuses a text that is nested too deep.
#[verifier::external_body]
pub(crate) fn read_json(text: &str) -> (document: Result<JsonNode, String>)
    ensures
        document_view(document) == json_document(text@),
        reads_written_string(document_view(document), text@),
        reads_written_object(document_view(document), text@),
{
    Ok(match serde_json::from_str::<Value>(text).map_err(|e| e.to_string())? {
        Value::Null => JsonNode::Null,
        Value::Bool(value) => JsonNode::Bool(value),
        Value::Number(n) => JsonNode::Number { text: n.to_string(), integer: n.as_u64() },
        Value::String(text) => JsonNode::Text(text),
        Value::Array(items) => JsonNode::List(items.iter().map(|v| v.to_string()).collect()),
        Value::Object(members) => JsonNode::Object(
            members.into_iter().map(|(k, v)| (k, v.to_string())).collect(),
        ),
    })
}

/// `serde_json::from_value` to a list of strings, on the value of a JSON text. What comes
/// back, and the words of a failure, depend on the text alone.
#[verifier::external_body]
pub(crate) fn read_string_list(text: &str) -> (list: Result<Vec<String>, String>)
    ensures
        match list {
            Ok(items) => json_string_list(text@) == Ok::<Seq<Seq<char>>, Seq<char>>(texts(items@)),
            Err(message) => json_string_list(text@) == Err::<Seq<Seq<char>>, Seq<char>>(message@),
        },
{
    serde_json::from_str::<Value>(text)
        .and_then(serde_json::from_value::<Vec<String>>)
        .map_err(|e| e.to_string())
}

/// Looks a member up.
pub fn find_member(members: &Vec<(String, String)>, key: &str) -> (value: Option<String>)
    ensures
        match value {
            Some(value) => member_value(member_texts(members@), key@) == Some(value@),
            None => member_value(member_texts(members@), key@) is None,
        },
{
    let wanted = key.to_string();
    let ghost all = member_texts(members@);
    let mut i: usize = 0;
    assert(all.skip(0) =~= all);
    while i < members.len()
        invariant
            i <= members@.len(),
            all == member_texts(members@),
            wanted@ == key@,
            member_value(all, key@) == member_value(all.skip(i as int), key@),
        decreases members@.len() - i,
    {
        assert(all.skip(i as int)[0] == all[i as int]);
        assert(all.skip(i as int).drop_first() =~= all.skip(i + 1));
        if members[i].0 == wanted {
            return Some(members[i].1.clone());
        }
        i += 1;
    }
    None
}

/// Writes a JSON list of strings.
pub fn json_list_text(items: &Vec<String>) -> (json: String)
    ensures
        json@ == json_list(texts(items@)),
{
    let ghost all = texts(items@);
    let mut json = "[".to_string();
    let mut i: usize = 0;
    assert(all.take(0) =~= Seq::empty());
    assert(json@ =~= "["@ + json_list_items(all.take(0)));
    while i < items.len()
        invariant
            i <= items@.len(),
            all == texts(items@),
            json@ == "["@ + json_list_items(all.take(i as int)),
        decreases items@.len() - i,
    {
        let ghost before = json@;
        if i > 0 {
            json.append(",");
        }
        json.append(quote_json(items[i].as_str()).as_str());
        proof {
            let next = all.take(i + 1);
            assert(next.drop_last() =~= all.take(i as int));
            assert(next.last() == items@[i as int]@);
            assert(json@ =~= "["@ + json_list_items(next));
        }
        i += 1;
    }
    assert(all.take(i as int) =~= all);
    json.append("]");
    json
}

/// Writes a JSON object with one member, whose value is already a JSON text.
pub fn json_object_text(key: &str, value: &str) -> (json: String)
    ensures
        json@ == json_object(key@, value@),
{
    let mut json = "{".to_string();
    json.append(quote_json(key).as_str());
    json.append(":");
    json.append(value);
    json.append("}");
    json
}

} // verus!
