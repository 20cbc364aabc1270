//! Numeric fields that arrive as JSON numbers or as quoted strings.

use vstd::prelude::*;
use vstd::string::*;

use crate::json::{read_json, JsonNode};
#[allow(unused_imports)]
use crate::json::{document_view, json_document, JsonView};
use crate::text::parse_u64;
#[allow(unused_imports)]
use crate::text::{
    decimal, law_decimal_reads_back, spelled_number, text_result, u64_parse_error,
};

verus! {

/// The JSON value of a field that holds a number of type `F`, as far as its reader looks at
/// it.
#[derive(Debug)]
pub enum JsonField<F> {
    /// `null`.
    Null,
    /// A number, as an `F` if it is one.
    Number(Option<F>),
    /// A string.
    Text(NumericText<F>),
    /// A boolean, a list or an object.
    Other,
}

/// A string that may spell a number: what it says, and what parsing it came to.
#[derive(Debug)]
pub struct NumericText<F> {
    pub text: String,
    pub parsed: Result<F, String>,
}

/// What a string comes to as a `u64`.
pub open spec fn parsed_u64(text: Seq<char>) -> Result<u64, Seq<char>> {
    match spelled_number(text) {
        Some(n) if n <= u64::MAX => Ok(n as u64),
        _ => Err("failed to parse u64 from string: "@ + u64_parse_error(text)),
    }
}

/// What a JSON document comes to where a `u64` is asked for.
pub open spec fn u64_of(document: Result<JsonView, Seq<char>>) -> Result<u64, Seq<char>> {
    match document {
        Ok(JsonView::Number { integer: Some(n), .. }) => Ok(n),
        Ok(JsonView::Number { integer: None, .. }) => Err("expected u64"@),
        Ok(JsonView::Text(text)) => parsed_u64(text),
        Ok(_) => Err("expected string or number for u64 field"@),
        Err(message) => Err(message),
    }
}

/// What a string comes to as an `f64`.
pub open spec fn parsed_f64<F>(text: NumericText<F>) -> Result<F, Seq<char>> {
    match text.parsed {
        Ok(f) => Ok(f),
        Err(reason) => Err("failed to parse f64 from string: "@ + reason@),
    }
}

/// What a field that holds an `f64` comes to.
pub open spec fn f64_of<F>(value: JsonField<F>) -> Result<F, Seq<char>> {
    match value {
        JsonField::Number(Some(f)) => Ok(f),
        JsonField::Number(None) => Err("expected f64"@),
        JsonField::Text(text) => parsed_f64(text),
        _ => Err("expected string or number for f64 field"@),
    }
}

/// What a field that may hold an `f64` comes to.
pub open spec fn optional_f64_of<F>(value: JsonField<F>) -> Result<
    Option<F>,
    Seq<char>,
> {
    match value {
        JsonField::Null => Ok(None),
        JsonField::Number(Some(f)) => Ok(Some(f)),
        JsonField::Number(None) => Err("expected f64"@),
        JsonField::Text(text) => if text.text@.len() == 0 {
            Ok(None)
        } else {
            match parsed_f64(text) {
                Ok(f) => Ok(Some(f)),
                Err(message) => Err(message),
            }
        },
        JsonField::Other => Err("expected string, number, or null for optional f64 field"@),
    }
}

/// Reads a `u64` from the JSON text of either a number or a quoted numeric string.
pub fn deserialize_u64_from_string(json: &str) -> (number: Result<u64, String>)
    ensures
        text_result(number) == u64_of(json_document(json@)),
{
    u64_from_document(read_json(json))
}

/// The `u64` of a field, given what reading its JSON text came to.
pub fn u64_from_document(document: Result<JsonNode, String>) -> (number: Result<u64, String>)
    ensures
        text_result(number) == u64_of(document_view(document)),
{
    match document {
        Ok(JsonNode::Number { integer: Some(n), .. }) => Ok(n),
        Ok(JsonNode::Number { integer: None, .. }) => Err("expected u64".to_string()),
        Ok(JsonNode::Text(text)) => u64_from_text(parse_u64(text.as_str())),
        Ok(_) => Err("expected string or number for u64 field".to_string()),
        Err(message) => Err(message),
    }
}

/// What a string comes to as a `u64`, given what parsing it came to.
pub fn u64_from_text(parsed: Result<u64, String>) -> (number: Result<u64, String>)
    ensures
        text_result(number) == match parsed {
            Ok(n) => Ok::<u64, Seq<char>>(n),
            Err(reason) => Err("failed to parse u64 from string: "@ + reason@),
        },
{
    match parsed {
        Ok(n) => Ok(n),
        Err(reason) => Err("failed to parse u64 from string: ".to_string().concat(reason.as_str())),
    }
}

/// Reads an `f64` from either a JSON number or a quoted numeric string.
pub fn deserialize_f64_from_string<F>(value: JsonField<F>) -> (number: Result<
    F,
    String,
>)
    ensures
        text_result(number) == f64_of(value),
{
    match value {
        JsonField::Number(Some(f)) => Ok(f),
        JsonField::Number(None) => Err("expected f64".to_string()),
        JsonField::Text(text) => match text.parsed {
            Ok(f) => Ok(f),
            Err(reason) => Err(
                "failed to parse f64 from string: ".to_string().concat(reason.as_str()),
            ),
        },
        _ => Err("expected string or number for f64 field".to_string()),
    }
}

/// Reads an optional `f64` from a JSON number, a quoted numeric string, `null`, or an empty
/// string; the last two mean that there is none.
pub fn deserialize_optional_f64_from_string<F>(value: JsonField<F>) -> (number:
    Result<Option<F>, String>)
    ensures
        text_result(number) == optional_f64_of(value),
{
    match value {
        JsonField::Null => Ok(None),
        JsonField::Number(Some(f)) => Ok(Some(f)),
        JsonField::Number(None) => Err("expected f64".to_string()),
        JsonField::Text(text) => {
            if text.text.as_str().is_empty() {
                return Ok(None);
            }
            match text.parsed {
                Ok(f) => Ok(Some(f)),
                Err(reason) => Err(
                    "failed to parse f64 from string: ".to_string().concat(reason.as_str()),
                ),
            }
        },
        JsonField::Other => Err(
            "expected string, number, or null for optional f64 field".to_string(),
        ),
    }
}

/// It makes no difference whether a `u64` arrives bare or quoted.
pub proof fn law_quoted_number_reads_the_same(n: u64, text: Seq<char>)
    ensures
        u64_of(Ok(JsonView::Text(decimal(n as nat)))) == Ok::<u64, Seq<char>>(n),
        u64_of(Ok(JsonView::Number { text, integer: Some(n) })) == Ok::<u64, Seq<char>>(n),
{
    law_decimal_reads_back(n as nat);
}

/// It makes no difference whether an `f64` arrives bare or as a string that spells it.
pub proof fn law_quoted_float_reads_the_same<F>(f: F, text: NumericText<F>)
    requires
        text.parsed == Ok::<F, String>(f),
        text.text@.len() > 0,
    ensures
        f64_of(JsonField::Text(text)) == f64_of(JsonField::Number(Some(f))),
        optional_f64_of(JsonField::Text(text)) == optional_f64_of(JsonField::Number(Some(f))),
        f64_of(JsonField::Number(Some(f))) == Ok::<F, Seq<char>>(f),
        optional_f64_of(JsonField::Number(Some(f))) == Ok::<Option<F>, Seq<char>>(Some(f)),
{
}

/// Where an optional `f64` is asked for, `null` and the empty string mean that there is none;
/// everything else is read just where an `f64` field reads it, to the same number, and is
/// refused where that refuses it, in the same words unless it is no number and no string.
pub proof fn law_optional_extends_required<F>(value: JsonField<F>)
    ensures
        match value {
            JsonField::Null => optional_f64_of(value) == Ok::<Option<F>, Seq<char>>(None),
            JsonField::Text(text) if text.text@.len() == 0 => optional_f64_of(value) == Ok::<
                Option<F>,
                Seq<char>,
            >(None),
            _ => match f64_of(value) {
                Ok(f) => optional_f64_of(value) == Ok::<Option<F>, Seq<char>>(Some(f)),
                Err(message) => {
                    &&& optional_f64_of(value) is Err
                    &&& value !is Other ==> optional_f64_of(value) == Err::<
                        Option<F>,
                        Seq<char>,
                    >(message)
                },
            },
        },
{
}

/// A `u64` field takes a number that is a `u64`, and a string that spells one, as large as it
/// may be; it refuses everything else.
pub proof fn law_what_a_u64_field_takes(
    number: Seq<char>,
    n: u64,
    text: Seq<char>,
    flag: bool,
    items: Seq<Seq<char>>,
    members: Seq<(Seq<char>, Seq<char>)>,
    message: Seq<char>,
)
    ensures
        u64_of(Ok(JsonView::Number { text: number, integer: Some(n) })) == Ok::<u64, Seq<char>>(n),
        u64_of(Ok(JsonView::Number { text: number, integer: None })) == Err::<u64, Seq<char>>(
            "expected u64"@,
        ),
        spelled_number(text) == Some(n as nat) ==> u64_of(Ok(JsonView::Text(text))) == Ok::<
            u64,
            Seq<char>,
        >(n),
        (spelled_number(text) is None || spelled_number(text)->0 > u64::MAX) ==> u64_of(
            Ok(JsonView::Text(text)),
        ) == Err::<u64, Seq<char>>(
            "failed to parse u64 from string: "@ + u64_parse_error(text),
        ),
        u64_of(Ok(JsonView::Null)) == Err::<u64, Seq<char>>(
            "expected string or number for u64 field"@,
        ),
        u64_of(Ok(JsonView::Bool(flag))) == Err::<u64, Seq<char>>(
            "expected string or number for u64 field"@,
        ),
        u64_of(Ok(JsonView::List(items))) == Err::<u64, Seq<char>>(
            "expected string or number for u64 field"@,
        ),
        u64_of(Ok(JsonView::Object(members))) == Err::<u64, Seq<char>>(
            "expected string or number for u64 field"@,
        ),
        u64_of(Err(message)) == Err::<u64, Seq<char>>(message),
{
}

/// An `f64` field takes a number, and a string that parses as one; it refuses everything else.
pub proof fn law_what_an_f64_field_takes<F>(f: F, text: NumericText<F>)
    ensures
        f64_of(JsonField::Number(Some(f))) == Ok::<F, Seq<char>>(f),
        f64_of(JsonField::<F>::Number(None)) == Err::<F, Seq<char>>("expected f64"@),
        text.parsed is Ok ==> f64_of(JsonField::Text(text)) == Ok::<F, Seq<char>>(
            text.parsed->Ok_0,
        ),
        text.parsed is Err ==> f64_of(JsonField::Text(text)) == Err::<F, Seq<char>>(
            "failed to parse f64 from string: "@ + text.parsed->Err_0@,
        ),
        f64_of(JsonField::<F>::Null) == Err::<F, Seq<char>>(
            "expected string or number for f64 field"@,
        ),
        f64_of(JsonField::<F>::Other) == Err::<F, Seq<char>>(
            "expected string or number for f64 field"@,
        ),
        optional_f64_of(JsonField::<F>::Other) == Err::<Option<F>, Seq<char>>(
            "expected string, number, or null for optional f64 field"@,
        ),
{
}

} // verus!
