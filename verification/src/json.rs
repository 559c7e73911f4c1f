//! JSON documents as the library reads them, and the session text: an array
//! of objects, each with a `begin` and an `end` time under keys of any case.

use crate::error::SessionError;
use crate::shifted::shift_clock;
use crate::slice::{SessionSlice, Span};
use crate::time_of_day::{parse_time, parsed_clock};
use vstd::prelude::*;
use vstd::string::StringExecFns;

verus! {

/// The JSON value of the parser.
#[verifier::external_type_specification]
#[verifier::external_body]
pub struct ExJsonValue(serde_json::Value);

/// The error of the JSON parser.
#[verifier::external_type_specification]
#[verifier::external_body]
pub struct ExJsonError(serde_json::Error);

/// A JSON value. A number is held as the text that renders it; an object as
/// the keys of its members and, at the same places, their values, in the
/// order in which the parser hands the members out.
#[derive(Debug)]
pub enum JsonValue {
    Null,
    Bool(bool),
    Number(String),
    Text(String),
    Array(Vec<JsonValue>),
    Object(Vec<String>, Vec<JsonValue>),
}

/// The mathematical content of a [`JsonValue`].
pub ghost enum JsonTree {
    Null,
    Bool(bool),
    Number(Seq<char>),
    Text(Seq<char>),
    Array(Seq<JsonTree>),
    Object(Seq<Seq<char>>, Seq<JsonTree>),
}

impl View for JsonValue {
    type V = JsonTree;

    open spec fn view(&self) -> JsonTree
        decreases self,
    {
        match self {
            JsonValue::Null => JsonTree::Null,
            JsonValue::Bool(b) => JsonTree::Bool(*b),
            JsonValue::Number(s) => JsonTree::Number(s@),
            JsonValue::Text(s) => JsonTree::Text(s@),
            JsonValue::Array(elements) => JsonTree::Array(
                Seq::new(
                    elements@.len(),
                    |i: int|
                        if 0 <= i < elements@.len() {
                            elements@[i]@
                        } else {
                            JsonTree::Null
                        },
                ),
            ),
            JsonValue::Object(keys, values) => JsonTree::Object(
                Seq::new(keys@.len(), |i: int| keys@[i]@),
                Seq::new(
                    values@.len(),
                    |i: int|
                        if 0 <= i < values@.len() {
                            values@[i]@
                        } else {
                            JsonTree::Null
                        },
                ),
            ),
        }
    }
}

/// The view of an array is the array of the views of its elements.
pub proof fn lemma_array_view(v: JsonValue)
    requires
        v is Array,
    ensures
        v@ is Array,
        v@->Array_0.len() == v->Array_0@.len(),
        forall|j: int|
            0 <= j < v->Array_0@.len() ==> #[trigger] v@->Array_0[j] == v->Array_0@[j]@,
{
}

/// The view of an object holds the keys of its members and the views of
/// their values.
pub proof fn lemma_object_view(v: JsonValue)
    requires
        v is Object,
    ensures
        v@ is Object,
        v@->Object_0.len() == v->Object_0@.len(),
        v@->Object_1.len() == v->Object_1@.len(),
        forall|j: int| 0 <= j < v->Object_0@.len() ==> #[trigger] v@->Object_0[j] == v->Object_0@[j]@,
        forall|j: int| 0 <= j < v->Object_1@.len() ==> #[trigger] v@->Object_1[j] == v->Object_1@[j]@,
{
}

/// The lowercase form of a text.
pub uninterp spec fn lowercase_text(s: Seq<char>) -> Seq<char>;

/// The JSON document that a text holds, or nothing where the text is no JSON.
pub uninterp spec fn json_document(text: Seq<char>) -> Option<JsonTree>;

/// The format of a time in a session text.
pub const TIME_FORMAT: &'static str = "%H:%M:%S";

/// The text under the first member named `key` from index `from` on, if
/// that member is a text. A key without a value at its place names no member.
pub open spec fn member_text(keys: Seq<Seq<char>>, values: Seq<JsonTree>, key: Seq<char>, from: int) -> Option<
    Seq<char>,
>
    decreases keys.len() - from,
{
    if from < 0 || from >= keys.len() || from >= values.len() {
        None
    } else if keys[from] == key {
        match values[from] {
            JsonTree::Text(s) => Some(s),
            _ => None,
        }
    } else {
        member_text(keys, values, key, from + 1)
    }
}

impl JsonTree {
    /// The text that an object holds under `key`. A value that is no
    /// object, an object without that key, and a member that is no text
    /// have none.
    pub open spec fn text_under(self, key: Seq<char>) -> Option<Seq<char>> {
        match self {
            JsonTree::Object(keys, values) => member_text(keys, values, key, 0),
            _ => None,
        }
    }
}

impl JsonValue {
    /// The text that the value holds under `key`, if it is an object with
    /// such a member and the member is a text.
    pub fn text_at(&self, key: &str) -> (res: Option<&String>)
        ensures
            match res {
                Some(s) => self@.text_under(key@) == Some(s@),
                None => self@.text_under(key@) is None,
            },
    {
        match self {
            JsonValue::Object(keys, values) => {
                let wanted: String = String::from_str(key);
                let ghost key_texts = self@->Object_0;
                let ghost trees = self@->Object_1;
                proof {
                    lemma_object_view(*self);
                }
                let mut i: usize = 0;
                while i < keys.len() && i < values.len()
                    invariant
                        self@ == JsonTree::Object(key_texts, trees),
                        key_texts.len() == keys@.len(),
                        trees.len() == values@.len(),
                        forall|j: int| 0 <= j < key_texts.len() ==> #[trigger] key_texts[j] == keys@[j]@,
                        forall|j: int| 0 <= j < trees.len() ==> #[trigger] trees[j] == values@[j]@,
                        wanted@ == key@,
                        member_text(key_texts, trees, key@, 0) == member_text(
                            key_texts,
                            trees,
                            key@,
                            i as int,
                        ),
                    decreases keys.len() - i,
                {
                    if keys[i] == wanted {
                        return match &values[i] {
                            JsonValue::Text(s) => Some(s),
                            _ => None,
                        };
                    }
                    i += 1;
                }
                None
            },
            _ => None,
        }
    }
}

/// The span that one element of a session array stands for: its `begin` and
/// `end` texts read as times, shifted, and put in range.
pub open spec fn element_span(element: JsonTree) -> Result<Span, SessionError> {
    match (element.text_under("begin"@), element.text_under("end"@)) {
        (Some(begin_text), Some(end_text)) => match parsed_clock(begin_text, TIME_FORMAT@) {
            None => Err(SessionError::MalformedSessionJson),
            Some(begin) => match parsed_clock(end_text, TIME_FORMAT@) {
                None => Err(SessionError::MalformedSessionJson),
                Some(end) => Span::between(shift_clock(begin), shift_clock(end)),
            },
        },
        _ => Err(SessionError::MalformedSessionJson),
    }
}

/// The spans of the first `n` elements, or the failure of the first element
/// that fails.
pub open spec fn elements_spans(elements: Seq<JsonTree>, n: int) -> Result<Seq<Span>, SessionError>
    decreases n,
{
    if n <= 0 {
        Ok(Seq::empty())
    } else {
        match elements_spans(elements, n - 1) {
            Err(e) => Err(e),
            Ok(spans) => match element_span(elements[n - 1]) {
                Err(e) => Err(e),
                Ok(span) => Ok(spans.push(span)),
            },
        }
    }
}

/// The spans that a session document stands for. Only an array stands for any.
pub open spec fn document_spans(doc: JsonTree) -> Result<Seq<Span>, SessionError> {
    match doc {
        JsonTree::Array(elements) => elements_spans(elements, elements.len() as int),
        _ => Err(SessionError::MalformedSessionJson),
    }
}

/// The spans that a session text stands for: the text is put in lowercase,
/// keys and all, and read as JSON.
pub open spec fn session_text_spans(text: Seq<char>) -> Result<Seq<Span>, SessionError> {
    match json_document(lowercase_text(text)) {
        None => Err(SessionError::MalformedSessionJson),
        Some(doc) => document_spans(doc),
    }
}

/// What the outcome of reading slices says, in the model.
pub open spec fn slices_outcome(r: Result<Vec<SessionSlice>, SessionError>) -> Result<
    Seq<Span>,
    SessionError,
> {
    match r {
        Ok(slices) => Ok(slices@.map_values(|s: SessionSlice| s@)),
        Err(e) => Err(e),
    }
}

/// `str::to_lowercase` of std: the lowercase equivalent of the text as a new
/// string, by the Unicode property Lowercase. The result depends on the text
/// alone and is named [`lowercase_text`].
#[verifier::external_body]
fn to_lowercase(s: &str) -> (res: String)
    ensures
        res@ == lowercase_text(s@),
{
    s.to_lowercase()
}

/// Reads a `serde_json::Value` off, variant for variant: a `Number` by its
/// `to_string`, an array by its elements in order, an object by the keys and
/// the values of its members as `serde_json::Map::into_iter` hands them out.
#[verifier::external_body]
fn json_tree(v: serde_json::Value) -> JsonValue {
    match v {
        serde_json::Value::Null => JsonValue::Null,
        serde_json::Value::Bool(b) => JsonValue::Bool(b),
        serde_json::Value::Number(n) => JsonValue::Number(n.to_string()),
        serde_json::Value::String(s) => JsonValue::Text(s),
        serde_json::Value::Array(a) => JsonValue::Array(a.into_iter().map(json_tree).collect()),
        serde_json::Value::Object(o) => {
            let (keys, values) = o.into_iter().map(|(k, x)| (k, json_tree(x))).unzip();
            JsonValue::Object(keys, values)
        },
    }
}

/// `serde_json::from_str` at the parser's own value type. The outcome
/// depends on the text alone and is named [`json_document`]: the tree of the
/// value where the text is JSON, nothing where the parser refuses it.
#[verifier::external_body]
fn json_from_str(text: &str) -> (res: Result<JsonValue, serde_json::Error>)
    ensures
        match res {
            Ok(doc) => json_document(text@) == Some(doc@),
            Err(_) => json_document(text@) is None,
        },
{
    match serde_json::from_str::<serde_json::Value>(text) {
        Ok(v) => Ok(json_tree(v)),
        Err(e) => Err(e),
    }
}

/// Reads one element of a session array.
pub fn slice_from_json(element: &JsonValue) -> (res: Result<SessionSlice, SessionError>)
    ensures
        crate::slice::outcome_view(res) == element_span(element@),
{
    match (element.text_at("begin"), element.text_at("end")) {
        (Some(bb), Some(ee)) => {
            let begin = match parse_time(bb.as_str(), TIME_FORMAT) {
                Ok(t) => t,
                Err(e) => {
                    return Err(e);
                },
            };
            let end = match parse_time(ee.as_str(), TIME_FORMAT) {
                Ok(t) => t,
                Err(e) => {
                    return Err(e);
                },
            };
            SessionSlice::new(&begin, &end)
        },
        _ => Err(SessionError::MalformedSessionJson),
    }
}

/// Reads the slices of a session document: one for each element of the
/// array, in order. The first element that fails decides the error.
pub fn slices_from_json(doc: &JsonValue) -> (res: Result<Vec<SessionSlice>, SessionError>)
    ensures
        slices_outcome(res) == document_spans(doc@),
{
    match doc {
        JsonValue::Array(elements) => {
            let mut res: Vec<SessionSlice> = Vec::new();
            let mut i: usize = 0;
            let ghost trees = doc@->Array_0;
            proof {
                lemma_array_view(*doc);
            }
            assert(res@.map_values(|s: SessionSlice| s@) =~= Seq::<Span>::empty());
            while i < elements.len()
                invariant
                    i <= elements.len(),
                    doc@ == JsonTree::Array(trees),
                    trees.len() == elements@.len(),
                    forall|j: int| 0 <= j < trees.len() ==> #[trigger] trees[j] == elements@[j]@,
                    elements_spans(trees, i as int) == Ok::<Seq<Span>, SessionError>(
                        res@.map_values(|s: SessionSlice| s@),
                    ),
                decreases elements.len() - i,
            {
                match slice_from_json(&elements[i]) {
                    Ok(slice) => {
                        let ghost before = res@;
                        res.push(slice);
                        assert(res@.map_values(|s: SessionSlice| s@) =~= before.map_values(
                            |s: SessionSlice| s@,
                        ).push(slice@));
                    },
                    Err(e) => {
                        proof {
                            lemma_elements_fail(trees, i as int + 1, trees.len() as int);
                        }
                        return Err(e);
                    },
                }
                i += 1;
            }
            Ok(res)
        },
        _ => Err(SessionError::MalformedSessionJson),
    }
}

/// Once the first `n` elements fail, every longer prefix fails in the same way.
pub proof fn lemma_elements_fail(elements: Seq<JsonTree>, n: int, m: int)
    requires
        n <= m,
        elements_spans(elements, n) is Err,
    ensures
        elements_spans(elements, m) == elements_spans(elements, n),
    decreases m - n,
{
    if n < m {
        lemma_elements_fail(elements, n, m - 1);
    }
}

/// Reads a session text such as
/// `[{"Begin":"09:00:00","End":"10:15:00"},{"Begin":"21:00:00","End":"02:30:00"}]`
/// into its slices.
pub fn parse_json_slices(json: &str) -> (res: Result<Vec<SessionSlice>, SessionError>)
    ensures
        slices_outcome(res) == session_text_spans(json@),
{
    let lower: String = to_lowercase(json);
    match json_from_str(lower.as_str()) {
        Ok(doc) => slices_from_json(&doc),
        Err(_) => Err(SessionError::MalformedSessionJson),
    }
}

} // verus!
