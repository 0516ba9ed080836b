//! JSON documents as the client reads them: the compact text of the whole
//! document and, where the document is an object, its members with the text
//! of those members that are strings.

use vstd::prelude::*;

use crate::error::{ClientError, ErrorView};
use crate::text::{contains_text, lemma_contains_middle, same_text};

verus! {

/// One member of a JSON object: its key, and its text where the value is a
/// JSON string (`None` for any other kind of value).
#[derive(Debug)]
pub struct JsonMember {
    pub key: String,
    pub text: Option<String>,
}

/// A parsed JSON document.
#[derive(Debug)]
pub struct JsonDocument {
    /// The document written back as compact JSON.
    pub text: String,
    /// The members, in order, where the document is an object.
    pub members: Option<Vec<JsonMember>>,
}

/// The view of an optional text.
pub open spec fn opt_text(t: Option<String>) -> Option<Seq<char>> {
    match t {
        Some(s) => Some(s@),
        None => None,
    }
}

impl View for JsonMember {
    type V = (Seq<char>, Option<Seq<char>>);

    open spec fn view(&self) -> (Seq<char>, Option<Seq<char>>) {
        (self.key@, opt_text(self.text))
    }
}

impl View for JsonDocument {
    type V = (Seq<char>, Option<Seq<(Seq<char>, Option<Seq<char>>)>>);

    open spec fn view(&self) -> (Seq<char>, Option<Seq<(Seq<char>, Option<Seq<char>>)>>) {
        (
            self.text@,
            match self.members {
                Some(ms) => Some(ms@.map_values(|m: JsonMember| m@)),
                None => None,
            },
        )
    }
}

/// What `serde_json::from_str::<serde_json::Value>` makes of a text, seen as
/// a `JsonDocument` view: the compact text and the object's members with
/// their string values, or the parser's error message.
pub uninterp spec fn json_parse(raw: Seq<char>) -> Result<
    (Seq<char>, Option<Seq<(Seq<char>, Option<Seq<char>>)>>),
    Seq<char>,
>;

/// Calls `serde_json::from_str::<serde_json::Value>`. On success the value is
/// written back with `Value`'s `Display` (compact JSON) and, where it is an
/// object, its members are listed with `Value::as_str` of each; on failure the
/// error's `Display` is kept. Claims only that the outcome is the one named
/// `json_parse(raw)`.
#[verifier::external_body]
pub(crate) fn parse_json(raw: &str) -> (r: Result<JsonDocument, String>)
    ensures
        json_parse(raw@) == match r {
            Ok(d) => Ok(d@),
            Err(e) => Err(e@),
        },
{
    match serde_json::from_str::<serde_json::Value>(raw) {
        Ok(value) => Ok(JsonDocument {
            text: value.to_string(),
            members: value.as_object().map(|m| m.iter().map(|(k, v)| JsonMember {
                key: k.clone(),
                text: v.as_str().map(String::from),
            }).collect()),
        }),
        Err(e) => Err(e.to_string()),
    }
}

/// The compact JSON text of an object with the single member `key`, whose
/// value is the string `value`, as `serde_json` writes it.
pub uninterp spec fn json_single_member_object(key: Seq<char>, value: Seq<char>) -> Seq<char>;

/// Builds `serde_json::Value::Object` holding one string member and writes it
/// with `Value`'s `Display`. Claims only that the text is the one named
/// `json_single_member_object(key, value)`.
#[verifier::external_body]
pub(crate) fn single_member_object_text(key: &str, value: &str) -> (body: String)
    ensures
        body@ == json_single_member_object(key@, value@),
{
    serde_json::Value::Object(serde_json::Map::from_iter([(
        key.to_string(),
        serde_json::Value::String(value.to_string()),
    )])).to_string()
}

/// The value of the first member named `key`, if there is one.
pub open spec fn first_member(
    members: Seq<(Seq<char>, Option<Seq<char>>)>,
    key: Seq<char>,
) -> Option<Option<Seq<char>>>
    decreases members.len(),
{
    if members.len() == 0 {
        None
    } else if members[0].0 == key {
        Some(members[0].1)
    } else {
        first_member(members.drop_first(), key)
    }
}

/// The string that a document holds under `key`: `None` unless the document
/// is an object with a member `key` whose value is a string.
pub open spec fn string_member(
    doc: (Seq<char>, Option<Seq<(Seq<char>, Option<Seq<char>>)>>),
    key: Seq<char>,
) -> Option<Seq<char>> {
    match doc.1 {
        Some(ms) => match first_member(ms, key) {
            Some(Some(t)) => Some(t),
            _ => None,
        },
        None => None,
    }
}

/// The outcome of reading `field` from a response document.
pub open spec fn extract_field_view(
    doc: (Seq<char>, Option<Seq<(Seq<char>, Option<Seq<char>>)>>),
    field: Seq<char>,
) -> Result<Seq<char>, ErrorView> {
    match string_member(doc, field) {
        Some(t) => Ok(t),
        None => Err(ErrorView::MissingField { field, response: doc.0 }),
    }
}

/// Reads the string member `field` of a response; any other shape is an error
/// that quotes the field and the whole response.
pub fn extract_field(response: &JsonDocument, field: &str) -> (r: Result<String, ClientError>)
    ensures
        match r {
            Ok(s) => extract_field_view(response@, field@) == Ok::<Seq<char>, ErrorView>(s@),
            Err(e) => extract_field_view(response@, field@) == Err::<Seq<char>, ErrorView>(e@),
        },
{
    match &response.members {
        None => Err(ClientError::MissingField {
            field: String::from_str(field),
            response: response.text.clone(),
        }),
        Some(members) => {
            let ghost ms = members@.map_values(|m: JsonMember| m@);
            let mut i: usize = 0;
            assert(ms.skip(0) =~= ms);
            assert(response@.1 == Some(ms)) by {
                assert(response@.1.unwrap() =~= ms);
            }
            while i < members.len()
                invariant
                    ms == members@.map_values(|m: JsonMember| m@),
                    response@.1 == Some(ms),
                    i <= members.len(),
                    first_member(ms, field@) == first_member(ms.skip(i as int), field@),
                decreases members.len() - i,
            {
                assert(ms.skip(i as int).drop_first() =~= ms.skip(i + 1));
                assert(ms.skip(i as int)[0] == members@[i as int]@);
                if same_text(members[i].key.as_str(), field) {
                    assert(first_member(ms, field@) == Some(opt_text(members@[i as int].text)));
                    return match &members[i].text {
                        Some(t) => Ok(t.clone()),
                        None => Err(ClientError::MissingField {
                            field: String::from_str(field),
                            response: response.text.clone(),
                        }),
                    };
                }
                i = i + 1;
            }
            assert(ms.skip(i as int).len() == 0);
            Err(ClientError::MissingField {
                field: String::from_str(field),
                response: response.text.clone(),
            })
        },
    }
}

/// When a field cannot be read, the error names the field and quotes the
/// whole response.
pub proof fn lemma_missing_field_error_names_field(
    doc: (Seq<char>, Option<Seq<(Seq<char>, Option<Seq<char>>)>>),
    field: Seq<char>,
)
    requires
        string_member(doc, field) is None,
    ensures
        extract_field_view(doc, field) is Err,
        contains_text(extract_field_view(doc, field)->Err_0.message(), field),
        contains_text(extract_field_view(doc, field)->Err_0.message(), doc.0),
{
    let m = extract_field_view(doc, field)->Err_0.message();
    lemma_contains_middle("expected string field `"@, field, "` in response, got: "@ + doc.0);
    assert("expected string field `"@ + field + ("` in response, got: "@ + doc.0) =~= m);
    lemma_contains_middle("expected string field `"@ + field + "` in response, got: "@, doc.0, Seq::empty());
    assert("expected string field `"@ + field + "` in response, got: "@ + doc.0 + Seq::empty() =~= m);
}

/// The value of a member list under `key` is that of its first member of
/// that name.
proof fn lemma_first_member_at(
    members: Seq<(Seq<char>, Option<Seq<char>>)>,
    key: Seq<char>,
    i: int,
)
    requires
        0 <= i < members.len(),
        members[i].0 == key,
        forall|j: int| 0 <= j < i ==> members[j].0 != key,
    ensures
        first_member(members, key) == Some(members[i].1),
    decreases i,
{
    if i > 0 {
        let rest = members.drop_first();
        assert(members[0].0 != key);
        assert forall|j: int| 0 <= j < i - 1 implies rest[j].0 != key by {
            assert(rest[j] == members[j + 1]);
        }
        assert(rest[i - 1] == members[i]);
        lemma_first_member_at(rest, key, i - 1);
    }
}

/// When the response is an object whose (first) member `field` is the JSON
/// string `t`, reading `field` gives exactly `t`, whatever its length.
pub proof fn lemma_extract_field_returns_member_string(
    text: Seq<char>,
    members: Seq<(Seq<char>, Option<Seq<char>>)>,
    field: Seq<char>,
    i: int,
    t: Seq<char>,
)
    requires
        0 <= i < members.len(),
        members[i] == (field, Some(t)),
        forall|j: int| 0 <= j < i ==> members[j].0 != field,
    ensures
        extract_field_view((text, Some(members)), field) == Ok::<Seq<char>, ErrorView>(t),
{
    lemma_first_member_at(members, field, i);
}

} // verus!
