//! The parts of a JSON document that the sign-in flow reads, and the
//! lookups it makes in them. A document reaches the library already
//! parsed, as a `Json` value.
use vstd::prelude::*;
use crate::text::{chars_of, same_chars};

verus! {

/// A JSON value. A number is held as what the client reads of it: its
/// value when it is an integer that fits in `i64`, `None` otherwise.
/// An object holds its members in order, each key once.
#[derive(Debug)]
pub enum Json {
    Null,
    Bool(bool),
    Number(Option<i64>),
    Str(String),
    Array(Vec<Json>),
    Object(Vec<(String, Json)>),
}

/// A JSON value as the proofs see it: texts as character sequences.
pub enum JsonView {
    Null,
    Bool(bool),
    Number(Option<i64>),
    Str(Seq<char>),
    Array(Seq<JsonView>),
    Object(Seq<(Seq<char>, JsonView)>),
}

/// The view of a JSON value.
pub open spec fn json_view(j: Json) -> JsonView
    decreases j,
{
    match j {
        Json::Null => JsonView::Null,
        Json::Bool(b) => JsonView::Bool(b),
        Json::Number(n) => JsonView::Number(n),
        Json::Str(s) => JsonView::Str(s@),
        Json::Array(a) => JsonView::Array(
            Seq::new(
                a@.len(),
                |i: int|
                    if 0 <= i < a@.len() {
                        json_view(a@[i])
                    } else {
                        JsonView::Null
                    },
            ),
        ),
        Json::Object(m) => JsonView::Object(
            Seq::new(
                m@.len(),
                |i: int|
                    if 0 <= i < m@.len() {
                        (m@[i].0@, json_view(m@[i].1))
                    } else {
                        (Seq::empty(), JsonView::Null)
                    },
            ),
        ),
    }
}

/// The view of an optional JSON value.
pub open spec fn json_opt_view(v: Option<Json>) -> Option<JsonView> {
    match v {
        Some(j) => Some(json_view(j)),
        None => None,
    }
}

/// The value of the first member named `key` among `members` (`Null`
/// when there is none).
pub open spec fn lookup(members: Seq<(Seq<char>, JsonView)>, key: Seq<char>) -> JsonView
    decreases members.len(),
{
    if members.len() == 0 {
        JsonView::Null
    } else if members[0].0 == key {
        members[0].1
    } else {
        lookup(members.drop_first(), key)
    }
}

/// `value[key]`: the member's value for an object, `Null` for a missing
/// member or a value that is not an object.
pub open spec fn member(v: JsonView, key: Seq<char>) -> JsonView {
    match v {
        JsonView::Object(m) => lookup(m, key),
        _ => JsonView::Null,
    }
}

/// The value of member `key` of `v`; `None` stands for `Null` from a
/// missing member or a non-object.
pub fn member_of<'a>(v: &'a Json, key: &str) -> (r: Option<&'a Json>)
    ensures
        match r {
            Some(x) => json_view(*x) == member(json_view(*v), key@),
            None => member(json_view(*v), key@) == JsonView::Null,
        },
{
    match v {
        Json::Object(m) => {
            let ghost vm = match json_view(*v) {
                JsonView::Object(s) => s,
                _ => Seq::empty(),
            };
            let k = chars_of(key);
            let mut i: usize = 0;
            proof {
                assert(vm.skip(0) == vm);
            }
            while i < m.len()
                invariant
                    i <= m.len(),
                    k@ == key@,
                    vm.len() == m@.len(),
                    forall|j: int| 0 <= j < m@.len() ==> #[trigger] vm[j] == (m@[j].0@, json_view(m@[j].1)),
                    member(json_view(*v), key@) == lookup(vm, key@),
                    lookup(vm, key@) == lookup(vm.skip(i as int), key@),
                decreases m.len() - i,
            {
                proof {
                    assert(vm.skip(i as int)[0] == vm[i as int]);
                    assert(vm.skip(i as int).drop_first() == vm.skip(i + 1));
                }
                let name = chars_of(m[i].0.as_str());
                if same_chars(&name, &k) {
                    proof {
                        assert(vm[i as int].0 == key@);
                    }
                    return Some(&m[i].1);
                }
                i = i + 1;
            }
            proof {
                assert(vm.skip(i as int).len() == 0);
            }
            None
        },
        _ => None,
    }
}

/// The human-verification token in an error document: when its `Code` is
/// the integer 9001, the text of `Details.HumanVerificationToken` (if it
/// is text); otherwise none.
pub open spec fn hv_token_of(v: JsonView) -> Option<Seq<char>> {
    if member(v, "Code"@) == JsonView::Number(Some(9001i64)) {
        match member(member(v, "Details"@), "HumanVerificationToken"@) {
            JsonView::Str(s) => Some(s),
            _ => None,
        }
    } else {
        None
    }
}

/// The text of an optional string.
pub open spec fn opt_text(t: Option<String>) -> Option<Seq<char>> {
    match t {
        Some(s) => Some(s@),
        None => None,
    }
}

/// Reads the human-verification token out of an error document.
pub fn hv_token_in(v: &Json) -> (t: Option<String>)
    ensures
        opt_text(t) == hv_token_of(json_view(*v)),
{
    let code = member_of(v, "Code");
    let is_9001 = match code {
        Some(Json::Number(Some(n))) => *n == 9001,
        _ => false,
    };
    if !is_9001 {
        return None;
    }
    match member_of(v, "Details") {
        Some(details) => match member_of(details, "HumanVerificationToken") {
            Some(Json::Str(s)) => Some(s.clone()),
            _ => None,
        },
        None => {
            proof {
                assert(member(JsonView::Null, "HumanVerificationToken"@) == JsonView::Null);
            }
            None
        },
    }
}

/// The JSON document that `serde_json` reads from `text`, when `text` is
/// one (a name: JSON's grammar and `serde_json`'s reading of it are not
/// restated here).
pub uninterp spec fn json_document(text: Seq<char>) -> Option<JsonView>;

/// `serde_json::from_str::<serde_json::Value>`: the document `text` holds,
/// `None` when it is not one JSON document. The claim is that the result
/// depends on `text` alone and is the same value as `serde_json` reads it
/// (numbers as their `i64` value where they are one).
#[verifier::external_body]
pub fn parse_json(text: &str) -> (v: Option<Json>)
    ensures
        json_opt_view(v) == json_document(text@),
{
    serde_json::from_str::<serde_json::Value>(text).ok().map(json_of_value)
}

/// `serde_json::Value`, carried opaquely from the parse to its conversion.
#[verifier::external_type_specification]
#[verifier::external_body]
pub struct ExJsonValue(serde_json::Value);

/// The conversion half of `parse_json`: a `serde_json::Value` as a `Json`,
/// variant for variant (a number as `Number::as_i64`, an object's members
/// in the map's order).
#[verifier::external_body]
fn json_of_value(v: serde_json::Value) -> Json {
    match v {
        serde_json::Value::Null => Json::Null,
        serde_json::Value::Bool(b) => Json::Bool(b),
        serde_json::Value::Number(n) => Json::Number(n.as_i64()),
        serde_json::Value::String(s) => Json::Str(s),
        serde_json::Value::Array(a) => Json::Array(a.into_iter().map(json_of_value).collect()),
        serde_json::Value::Object(m) => Json::Object(m.into_iter().map(|(k, x)| (k, json_of_value(x))).collect()),
    }
}

/// What `serde_json::to_string` gives for a string: the JSON string
/// literal for it, or nothing where serialization reports an error.
pub uninterp spec fn json_string_text(text: Seq<char>) -> Option<Seq<char>>;

/// `serde_json::to_string` of a string. The result is a function of the
/// text alone; the escaping rules are serde_json's and are not restated.
#[verifier::external_body]
pub(crate) fn json_string(text: &str) -> (q: Option<String>)
    ensures
        opt_text(q) == json_string_text(text@),
{
    serde_json::to_string(text).ok()
}

/// The index of the first `c` in `s`.
pub open spec fn first_index(s: Seq<char>, c: char) -> Option<int>
    decreases s.len(),
{
    if s.len() == 0 {
        None
    } else if s[0] == c {
        Some(0)
    } else {
        match first_index(s.drop_first(), c) {
            Some(i) => Some(i + 1),
            None => None,
        }
    }
}

/// The part of an error message where an embedded JSON document may
/// start: from its first `{` on.
pub open spec fn json_part_of(message: Seq<char>) -> Option<Seq<char>> {
    match first_index(message, '{') {
        Some(i) => Some(message.skip(i)),
        None => None,
    }
}

/// The text of `message` from its first `{` on, if it has one.
pub fn json_part(message: &str) -> (r: Option<String>)
    ensures
        match r {
            Some(s) => json_part_of(message@) == Some(s@),
            None => json_part_of(message@) is None,
        },
{
    let v = chars_of(message);
    let mut i: usize = 0;
    proof {
        assert(v@.skip(0) == v@);
    }
    while i < v.len()
        invariant
            i <= v.len(),
            v@ == message@,
            first_index(v@, '{') == match first_index(v@.skip(i as int), '{') {
                Some(j) => Some(j + i),
                None => None,
            },
        decreases v.len() - i,
    {
        proof {
            assert(v@.skip(i as int)[0] == v@[i as int]);
            assert(v@.skip(i as int).drop_first() == v@.skip(i + 1));
        }
        if v[i] == '{' {
            let mut out: Vec<char> = Vec::new();
            crate::paths::push_range(&mut out, &v, i, v.len());
            proof {
                assert(v@.subrange(i as int, v.len() as int) == v@.skip(i as int));
            }
            return Some(crate::text::string_of(&out));
        }
        i = i + 1;
    }
    proof {
        assert(v@.skip(i as int).len() == 0);
    }
    None
}

} // verus!
