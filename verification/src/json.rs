//! JSON documents as plain values: objects one level deep, with whatever is
//! nested deeper kept as its own JSON text.
use vstd::prelude::*;
use vstd::string::*;

use serde_json::Value;

use crate::text;
use crate::text::same_text;

verus! {

/// A value inside a JSON object.
#[derive(Debug, PartialEq)]
pub enum JsonMember {
    Null,
    Bool(bool),
    /// A number, in its JSON notation.
    Number(String),
    Text(String),
    /// An array or an object, as JSON text.
    Nested(String),
}

/// What a [`JsonMember`] holds.
pub enum JsonMemberView {
    Null,
    Bool(bool),
    Number(Seq<char>),
    Text(Seq<char>),
    Nested(Seq<char>),
}

impl View for JsonMember {
    type V = JsonMemberView;

    open spec fn view(&self) -> JsonMemberView {
        match self {
            JsonMember::Null => JsonMemberView::Null,
            JsonMember::Bool(b) => JsonMemberView::Bool(*b),
            JsonMember::Number(n) => JsonMemberView::Number(n@),
            JsonMember::Text(t) => JsonMemberView::Text(t@),
            JsonMember::Nested(t) => JsonMemberView::Nested(t@),
        }
    }
}

impl Clone for JsonMember {
    fn clone(&self) -> (r: JsonMember)
        ensures
            r@ == self@,
    {
        match self {
            JsonMember::Null => JsonMember::Null,
            JsonMember::Bool(b) => JsonMember::Bool(*b),
            JsonMember::Number(n) => JsonMember::Number(n.clone()),
            JsonMember::Text(t) => JsonMember::Text(t.clone()),
            JsonMember::Nested(t) => JsonMember::Nested(t.clone()),
        }
    }
}

/// The members of a JSON object.
pub type Members = Vec<(String, JsonMember)>;

/// What [`Members`] hold.
pub type MembersView = Seq<(Seq<char>, JsonMemberView)>;

/// A JSON document.
#[derive(Debug, PartialEq)]
pub enum JsonDocument {
    Object(Members),
    /// Any other document, as JSON text.
    Other(String),
}

/// What a [`JsonDocument`] holds.
pub enum JsonDocumentView {
    Object(MembersView),
    Other(Seq<char>),
}

impl View for JsonDocument {
    type V = JsonDocumentView;

    open spec fn view(&self) -> JsonDocumentView {
        match self {
            JsonDocument::Object(m) => JsonDocumentView::Object(text::views(m@)),
            JsonDocument::Other(t) => JsonDocumentView::Other(t@),
        }
    }
}

/// The view of the outcome of reading a document.
pub open spec fn outcome_view(
    r: Result<JsonDocument, String>,
) -> Result<JsonDocumentView, Seq<char>> {
    match r {
        Ok(d) => Ok(d@),
        Err(e) => Err(e@),
    }
}

/// The document that a JSON text stands for, or the parser's words about why
/// it stands for none.
pub uninterp spec fn json_document(text: Seq<char>) -> Result<JsonDocumentView, Seq<char>>;

/// `serde_json::from_str` into a `serde_json::Value`. The document, or the
/// message of the error, is a function of the text alone.
#[verifier::external_body]
pub(crate) fn read_json(text: &str) -> (r: Result<JsonDocument, String>)
    ensures
        outcome_view(r) == json_document(text@),
{
    let member = |v: Value| match v {
        Value::Null => JsonMember::Null,
        Value::Bool(b) => JsonMember::Bool(b),
        Value::Number(n) => JsonMember::Number(n.to_string()),
        Value::String(t) => JsonMember::Text(t),
        Value::Array(_) => JsonMember::Nested(v.to_string()),
        Value::Object(_) => JsonMember::Nested(v.to_string()),
    };
    match serde_json::from_str(text) {
        Ok(Value::Object(map)) => Ok(
            JsonDocument::Object(map.into_iter().map(|(k, v)| (k, member(v))).collect()),
        ),
        Ok(other) => Ok(JsonDocument::Other(other.to_string())),
        Err(error) => Err(error.to_string()),
    }
}

/// The JSON text of an object whose members are all texts.
pub uninterp spec fn json_object_text(members: Seq<(Seq<char>, Seq<char>)>) -> Seq<char>;

/// `serde_json::Value::to_string` on an object whose members are all texts.
/// The JSON text is a function of the members alone.
#[verifier::external_body]
pub(crate) fn write_json_object(members: &Vec<(String, String)>) -> (r: String)
    ensures
        r@ == json_object_text(text::views(members@)),
{
    let map: serde_json::Map<String, serde_json::Value> = members.iter().map(
        |(k, v)| (k.clone(), serde_json::Value::String(v.clone())),
    ).collect();
    serde_json::Value::Object(map).to_string()
}

/// The member with this name, if there is one: the first, should the name
/// occur more than once.
pub open spec fn member<V>(members: Seq<(Seq<char>, V)>, name: Seq<char>) -> Option<V>
    decreases members.len(),
{
    if members.len() == 0 {
        None
    } else if members[0].0 == name {
        Some(members[0].1)
    } else {
        member(members.drop_first(), name)
    }
}

/// The member with this name, if there is one.
pub fn find_member<'a, V: View>(members: &'a Vec<(String, V)>, name: &str) -> (r: Option<&'a V>)
    ensures
        match r {
            Some(v) => member(text::views(members@), name@) == Some(v@),
            None => member(text::views(members@), name@) is None,
        },
{
    let ghost all = text::views(members@);
    let mut i: usize = 0;
    assert(all.skip(0) =~= all);
    while i < members.len()
        invariant
            i <= members.len(),
            all == text::views(members@),
            member(all, name@) == member(all.skip(i as int), name@),
        decreases members.len() - i,
    {
        assert(all.skip(i as int)[0] == members@[i as int]@);
        if same_text(members[i].0.as_str(), name) {
            return Some(&members[i].1);
        }
        assert(all.skip(i as int).drop_first() =~= all.skip(i + 1));
        i = i + 1;
    }
    None
}

/// The text that a member holds, when it holds one.
pub open spec fn as_text(m: Option<JsonMemberView>) -> Option<Seq<char>> {
    match m {
        Some(JsonMemberView::Text(t)) => Some(t),
        _ => None,
    }
}

/// The truth value that a member holds, when it holds one.
pub open spec fn as_bool(m: Option<JsonMemberView>) -> Option<bool> {
    match m {
        Some(JsonMemberView::Bool(b)) => Some(b),
        _ => None,
    }
}

/// A copy of the members.
pub fn copy_members(members: &Members) -> (r: Members)
    ensures
        text::views(r@) == text::views(members@),
{
    let mut out: Members = Vec::new();
    let mut i: usize = 0;
    while i < members.len()
        invariant
            i <= members.len(),
            out.len() == i,
            forall|k: int| 0 <= k < i ==> (#[trigger] out@[k])@ == members@[k]@,
        decreases members.len() - i,
    {
        out.push((members[i].0.clone(), members[i].1.clone()));
        i = i + 1;
    }
    assert(text::views(out@) =~= text::views(members@));
    out
}

/// A name finds the first member that carries it.
pub proof fn law_first_member_is_found<V>(members: Seq<(Seq<char>, V)>, name: Seq<char>, i: int)
    requires
        0 <= i < members.len(),
        members[i].0 == name,
        forall|k: int| 0 <= k < i ==> (#[trigger] members[k]).0 != name,
    ensures
        member(members, name) == Some(members[i].1),
    decreases i,
{
    if i > 0 {
        let rest = members.drop_first();
        assert(members[0].0 != name);
        assert forall|k: int| 0 <= k < i - 1 implies (#[trigger] rest[k]).0 != name by {
            assert(rest[k] == members[k + 1]);
        }
        law_first_member_is_found(rest, name, i - 1);
    }
}

/// A name that no member carries finds nothing.
pub proof fn law_missing_member_is_not_found<V>(members: Seq<(Seq<char>, V)>, name: Seq<char>)
    requires
        forall|k: int| 0 <= k < members.len() ==> (#[trigger] members[k]).0 != name,
    ensures
        member(members, name) is None,
    decreases members.len(),
{
    if members.len() > 0 {
        let rest = members.drop_first();
        assert(members[0].0 != name);
        assert forall|k: int| 0 <= k < rest.len() implies (#[trigger] rest[k]).0 != name by {
            assert(rest[k] == members[k + 1]);
        }
        law_missing_member_is_not_found(rest, name);
    }
}

/// Only a text is read as a text, and only a truth value as one.
pub proof fn law_members_keep_their_kind(m: JsonMemberView, t: Seq<char>, b: bool)
    ensures
        as_text(Some(m)) == Some(t) <==> m == JsonMemberView::Text(t),
        as_bool(Some(m)) == Some(b) <==> m == JsonMemberView::Bool(b),
        as_text(None) is None,
        as_bool(None) is None,
{
}

} // verus!
