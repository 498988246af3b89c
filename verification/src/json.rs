//! JSON values, and what is read out of them.
use vstd::prelude::*;
use crate::text;
use crate::text::{copy_text, same};

verus! {

broadcast use crate::text::group_texts;

/// A JSON value. The members of an object are in order; where a name occurs twice, the first one
/// counts.
#[derive(Debug, PartialEq, Eq)]
pub enum Json {
    Null,
    Bool(bool),
    /// A number that is not negative and whole.
    Unsigned(u64),
    /// A negative whole number.
    Negative(i64),
    /// Any other number, as it is written.
    Other(String),
    Text(String),
    Array(Vec<Json>),
    Object(Vec<(String, Json)>),
}

/// The first member of a sequence with a name.
pub open spec fn first_member(members: Seq<(String, Json)>, key: Seq<char>) -> Option<Json>
    decreases members.len(),
{
    if members.len() == 0 {
        None
    } else if members[0].0@ == key {
        Some(members[0].1)
    } else {
        first_member(members.skip(1), key)
    }
}

/// The member of an object with a name.
pub open spec fn member(value: Json, key: Seq<char>) -> Option<Json> {
    match value {
        Json::Object(members) => first_member(members@, key),
        _ => None,
    }
}

/// The text that a value is.
pub open spec fn text_in(value: Option<Json>) -> Option<Seq<char>> {
    match value {
        Some(Json::Text(s)) => Some(s@),
        _ => None,
    }
}

/// The whole number that a value is, where it is not negative.
pub open spec fn number_in(value: Option<Json>) -> Option<u64> {
    match value {
        Some(Json::Unsigned(n)) => Some(n),
        _ => None,
    }
}

/// The truth value that a value is.
pub open spec fn bool_in(value: Option<Json>) -> Option<bool> {
    match value {
        Some(Json::Bool(b)) => Some(b),
        _ => None,
    }
}

/// The member of an optional object with a name.
pub open spec fn member_of(value: Option<Json>, key: Seq<char>) -> Option<Json> {
    match value {
        Some(object) => member(object, key),
        None => None,
    }
}

/// What an optional reference refers to.
pub open spec fn referred(value: Option<&Json>) -> Option<Json> {
    match value {
        Some(json) => Some(*json),
        None => None,
    }
}

impl Json {
    /// The member of the object with a name.
    pub fn get(&self, key: &str) -> (r: Option<&Json>)
        ensures
            referred(r) == member(*self, key@),
    {
        match self {
            Json::Object(members) => {
                let ghost all = members@;
                let mut i: usize = 0;
                assert(all.skip(0) =~= all);
                while i < members.len()
                    invariant
                        0 <= i <= members.len(),
                        all == members@,
                        member(*self, key@) == first_member(all, key@),
                        first_member(all.skip(i as int), key@) == first_member(all, key@),
                    decreases members.len() - i,
                {
                    assert(all.skip(i as int).skip(1) =~= all.skip(i + 1));
                    if same(members[i].0.as_str(), key) {
                        return Some(&members[i].1);
                    }
                    i += 1;
                }
                None
            },
            _ => None,
        }
    }

    /// The text that the value is.
    pub fn as_text(&self) -> (r: Option<&str>)
        ensures
            match r {
                Some(s) => text_in(Some(*self)) == Some(s@),
                None => text_in(Some(*self)) is None,
            },
    {
        match self {
            Json::Text(s) => Some(s.as_str()),
            _ => None,
        }
    }

    /// The whole number that the value is, where it is not negative.
    pub fn as_u64(&self) -> (r: Option<u64>)
        ensures
            r == number_in(Some(*self)),
    {
        match self {
            Json::Unsigned(n) => Some(*n),
            _ => None,
        }
    }

    /// The truth value that the value is.
    pub fn as_bool(&self) -> (r: Option<bool>)
        ensures
            r == bool_in(Some(*self)),
    {
        match self {
            Json::Bool(b) => Some(*b),
            _ => None,
        }
    }
}

/// The member of an optional object with a name.
pub fn get_in<'a>(value: Option<&'a Json>, key: &str) -> (r: Option<&'a Json>)
    ensures
        referred(r) == member_of(referred(value), key@),
{
    match value {
        Some(object) => object.get(key),
        None => None,
    }
}

/// The text under a name in an optional object.
pub fn text_under<'a>(value: Option<&'a Json>, key: &str) -> (r: Option<&'a str>)
    ensures
        match r {
            Some(s) => text_in(member_of(referred(value), key@)) == Some(s@),
            None => text_in(member_of(referred(value), key@)) is None,
        },
{
    match get_in(value, key) {
        Some(found) => found.as_text(),
        None => None,
    }
}

/// The number under a name in an optional object.
pub fn number_under(value: Option<&Json>, key: &str) -> (r: Option<u64>)
    ensures
        r == number_in(member_of(referred(value), key@)),
{
    match get_in(value, key) {
        Some(found) => found.as_u64(),
        None => None,
    }
}

/// The truth value under a name in an optional object.
pub fn bool_under(value: Option<&Json>, key: &str) -> (r: Option<bool>)
    ensures
        r == bool_in(member_of(referred(value), key@)),
{
    match get_in(value, key) {
        Some(found) => found.as_bool(),
        None => None,
    }
}

/// What `serde_json` makes of a JSON text when it is read and written again with indentation;
/// nothing where the text is no JSON.
pub uninterp spec fn pretty_json_of(raw: Seq<char>) -> Option<Seq<char>>;

/// `serde_json::from_str` reads a JSON text and `serde_json::to_string_pretty` writes the value with
/// indentation. What is written is left to the name `pretty_json_of`.
#[verifier::external_body]
fn read_pretty_json(raw: &str) -> (r: Option<String>)
    ensures
        text::opt_text(r) == pretty_json_of(raw@),
{
    let value = serde_json::from_str::<serde_json::Value>(raw).ok()?;
    serde_json::to_string_pretty(&value).ok()
}

/// A JSON text with indentation, or as it stands where it cannot be read.
pub open spec fn indented(raw: Seq<char>, pretty: Option<Seq<char>>) -> Seq<char> {
    match pretty {
        Some(s) => s,
        None => raw,
    }
}

/// What a JSON text is with indentation, or the text as it stands where it cannot be read.
pub fn indented_or_raw(raw: &str, pretty: Option<String>) -> (r: String)
    ensures
        r@ == indented(raw@, text::opt_text(pretty)),
{
    match pretty {
        Some(s) => s,
        None => copy_text(raw),
    }
}

/// A JSON text with indentation, or as it stands where it cannot be read.
pub fn pretty_json(raw: &str) -> (r: String)
    ensures
        r@ == indented(raw@, pretty_json_of(raw@)),
{
    indented_or_raw(raw, read_pretty_json(raw))
}

/// The value at the end of a path of names.
pub open spec fn at_path(value: Json, path: Seq<Seq<char>>) -> Option<Json>
    decreases path.len(),
{
    if path.len() == 0 {
        Some(value)
    } else {
        match at_path(value, path.drop_last()) {
            Some(parent) => member(parent, path.last()),
            None => None,
        }
    }
}

/// The texts of string slices.
pub open spec fn slices(path: Seq<&str>) -> Seq<Seq<char>> {
    Seq::new(path.len(), |i: int| path[i]@)
}

/// The value at the end of a path of names.
pub fn navigate_setting<'a>(settings: &'a Json, path: &[&str]) -> (r: Option<&'a Json>)
    ensures
        referred(r) == at_path(*settings, slices(path@)),
{
    let ghost all = slices(path@);
    let mut current: Option<&'a Json> = Some(settings);
    let mut i: usize = 0;
    assert(all.take(0) =~= Seq::<Seq<char>>::empty());
    while i < path.len()
        invariant
            0 <= i <= path.len(),
            all == slices(path@),
            referred(current) == at_path(*settings, all.take(i as int)),
        decreases path.len() - i,
    {
        assert(all.take(i + 1).drop_last() =~= all.take(i as int));
        current = get_in(current, path[i]);
        i += 1;
    }
    assert(all.take(i as int) =~= all);
    current
}

/// The truth value at the end of a path, or a default one.
pub fn bool_setting(settings: &Json, path: &[&str], default: bool) -> (r: bool)
    ensures
        r == (match bool_in(at_path(*settings, slices(path@))) {
            Some(b) => b,
            None => default,
        }),
{
    match navigate_setting(settings, path) {
        Some(found) => match found.as_bool() {
            Some(b) => b,
            None => default,
        },
        None => default,
    }
}

/// The text at the end of a path.
pub fn string_setting(settings: &Json, path: &[&str]) -> (r: Option<String>)
    ensures
        text::opt_text(r) == text_in(at_path(*settings, slices(path@))),
{
    match navigate_setting(settings, path) {
        Some(found) => match found.as_text() {
            Some(s) => Some(copy_text(s)),
            None => None,
        },
        None => None,
    }
}

/// A member is found under its name: the first one of that name, whatever else there is.
pub proof fn members_are_found(members: Vec<(String, Json)>, k: int)
    requires
        0 <= k < members@.len(),
        forall|i: int| 0 <= i < k ==> (#[trigger] members@[i]).0@ != members@[k].0@,
    ensures
        member(Json::Object(members), members@[k].0@) == Some(members@[k].1),
{
    first_member_is_found(members@, k);
}

proof fn first_member_is_found(members: Seq<(String, Json)>, k: int)
    requires
        0 <= k < members.len(),
        forall|i: int| 0 <= i < k ==> (#[trigger] members[i]).0@ != members[k].0@,
    ensures
        first_member(members, members[k].0@) == Some(members[k].1),
    decreases members.len(),
{
    if k > 0 {
        assert(members[0].0@ != members[k].0@);
        let rest = members.skip(1);
        assert(rest[k - 1] == members[k]);
        assert forall|i: int| 0 <= i < k - 1 implies (#[trigger] rest[i]).0@ != rest[k - 1].0@ by {
            assert(rest[i] == members[i + 1]);
        }
        first_member_is_found(rest, k - 1);
    }
}

/// A path leads as far as its first part, and from there on as its second part.
pub proof fn paths_lead_on(value: Json, a: Seq<Seq<char>>, b: Seq<Seq<char>>)
    ensures
        at_path(value, Seq::empty()) == Some(value),
        at_path(value, a + b) == (match at_path(value, a) {
            Some(inner) => at_path(inner, b),
            None => None,
        }),
    decreases b.len(),
{
    if b.len() == 0 {
        assert(a + b =~= a);
    } else {
        assert((a + b).drop_last() =~= a + b.drop_last());
        paths_lead_on(value, a, b.drop_last());
    }
}

} // verus!
