//! JSON values, as the configuration rules read them.

use vstd::prelude::*;
use crate::text::str_eq;

verus! {

/// A JSON value. A number is kept as its decimal text; an object as its members
/// in order.
#[derive(Debug)]
pub enum JsonValue {
    Null,
    Bool(bool),
    Number(String),
    String(String),
    Array(Vec<JsonValue>),
    Object(Vec<(String, JsonValue)>),
}

} // verus!

verus! {

/// The value of a JSON value, with text by its characters.
pub enum JsonView {
    Null,
    Bool(bool),
    Number(Seq<char>),
    Str(Seq<char>),
    Array(Seq<JsonView>),
    Object(Seq<(Seq<char>, JsonView)>),
}

/// The value of a JSON value.
pub open spec fn jv(v: JsonValue) -> JsonView
    decreases v,
{
    match v {
        JsonValue::Null => JsonView::Null,
        JsonValue::Bool(b) => JsonView::Bool(b),
        JsonValue::Number(n) => JsonView::Number(n@),
        JsonValue::String(s) => JsonView::Str(s@),
        JsonValue::Array(a) => JsonView::Array(jv_items(a@)),
        JsonValue::Object(m) => JsonView::Object(jv_members(m@)),
    }
}

/// The values of the items of an array.
pub open spec fn jv_items(s: Seq<JsonValue>) -> Seq<JsonView>
    decreases s,
{
    if s.len() == 0 {
        Seq::empty()
    } else {
        jv_items(s.drop_last()).push(jv(s.last()))
    }
}

/// The values of the members of an object.
pub open spec fn jv_members(s: Seq<(String, JsonValue)>) -> Seq<(Seq<char>, JsonView)>
    decreases s,
{
    if s.len() == 0 {
        Seq::empty()
    } else {
        jv_members(s.drop_last()).push((s.last().0@, jv(s.last().1)))
    }
}

impl View for JsonValue {
    type V = JsonView;

    open spec fn view(&self) -> JsonView {
        jv(*self)
    }
}

/// The value of the first member named `key`, if any.
pub open spec fn member(m: Seq<(Seq<char>, JsonView)>, key: Seq<char>) -> Option<JsonView>
    decreases m.len(),
{
    if m.len() == 0 {
        None
    } else if m[0].0 == key {
        Some(m[0].1)
    } else {
        member(m.drop_first(), key)
    }
}

/// What indexing a value by a key gives: the member's value for an object, nothing
/// otherwise.
pub open spec fn get_key(v: JsonView, key: Seq<char>) -> Option<JsonView> {
    match v {
        JsonView::Object(m) => member(m, key),
        _ => None,
    }
}

/// The value of the first member named `key` of an object's members.
pub fn get_member<'a>(m: &'a Vec<(String, JsonValue)>, key: &str) -> (r: Option<&'a JsonValue>)
    ensures
        match r {
            Some(v) => member(jv_members(m@), key@) == Some(v@),
            None => member(jv_members(m@), key@) is None,
        },
{
    let mut i: usize = 0;
    assert(m@.skip(0) =~= m@);
    while i < m.len()
        invariant
            i <= m@.len(),
            member(jv_members(m@), key@) == member(jv_members(m@.skip(i as int)), key@),
        decreases m.len() - i,
    {
        proof {
            lemma_members_skip(m@, i as int);
        }
        if str_eq(m[i].0.as_str(), key) {
            return Some(&m[i].1);
        }
        proof {
            assert(m@.skip(i as int).drop_first() =~= m@.skip(i + 1));
        }
        i = i + 1;
    }
    proof {
        assert(m@.skip(i as int) =~= Seq::<(String, JsonValue)>::empty());
        assert(jv_members(Seq::<(String, JsonValue)>::empty()) =~= Seq::empty());
    }
    None
}

/// The members' values, taken from position `i` on, start with the value of the
/// member at `i` and go on with those after it.
proof fn lemma_members_skip(m: Seq<(String, JsonValue)>, i: int)
    requires
        0 <= i < m.len(),
    ensures
        jv_members(m.skip(i)).len() > 0,
        jv_members(m.skip(i))[0] == (m[i].0@, jv(m[i].1)),
        jv_members(m.skip(i)).drop_first() == jv_members(m.skip(i + 1)),
{
    lemma_members_index(m.skip(i));
    lemma_members_index(m.skip(i + 1));
    assert(m.skip(i)[0] == m[i]);
    assert(jv_members(m.skip(i)).drop_first() =~= jv_members(m.skip(i + 1))) by {
        assert forall|k: int| 0 <= k < jv_members(m.skip(i + 1)).len() implies jv_members(m.skip(i)).drop_first()[k]
            == jv_members(m.skip(i + 1))[k] by {
            assert(m.skip(i)[k + 1] == m.skip(i + 1)[k]);
        }
    }
}

/// The members' values, position by position.
pub proof fn lemma_members_index(m: Seq<(String, JsonValue)>)
    ensures
        jv_members(m).len() == m.len(),
        forall|k: int| 0 <= k < m.len() ==> #[trigger] jv_members(m)[k] == (m[k].0@, jv(m[k].1)),
    decreases m.len(),
{
    if m.len() > 0 {
        lemma_members_index(m.drop_last());
        assert forall|k: int| 0 <= k < m.len() implies #[trigger] jv_members(m)[k] == (m[k].0@, jv(m[k].1)) by {
            if k < m.len() - 1 {
                assert(m.drop_last()[k] == m[k]);
            }
        }
    }
}

/// The items' values, position by position.
pub proof fn lemma_items_index(a: Seq<JsonValue>)
    ensures
        jv_items(a).len() == a.len(),
        forall|k: int| 0 <= k < a.len() ==> #[trigger] jv_items(a)[k] == jv(a[k]),
    decreases a.len(),
{
    if a.len() > 0 {
        lemma_items_index(a.drop_last());
        assert forall|k: int| 0 <= k < a.len() implies #[trigger] jv_items(a)[k] == jv(a[k]) by {
            if k < a.len() - 1 {
                assert(a.drop_last()[k] == a[k]);
            }
        }
    }
}

} // verus!
