//! JSON values: a plain tree, its mathematical model, and the operations on members.
use crate::text::str_eq;
use vstd::prelude::*;

verus! {

/// A JSON number, as one of the three forms in which a parser holds it.
#[derive(Clone, Copy, Debug, PartialEq, Eq, Structural)]
pub enum JsonNumber {
    /// An integer that is zero or positive.
    Unsigned(u64),
    /// A negative integer.
    Negative(i64),
    /// Any other number, as the bits of its double-precision value.
    Double(u64),
}

/// A JSON value. An object keeps its members in order; where a name occurs twice, the first
/// member of that name is the one that lookups and updates see.
#[derive(Debug, PartialEq)]
pub enum Json {
    Null,
    Bool(bool),
    Number(JsonNumber),
    String(String),
    Array(Vec<Json>),
    Object(Vec<(String, Json)>),
}

/// The model of a [`Json`] value.
pub enum JsonTree {
    Null,
    Bool(bool),
    Number(JsonNumber),
    String(Seq<char>),
    Array(Seq<JsonTree>),
    Object(Seq<(Seq<char>, JsonTree)>),
}

/// The tree that a [`Json`] value stands for.
pub open spec fn tree_of(j: Json) -> JsonTree
    decreases j,
{
    match j {
        Json::Null => JsonTree::Null,
        Json::Bool(b) => JsonTree::Bool(b),
        Json::Number(n) => JsonTree::Number(n),
        Json::String(s) => JsonTree::String(s@),
        Json::Array(items) => JsonTree::Array(
            Seq::new(
                items@.len(),
                |i: int|
                    if 0 <= i < items@.len() {
                        tree_of(items@[i])
                    } else {
                        JsonTree::Null
                    },
            ),
        ),
        Json::Object(members) => JsonTree::Object(
            Seq::new(
                members@.len(),
                |i: int|
                    if 0 <= i < members@.len() {
                        (members@[i].0@, tree_of(members@[i].1))
                    } else {
                        (Seq::empty(), JsonTree::Null)
                    },
            ),
        ),
    }
}

impl DeepView for Json {
    type V = JsonTree;

    open spec fn deep_view(&self) -> JsonTree {
        tree_of(*self)
    }
}

/// What an array value stands for, item by item.
pub broadcast proof fn lemma_tree_of_array(items: Vec<Json>)
    ensures
        #[trigger] tree_of(Json::Array(items)) == JsonTree::Array(items.deep_view()),
{
    assert(tree_of(Json::Array(items))->Array_0 =~= items.deep_view());
}

/// What an object value stands for, member by member.
pub broadcast proof fn lemma_tree_of_object(members: Vec<(String, Json)>)
    ensures
        #[trigger] tree_of(Json::Object(members)) == JsonTree::Object(members.deep_view()),
{
    assert(tree_of(Json::Object(members))->Object_0 =~= members.deep_view());
}

/// The position of the first member named `key`, or the number of members if there is none.
pub open spec fn key_index(members: Seq<(Seq<char>, JsonTree)>, key: Seq<char>) -> int
    decreases members.len(),
{
    if members.len() == 0 || members[0].0 == key {
        0
    } else {
        1 + key_index(members.drop_first(), key)
    }
}

/// The first member named `key` of an object; other values have no members.
pub open spec fn member(value: JsonTree, key: Seq<char>) -> Option<JsonTree> {
    match value {
        JsonTree::Object(members) => {
            let i = key_index(members, key);
            if i < members.len() {
                Some(members[i].1)
            } else {
                None
            }
        },
        _ => None,
    }
}

/// The text of a string value.
pub open spec fn string_of(value: JsonTree) -> Option<Seq<char>> {
    match value {
        JsonTree::String(s) => Some(s),
        _ => None,
    }
}

/// `value` with its member `key` set to `new`: in place of the first member of that name, or
/// behind the others. A value that is no object stays as it is.
pub open spec fn with_member(value: JsonTree, key: Seq<char>, new: JsonTree) -> JsonTree {
    match value {
        JsonTree::Object(members) => {
            let i = key_index(members, key);
            if i < members.len() {
                JsonTree::Object(members.update(i, (key, new)))
            } else {
                JsonTree::Object(members.push((key, new)))
            }
        },
        _ => value,
    }
}

/// `key_index` is the least position at which `key` stands.
pub proof fn lemma_key_index(members: Seq<(Seq<char>, JsonTree)>, key: Seq<char>)
    ensures
        0 <= key_index(members, key) <= members.len(),
        key_index(members, key) < members.len() ==> members[key_index(members, key)].0 == key,
        forall|j: int| 0 <= j < key_index(members, key) ==> (#[trigger] members[j]).0 != key,
    decreases members.len(),
{
    if members.len() > 0 && members[0].0 != key {
        let rest = members.drop_first();
        lemma_key_index(rest, key);
        assert forall|j: int| 0 <= j < key_index(members, key) implies (
        #[trigger] members[j]).0 != key by {
            if j > 0 {
                assert(members[j] == rest[j - 1]);
            }
        }
    }
}

/// Where a name stands first is decided by the names up to there.
pub proof fn lemma_key_index_is(members: Seq<(Seq<char>, JsonTree)>, key: Seq<char>, i: int)
    requires
        0 <= i < members.len(),
        members[i].0 == key,
        forall|j: int| 0 <= j < i ==> (#[trigger] members[j]).0 != key,
    ensures
        key_index(members, key) == i,
{
    lemma_key_index(members, key);
}

/// A member that was set is found; setting it once more is setting it to the last value; and
/// members of other names stay what they were.
pub proof fn law_member_after_set(value: JsonTree, key: Seq<char>, new: JsonTree)
    requires
        value is Object,
    ensures
        member(with_member(value, key, new), key) == Some(new),
        forall|newer: JsonTree| #[trigger]
            with_member(with_member(value, key, new), key, newer) == with_member(value, key, newer),
        forall|other: Seq<char>|
            other != key ==> #[trigger] member(with_member(value, key, new), other) == member(
                value,
                other,
            ),
{
    let members = value->Object_0;
    let i = key_index(members, key);
    let changed = with_member(value, key, new)->Object_0;
    lemma_key_index(members, key);
    lemma_key_index_is(changed, key, i);
    assert forall|newer: JsonTree| #[trigger]
        with_member(with_member(value, key, new), key, newer) == with_member(value, key, newer) by {
        let twice = with_member(with_member(value, key, new), key, newer)->Object_0;
        assert(twice =~= with_member(value, key, newer)->Object_0);
    }
    assert forall|other: Seq<char>| other != key implies #[trigger] member(
        with_member(value, key, new),
        other,
    ) == member(value, other) by {
        let o = key_index(members, other);
        lemma_key_index(members, other);
        lemma_key_index(changed, other);
        if o < members.len() {
            assert(changed[o] == members[o]);
            assert forall|j: int| 0 <= j < o implies (#[trigger] changed[j]).0 != other by {
                assert(members[j].0 != other);
            }
            lemma_key_index_is(changed, other, o);
        } else {
            let p = key_index(changed, other);
            if p < changed.len() {
                assert(changed[p].0 == other);
                assert(p < members.len());
                assert(members[p].0 == other);
            }
        }
    }
}

impl Clone for Json {
    fn clone(&self) -> (copy: Self)
        ensures
            copy.deep_view() == self.deep_view(),
        decreases self,
    {
        broadcast use {lemma_tree_of_array, lemma_tree_of_object};

        match self {
            Json::Null => Json::Null,
            Json::Bool(b) => Json::Bool(*b),
            Json::Number(n) => Json::Number(*n),
            Json::String(s) => Json::String(s.clone()),
            Json::Array(items) => {
                let mut copies: Vec<Json> = Vec::new();
                let mut i: usize = 0;
                while i < items.len()
                    invariant
                        i <= items.len(),
                        copies.len() == i,
                        *self == Json::Array(*items),
                        forall|j: int|
                            0 <= j < i ==> (#[trigger] copies[j]).deep_view()
                                == items[j].deep_view(),
                    decreases items.len() - i,
                {
                    assert(decreases_to!(*self => self->Array_0));
                    assert(decreases_to!(*items => items@));
                    assert(decreases_to!(items@ => items@[i as int]));
                    copies.push(items[i].clone());
                    i += 1;
                }
                assert(copies.deep_view() =~= items.deep_view());
                Json::Array(copies)
            },
            Json::Object(members) => {
                let mut copies: Vec<(String, Json)> = Vec::new();
                let mut i: usize = 0;
                while i < members.len()
                    invariant
                        i <= members.len(),
                        copies.len() == i,
                        *self == Json::Object(*members),
                        forall|j: int|
                            0 <= j < i ==> (#[trigger] copies[j]).deep_view()
                                == members[j].deep_view(),
                    decreases members.len() - i,
                {
                    assert(decreases_to!(*self => self->Object_0));
                    assert(decreases_to!(*members => members@));
                    assert(decreases_to!(members@ => members@[i as int]));
                    assert(decreases_to!(members@[i as int] => members@[i as int].1));
                    let value = members[i].1.clone();
                    copies.push((members[i].0.clone(), value));
                    i += 1;
                }
                assert(copies.deep_view() =~= members.deep_view());
                Json::Object(copies)
            },
        }
    }
}

/// The position of the first of `members` that is named `key`.
fn find_key(members: &Vec<(String, Json)>, key: &str) -> (index: usize)
    ensures
        index == key_index(members.deep_view(), key@),
{
    let ghost model = members.deep_view();
    let mut i: usize = 0;
    proof {
        lemma_key_index(model, key@);
    }
    while i < members.len() && !str_eq(members[i].0.as_str(), key)
        invariant
            i <= members.len(),
            model == members.deep_view(),
            forall|j: int| 0 <= j < i ==> (#[trigger] model[j]).0 != key@,
            0 <= key_index(model, key@) <= model.len(),
            key_index(model, key@) < model.len() ==> model[key_index(model, key@)].0 == key@,
        decreases members.len() - i,
    {
        assert(model[i as int].0 == members[i as int].0@);
        i += 1;
    }
    if i < members.len() {
        assert(model[i as int].0 == members[i as int].0@);
    }
    i
}

impl Json {
    /// The first member named `key`, where this is an object that has one.
    pub fn get(&self, key: &str) -> (found: Option<&Json>)
        ensures
            found.deep_view() == member(self.deep_view(), key@),
    {
        broadcast use {lemma_tree_of_array, lemma_tree_of_object};

        match self {
            Json::Object(members) => {
                let i = find_key(members, key);
                if i < members.len() {
                    assert(members.deep_view()[i as int].1 == members[i as int].1.deep_view());
                    Some(&members[i].1)
                } else {
                    None
                }
            },
            _ => None,
        }
    }

    /// The text of a string value.
    pub fn as_str(&self) -> (text: Option<&str>)
        ensures
            text.deep_view() == string_of(self.deep_view()),
    {
        match self {
            Json::String(s) => Some(s.as_str()),
            _ => None,
        }
    }

    /// Sets the member `key` of an object; any other value stays as it is.
    pub fn set_member(&mut self, key: &str, value: Json)
        ensures
            final(self).deep_view() == with_member(old(self).deep_view(), key@, value.deep_view()),
    {
        broadcast use {lemma_tree_of_array, lemma_tree_of_object};

        match self {
            Json::Object(members) => {
                let ghost before = members.deep_view();
                let i = find_key(members, key);
                let new: (String, Json) = (key.to_string(), value);
                let ghost added = new.deep_view();
                if i < members.len() {
                    members.set(i, new);
                    assert(members.deep_view() =~= before.update(i as int, added));
                } else {
                    members.push(new);
                    assert(members.deep_view() =~= before.push(added));
                }
            },
            _ => {},
        }
    }

    /// Puts `value` in the place of the member `key`, and gives what was there. Where there is no
    /// such member, nothing changes.
    pub fn replace_member(&mut self, key: &str, value: Json) -> (replaced: Option<Json>)
        ensures
            replaced.deep_view() == member(old(self).deep_view(), key@),
            final(self).deep_view() == if replaced is Some {
                with_member(old(self).deep_view(), key@, value.deep_view())
            } else {
                old(self).deep_view()
            },
    {
        broadcast use {lemma_tree_of_array, lemma_tree_of_object};

        match self {
            Json::Object(members) => {
                let ghost before = members.deep_view();
                let i = find_key(members, key);
                if i < members.len() {
                    proof {
                        lemma_key_index(before, key@);
                    }
                    let mut value = value;
                    let ghost added = value.deep_view();
                    let ghost name = members@[i as int].0;
                    assert(before[i as int] == (name@, members@[i as int].1.deep_view()));
                    std::mem::swap(&mut value, &mut members[i].1);
                    assert(members.deep_view() =~= before.update(i as int, (key@, added)));
                    Some(value)
                } else {
                    None
                }
            },
            _ => None,
        }
    }
}

/// A string value.
pub(crate) fn json_text(text: &str) -> (value: Json)
    ensures
        value.deep_view() == JsonTree::String(text@),
{
    Json::String(text.to_string())
}

/// A member of an object.
pub(crate) fn json_member(name: &str, value: Json) -> (member: (String, Json))
    ensures
        member.deep_view() == (name@, value.deep_view()),
{
    (name.to_string(), value)
}

/// An object value.
pub(crate) fn json_object(members: Vec<(String, Json)>) -> (value: Json)
    ensures
        value.deep_view() == JsonTree::Object(members.deep_view()),
{
    broadcast use lemma_tree_of_object;

    Json::Object(members)
}

/// An array value.
pub(crate) fn json_array(items: Vec<Json>) -> (value: Json)
    ensures
        value.deep_view() == JsonTree::Array(items.deep_view()),
{
    broadcast use lemma_tree_of_array;

    Json::Array(items)
}

/// A member is found by its name, and the first of a name is the one that is found. Where the name
/// does not occur, and in a value that is no object, none is found.
pub proof fn law_member(members: Seq<(Seq<char>, JsonTree)>, key: Seq<char>, value: JsonTree)
    ensures
        forall|i: int|
            0 <= i < members.len() && (#[trigger] members[i]).0 == key && (forall|j: int|
                0 <= j < i ==> (#[trigger] members[j]).0 != key) ==> member(
                JsonTree::Object(members),
                key,
            ) == Some(members[i].1),
        (forall|i: int| 0 <= i < members.len() ==> (#[trigger] members[i]).0 != key) ==> member(
            JsonTree::Object(members),
            key,
        ) is None,
        !(value is Object) ==> member(value, key) is None,
{
    lemma_key_index(members, key);
    assert forall|i: int|
        0 <= i < members.len() && (#[trigger] members[i]).0 == key && (forall|j: int|
            0 <= j < i ==> (#[trigger] members[j]).0 != key) implies member(
        JsonTree::Object(members),
        key,
    ) == Some(members[i].1) by {
        lemma_key_index_is(members, key, i);
    }
}

/// Setting a member changes that member alone: it stays in its place, or comes behind all others. A
/// value that is no object stays as it is.
pub proof fn law_set_member(value: JsonTree, key: Seq<char>, new: JsonTree)
    ensures
        !(value is Object) ==> with_member(value, key, new) == value,
        value is Object ==> with_member(value, key, new) is Object,
        value is Object && member(value, key) is None ==> with_member(value, key, new)->Object_0
            == value->Object_0.push((key, new)),
        value is Object && member(value, key) is Some ==> with_member(
            value,
            key,
            new,
        )->Object_0.len() == value->Object_0.len() && forall|i: int|
            0 <= i < value->Object_0.len() ==> (#[trigger] with_member(
                value,
                key,
                new,
            )->Object_0[i]).0 == value->Object_0[i].0,
{
    if value is Object {
        lemma_key_index(value->Object_0, key);
    }
}

/// A value and its model hold the same: the same text, the same number, the same items and members
/// in the same order. Only a string has a text.
pub proof fn law_json_view(
    text: String,
    number: JsonNumber,
    flag: bool,
    items: Vec<Json>,
    members: Vec<(String, Json)>,
    tree: JsonTree,
)
    ensures
        Json::Null.deep_view() == JsonTree::Null,
        Json::Bool(flag).deep_view() == JsonTree::Bool(flag),
        Json::Number(number).deep_view() == JsonTree::Number(number),
        Json::String(text).deep_view() == JsonTree::String(text@),
        Json::Array(items).deep_view()->Array_0.len() == items@.len(),
        forall|i: int|
            0 <= i < items@.len() ==> Json::Array(items).deep_view()->Array_0[i] == (
            #[trigger] items@[i]).deep_view(),
        Json::Array(items).deep_view() is Array,
        Json::Object(members).deep_view() is Object,
        Json::Object(members).deep_view()->Object_0.len() == members@.len(),
        forall|i: int|
            0 <= i < members@.len() ==> Json::Object(members).deep_view()->Object_0[i] == (
                (#[trigger] members@[i]).0@,
                members@[i].1.deep_view(),
            ),
        string_of(JsonTree::String(text@)) == Some(text@),
        !(tree is String) ==> string_of(tree) is None,
{
}

} // verus!
