//! JSON documents.
//!
//! `Json` is the document as the program holds it; `JsonValue` is its
//! mathematical model, in which text is a sequence of characters and an object
//! is the sequence of its members. The members of an object keep the order in
//! which they were added; a key is looked up by its first occurrence.

use vstd::prelude::*;

verus! {

/// A JSON number.
#[derive(Clone, Debug, PartialEq)]
pub enum JsonNumber {
    /// An integer that is not negative.
    Unsigned(u64),
    /// A negative integer.
    Negative(i64),
    /// Any other number, as its decimal text.
    Real(String),
}

/// A JSON document.
#[derive(Debug, PartialEq)]
pub enum Json {
    /// `null`.
    Null,
    /// `true` or `false`.
    Bool(bool),
    /// A number.
    Number(JsonNumber),
    /// A string.
    Text(String),
    /// An array.
    Array(Vec<Json>),
    /// An object: its members, key and value.
    Object(Vec<(String, Json)>),
}

/// The model of a JSON number.
pub enum NumberValue {
    /// An integer that is not negative.
    Unsigned(u64),
    /// A negative integer.
    Negative(i64),
    /// Any other number, as its decimal text.
    Real(Seq<char>),
}

/// The model of a JSON document.
pub enum JsonValue {
    /// `null`.
    Null,
    /// `true` or `false`.
    Bool(bool),
    /// A number.
    Number(NumberValue),
    /// A string.
    Text(Seq<char>),
    /// An array.
    Array(Seq<JsonValue>),
    /// An object: its members, key and value.
    Object(Seq<(Seq<char>, JsonValue)>),
}

impl View for JsonNumber {
    type V = NumberValue;

    open spec fn view(&self) -> NumberValue {
        match self {
            JsonNumber::Unsigned(n) => NumberValue::Unsigned(*n),
            JsonNumber::Negative(n) => NumberValue::Negative(*n),
            JsonNumber::Real(text) => NumberValue::Real(text@),
        }
    }
}

/// The model of a document.
pub open spec fn model_of(j: Json) -> JsonValue
    decreases j,
{
    match j {
        Json::Null => JsonValue::Null,
        Json::Bool(b) => JsonValue::Bool(b),
        Json::Number(n) => JsonValue::Number(n@),
        Json::Text(s) => JsonValue::Text(s@),
        Json::Array(items) => JsonValue::Array(
            Seq::new(
                items@.len(),
                |i: int|
                    if 0 <= i < items@.len() {
                        model_of(items@[i])
                    } else {
                        JsonValue::Null
                    },
            ),
        ),
        Json::Object(members) => JsonValue::Object(
            Seq::new(
                members@.len(),
                |i: int|
                    if 0 <= i < members@.len() {
                        (members@[i].0@, model_of(members@[i].1))
                    } else {
                        (Seq::<char>::empty(), JsonValue::Null)
                    },
            ),
        ),
    }
}

impl View for Json {
    type V = JsonValue;

    open spec fn view(&self) -> JsonValue {
        model_of(*self)
    }
}

/// The models of the items of an array.
pub open spec fn item_views(items: Seq<Json>) -> Seq<JsonValue> {
    Seq::new(items.len(), |i: int| items[i]@)
}

/// The models of the members of an object.
pub open spec fn member_views(members: Seq<(String, Json)>) -> Seq<(Seq<char>, JsonValue)> {
    Seq::new(members.len(), |i: int| (members[i].0@, members[i].1@))
}

/// The view of an array is the sequence of the views of its items.
pub proof fn lemma_array_view(items: Vec<Json>)
    ensures
        Json::Array(items)@ == JsonValue::Array(item_views(items@)),
{
    let a = Json::Array(items)@;
    assert(a->Array_0 =~= item_views(items@));
}

/// The view of an object is the sequence of the views of its members.
pub proof fn lemma_object_view(members: Vec<(String, Json)>)
    ensures
        Json::Object(members)@ == JsonValue::Object(member_views(members@)),
{
    let o = Json::Object(members)@;
    assert(o->Object_0 =~= member_views(members@));
}

/// The index of the first member with the key `key`, or the number of members
/// if none has it.
pub open spec fn key_position(members: Seq<(Seq<char>, JsonValue)>, key: Seq<char>) -> int
    decreases members.len(),
{
    if members.len() == 0 || members[0].0 == key {
        0
    } else {
        1 + key_position(members.skip(1), key)
    }
}

/// Whether a member has the key `key`.
pub open spec fn has_key(members: Seq<(Seq<char>, JsonValue)>, key: Seq<char>) -> bool {
    key_position(members, key) < members.len()
}

/// The value of the first member with the key `key`; `Null` if there is none.
pub open spec fn value_of(members: Seq<(Seq<char>, JsonValue)>, key: Seq<char>) -> JsonValue {
    if has_key(members, key) {
        members[key_position(members, key)].1
    } else {
        JsonValue::Null
    }
}

/// `members` with the value of `key` set: in place where the key is present,
/// as a new last member where it is not.
pub open spec fn with_member(
    members: Seq<(Seq<char>, JsonValue)>,
    key: Seq<char>,
    value: JsonValue,
) -> Seq<(Seq<char>, JsonValue)> {
    if has_key(members, key) {
        members.update(key_position(members, key), (key, value))
    } else {
        members.push((key, value))
    }
}

/// No two members have the same key.
pub open spec fn distinct_keys(members: Seq<(Seq<char>, JsonValue)>) -> bool {
    forall|i: int, j: int| 0 <= i < j < members.len() ==> members[i].0 != members[j].0
}

/// `key_position` is the least index that holds the key.
pub proof fn lemma_key_position(members: Seq<(Seq<char>, JsonValue)>, key: Seq<char>)
    ensures
        0 <= key_position(members, key) <= members.len(),
        forall|j: int| 0 <= j < key_position(members, key) ==> (#[trigger] members[j]).0 != key,
        key_position(members, key) < members.len() ==> members[key_position(members, key)].0 == key,
    decreases members.len(),
{
    if members.len() == 0 || members[0].0 == key {
    } else {
        let rest = members.skip(1);
        lemma_key_position(rest, key);
        assert forall|j: int| 0 <= j < key_position(members, key) implies (#[trigger] members[j]).0
            != key by {
            if j > 0 {
                assert(members[j] == rest[j - 1]);
            }
        }
        assert(key_position(members, key) < members.len() ==> members[key_position(members, key)]
            == rest[key_position(rest, key)]);
    }
}

/// Any index with the defining property of `key_position` is `key_position`.
pub proof fn lemma_key_position_is(members: Seq<(Seq<char>, JsonValue)>, key: Seq<char>, k: int)
    requires
        0 <= k <= members.len(),
        forall|j: int| 0 <= j < k ==> (#[trigger] members[j]).0 != key,
        k < members.len() ==> members[k].0 == key,
    ensures
        key_position(members, key) == k,
    decreases members.len(),
{
    if members.len() == 0 {
    } else if members[0].0 == key {
        if k > 0 {
            assert(members[0].0 != key);
        }
    } else {
        let rest = members.skip(1);
        assert forall|j: int| 0 <= j < k - 1 implies (#[trigger] rest[j]).0 != key by {
            assert(rest[j] == members[j + 1]);
        }
        if k < members.len() {
            assert(rest[k - 1] == members[k]);
        }
        lemma_key_position_is(rest, key, k - 1);
    }
}

/// Setting a member: the key then has the new value, every other key keeps
/// its presence and its value, and distinct keys stay distinct.
pub proof fn lemma_with_member(
    members: Seq<(Seq<char>, JsonValue)>,
    key: Seq<char>,
    value: JsonValue,
)
    ensures
        with_member(members, key, value).len() >= members.len(),
        has_key(with_member(members, key, value), key),
        value_of(with_member(members, key, value), key) == value,
        forall|other: Seq<char>|
            other != key ==> has_key(#[trigger] with_member(members, key, value), other) == has_key(
                members,
                other,
            ),
        forall|other: Seq<char>|
            other != key ==> #[trigger] value_of(with_member(members, key, value), other)
                == value_of(members, other),
        distinct_keys(members) ==> distinct_keys(with_member(members, key, value)),
{
    let after = with_member(members, key, value);
    let p = key_position(members, key);
    lemma_key_position(members, key);
    if has_key(members, key) {
        assert forall|j: int| 0 <= j < members.len() implies (#[trigger] after[j]).0
            == members[j].0 by {}
        lemma_key_position_is(after, key, p);
        assert forall|other: Seq<char>| other != key implies key_position(after, other)
            == key_position(members, other) by {
            lemma_key_position(members, other);
            let q = key_position(members, other);
            assert forall|j: int| 0 <= j < q implies (#[trigger] after[j]).0 != other by {
                assert(after[j].0 == members[j].0);
            }
            if q < members.len() {
                assert(after[q].0 == members[q].0);
            }
            lemma_key_position_is(after, other, q);
        }
        assert forall|other: Seq<char>| other != key implies #[trigger] value_of(after, other)
            == value_of(members, other) by {
            lemma_key_position(members, other);
            assert(key_position(after, other) == key_position(members, other));
        }
        assert forall|other: Seq<char>| other != key implies has_key(after, other) == has_key(
            members,
            other,
        ) by {
            assert(key_position(after, other) == key_position(members, other));
        }
        if distinct_keys(members) {
            assert forall|i: int, j: int| 0 <= i < j < after.len() implies after[i].0
                != after[j].0 by {
                assert(after[i].0 == members[i].0);
                assert(after[j].0 == members[j].0);
            }
        }
    } else {
        assert forall|j: int| 0 <= j < members.len() implies (#[trigger] after[j]) == members[j] by {}
        assert forall|j: int| 0 <= j < members.len() implies (#[trigger] after[j]).0 != key by {
            assert(after[j] == members[j]);
        }
        lemma_key_position_is(after, key, members.len() as int);
        assert forall|other: Seq<char>| other != key implies has_key(after, other) == has_key(
            members,
            other,
        ) && #[trigger] value_of(after, other) == value_of(members, other) by {
            lemma_key_position(members, other);
            let q = key_position(members, other);
            assert forall|j: int| 0 <= j < q implies (#[trigger] after[j]).0 != other by {
                assert(after[j] == members[j]);
            }
            if q < members.len() {
                assert(after[q] == members[q]);
                lemma_key_position_is(after, other, q);
            } else {
                lemma_key_position_is(after, other, after.len() as int);
            }
        }
        assert forall|other: Seq<char>| other != key implies has_key(
            #[trigger] with_member(members, key, value),
            other,
        ) == has_key(members, other) by {
            assert(value_of(after, other) == value_of(members, other));
        }
        if distinct_keys(members) {
            assert forall|i: int, j: int| 0 <= i < j < after.len() implies after[i].0
                != after[j].0 by {
                assert(after[i] == members[i]);
                if j < members.len() {
                    assert(after[j] == members[j]);
                }
            }
        }
    }
}

/// The index of the first member of `members` with the key `key`.
pub fn find_key(members: &Vec<(String, Json)>, key: &String) -> (found: Option<usize>)
    ensures
        match found {
            Some(i) => i < members.len() && i == key_position(member_views(members@), key@),
            None => !has_key(member_views(members@), key@),
        },
{
    let mut i: usize = 0;
    while i < members.len()
        invariant
            i <= members.len(),
            forall|j: int| 0 <= j < i ==> (#[trigger] member_views(members@)[j]).0 != key@,
        decreases members.len() - i,
    {
        if members[i].0 == *key {
            proof {
                lemma_key_position_is(member_views(members@), key@, i as int);
            }
            return Some(i);
        }
        i += 1;
    }
    proof {
        lemma_key_position_is(member_views(members@), key@, members.len() as int);
    }
    None
}


/// Every object in the document, at any depth, has distinct keys.
pub open spec fn well_formed(v: JsonValue) -> bool
    decreases v,
{
    match v {
        JsonValue::Array(items) => forall|i: int|
            0 <= i < items.len() ==> well_formed(#[trigger] items[i]),
        JsonValue::Object(members) => distinct_keys(members) && forall|i: int|
            0 <= i < members.len() ==> well_formed((#[trigger] members[i]).1),
        _ => true,
    }
}

/// The value of the first member of `members` with the key `key`.
pub fn get<'a>(members: &'a Vec<(String, Json)>, key: &str) -> (found: Option<&'a Json>)
    ensures
        match found {
            Some(value) => has_key(member_views(members@), key@) && value@ == value_of(
                member_views(members@),
                key@,
            ),
            None => !has_key(member_views(members@), key@),
        },
{
    let wanted = key.to_owned();
    match find_key(members, &wanted) {
        Some(i) => Some(&members[i].1),
        None => None,
    }
}

/// Sets the value of `key` in `members`: in place where the key is present, as
/// a new last member where it is not.
pub fn set_member(members: &mut Vec<(String, Json)>, key: &str, value: Json)
    ensures
        member_views(final(members)@) == with_member(member_views(old(members)@), key@, value@),
{
    let wanted = key.to_owned();
    match find_key(members, &wanted) {
        Some(i) => {
            members.set(i, (wanted, value));
            assert(member_views(members@) =~= member_views(old(members)@).update(
                i as int,
                (key@, value@),
            ));
        },
        None => {
            members.push((wanted, value));
            assert(member_views(members@) =~= member_views(old(members)@).push((key@, value@)));
        },
    }
}

impl Clone for Json {
    /// A copy of the document, equal to it in every part.
    fn clone(&self) -> (copy: Json)
        ensures
            copy@ == self@,
        decreases self,
    {
        match self {
            Json::Null => Json::Null,
            Json::Bool(b) => Json::Bool(*b),
            Json::Number(n) => Json::Number(
                match n {
                    JsonNumber::Unsigned(u) => JsonNumber::Unsigned(*u),
                    JsonNumber::Negative(i) => JsonNumber::Negative(*i),
                    JsonNumber::Real(text) => JsonNumber::Real(text.clone()),
                },
            ),
            Json::Text(s) => Json::Text(s.clone()),
            Json::Array(items) => {
                let mut copies: Vec<Json> = Vec::new();
                let mut i: usize = 0;
                while i < items.len()
                    invariant
                        *self == Json::Array(*items),
                        i <= items.len(),
                        copies@.len() == i,
                        forall|j: int| 0 <= j < i ==> (#[trigger] copies@[j])@ == items@[j]@,
                    decreases items.len() - i,
                {
                    proof {
                        assert(decreases_to!(*self => self->Array_0));
                        assert(decreases_to!(self->Array_0 => self->Array_0[i as int]));
                    }
                    copies.push(items[i].clone());
                    i += 1;
                }
                proof {
                    lemma_array_view(copies);
                    lemma_array_view(*items);
                    assert(item_views(copies@) =~= item_views(items@));
                }
                Json::Array(copies)
            },
            Json::Object(members) => {
                let mut copies: Vec<(String, Json)> = Vec::new();
                let mut i: usize = 0;
                while i < members.len()
                    invariant
                        *self == Json::Object(*members),
                        i <= members.len(),
                        copies@.len() == i,
                        forall|j: int|
                            0 <= j < i ==> (#[trigger] copies@[j]).0@ == members@[j].0@
                                && copies@[j].1@ == members@[j].1@,
                    decreases members.len() - i,
                {
                    proof {
                        assert(decreases_to!(*self => self->Object_0));
                        assert(decreases_to!(self->Object_0 => self->Object_0[i as int]));
                        assert(decreases_to!(self->Object_0[i as int] => self->Object_0[i as int].1));
                    }
                    copies.push((members[i].0.clone(), members[i].1.clone()));
                    i += 1;
                }
                proof {
                    lemma_object_view(copies);
                    lemma_object_view(*members);
                    assert(member_views(copies@) =~= member_views(members@));
                }
                Json::Object(copies)
            },
        }
    }
}

} // verus!
