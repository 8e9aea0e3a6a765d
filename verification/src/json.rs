//! JSON documents as the library reads them: a value type of its own and
//! member lookup with the semantics of a JSON object, where a later
//! duplicate key overrides an earlier one.

use vstd::prelude::*;
use crate::text::same_text;

verus! {

/// A JSON document. Numbers are kept in their textual form; an object is
/// its members in order.
#[derive(Debug, PartialEq)]
pub enum JsonValue {
    Null,
    Bool(bool),
    Number(String),
    Str(String),
    Array(Vec<JsonValue>),
    Object(Vec<(String, JsonValue)>),
}

// ---------------------------------------------------------------------------
// Member lookup
// ---------------------------------------------------------------------------

/// The position of the member that a lookup of `key` finds: the last member
/// with that key, so that a later duplicate overrides an earlier one.
pub open spec fn member_index(members: Seq<(String, JsonValue)>, key: Seq<char>) -> Option<int>
    decreases members.len(),
{
    if members.len() == 0 {
        None
    } else if members.last().0@ == key {
        Some(members.len() - 1)
    } else {
        member_index(members.drop_last(), key)
    }
}

/// The value of member `key` of an object, and `None` for any other value.
pub open spec fn field(value: JsonValue, key: Seq<char>) -> Option<JsonValue> {
    match value {
        JsonValue::Object(members) => member_value(members@, key),
        _ => None,
    }
}

pub proof fn lemma_member_index_bounds(members: Seq<(String, JsonValue)>, key: Seq<char>)
    ensures
        member_index(members, key) matches Some(i) ==> 0 <= i < members.len() && members[i].0@
            == key,
    decreases members.len(),
{
    if members.len() > 0 {
        lemma_member_index_bounds(members.drop_last(), key);
    }
}

/// The position of the member of `members` that a lookup of `key` finds.
pub fn find_member(members: &Vec<(String, JsonValue)>, key: &str) -> (r: Option<usize>)
    ensures
        match r {
            Some(i) => member_index(members@, key@) == Some(i as int),
            None => member_index(members@, key@) is None,
        },
{
    let mut found: Option<usize> = None;
    let mut i: usize = 0;
    while i < members.len()
        invariant
            i <= members.len(),
            match found {
                Some(j) => member_index(members@.take(i as int), key@) == Some(j as int),
                None => member_index(members@.take(i as int), key@) is None,
            },
        decreases members.len() - i,
    {
        proof {
            assert(members@.take(i as int + 1).drop_last() =~= members@.take(i as int));
        }
        if same_text(members[i].0.as_str(), key) {
            found = Some(i);
        }
        i = i + 1;
    }
    proof {
        assert(members@.take(members.len() as int) =~= members@);
    }
    found
}

/// The value of member `key` of `value`, when `value` is an object that has
/// such a member.
pub fn field_of<'a>(value: &'a JsonValue, key: &str) -> (r: Option<&'a JsonValue>)
    ensures
        match r {
            Some(v) => field(*value, key@) == Some(*v),
            None => field(*value, key@) is None,
        },
{
    match value {
        JsonValue::Object(members) => match find_member(members, key) {
            Some(i) => {
                proof {
                    lemma_member_index_bounds(members@, key@);
                }
                Some(&members[i].1)
            },
            None => None,
        },
        _ => None,
    }
}

/// The text of member `key` of `value`, when that member is a string.
pub fn text_field<'a>(value: &'a JsonValue, key: &str) -> (r: Option<&'a str>)
    ensures
        match r {
            Some(s) => field(*value, key@) matches Some(JsonValue::Str(t)) && t@ == s@,
            None => !(field(*value, key@) matches Some(JsonValue::Str(_))),
        },
{
    match field_of(value, key) {
        Some(JsonValue::Str(s)) => Some(s.as_str()),
        _ => None,
    }
}

/// The truth value of member `key` of `value`, when that member is a
/// boolean.
pub fn bool_field(value: &JsonValue, key: &str) -> (r: Option<bool>)
    ensures
        r == match field(*value, key@) {
            Some(JsonValue::Bool(b)) => Some(b),
            _ => None::<bool>,
        },
{
    match field_of(value, key) {
        Some(JsonValue::Bool(b)) => Some(*b),
        _ => None,
    }
}

/// An object without members.
pub open spec fn is_empty_object(v: JsonValue) -> bool {
    v matches JsonValue::Object(e) && e@.len() == 0
}

/// The text of a JSON value, when it is a string.
pub open spec fn json_text(v: Option<JsonValue>) -> Option<Seq<char>> {
    match v {
        Some(JsonValue::Str(s)) => Some(s@),
        _ => None,
    }
}

/// The value a lookup of `key` finds among `members`.
pub open spec fn member_value(members: Seq<(String, JsonValue)>, key: Seq<char>) -> Option<JsonValue> {
    match member_index(members, key) {
        Some(i) => Some(members[i].1),
        None => None,
    }
}

/// `after` is `before` with member `key` set to `value`: the member a
/// lookup of `key` finds is overwritten in place, or, when there is none,
/// the member is appended.
pub open spec fn member_set(
    before: Seq<(String, JsonValue)>,
    key: Seq<char>,
    value: JsonValue,
    after: Seq<(String, JsonValue)>,
) -> bool {
    match member_index(before, key) {
        Some(i) => {
            &&& after.len() == before.len()
            &&& after[i].0@ == key
            &&& after[i].1 == value
            &&& forall|j: int| 0 <= j < before.len() && j != i ==> #[trigger] after[j] == before[j]
        },
        None => {
            &&& after.len() == before.len() + 1
            &&& forall|j: int| 0 <= j < before.len() ==> #[trigger] after[j] == before[j]
            &&& after.last().0@ == key
            &&& after.last().1 == value
        },
    }
}

proof fn lemma_same_keys(a: Seq<(String, JsonValue)>, b: Seq<(String, JsonValue)>, k: Seq<char>)
    requires
        a.len() == b.len(),
        forall|j: int| 0 <= j < a.len() ==> (#[trigger] a[j]).0@ == b[j].0@,
    ensures
        member_index(a, k) == member_index(b, k),
    decreases a.len(),
{
    if a.len() > 0 {
        assert(a.last().0@ == b.last().0@);
        assert forall|j: int| 0 <= j < a.drop_last().len() implies (#[trigger] a.drop_last()[j]).0@
            == b.drop_last()[j].0@ by {
            assert(a.drop_last()[j] == a[j]);
            assert(b.drop_last()[j] == b[j]);
        }
        lemma_same_keys(a.drop_last(), b.drop_last(), k);
    }
}

/// Setting a member and then looking a key up finds the value set for that
/// key and, for any other key, what was there before.
pub proof fn lemma_member_set_lookup(
    before: Seq<(String, JsonValue)>,
    key: Seq<char>,
    value: JsonValue,
    after: Seq<(String, JsonValue)>,
    k: Seq<char>,
)
    requires
        member_set(before, key, value, after),
    ensures
        member_value(after, k) == if k == key {
            Some(value)
        } else {
            member_value(before, k)
        },
{
    lemma_member_index_bounds(before, key);
    lemma_member_index_bounds(before, k);
    match member_index(before, key) {
        Some(i) => {
            assert forall|j: int| 0 <= j < after.len() implies (#[trigger] after[j]).0@
                == before[j].0@ by {
                if j != i {
                    assert(after[j] == before[j]);
                }
            }
            lemma_same_keys(after, before, k);
            lemma_same_keys(after, before, key);
        },
        None => {
            assert(after.drop_last() =~= before);
            if k != key {
                lemma_member_index_bounds(after, k);
            }
        },
    }
}

/// Sets member `key` of an object's members to `value`.
pub fn set_member(members: &mut Vec<(String, JsonValue)>, key: String, value: JsonValue)
    ensures
        member_set(old(members)@, key@, value, final(members)@),
{
    match find_member(members, key.as_str()) {
        Some(i) => {
            proof {
                lemma_member_index_bounds(old(members)@, key@);
            }
            members.set(i, (key, value));
        },
        None => {
            members.push((key, value));
        },
    }
}

} // verus!
