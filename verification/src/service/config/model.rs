//! Validated settings of the service and of every kind of backend.

use crate::fault::{self, invalid_input, Fault};
use crate::path::{self, equal_optional_paths, equal_paths};
use crate::persistence::database::{copy_list, copy_option};
use crate::text;
use crate::time::Span;
use vstd::prelude::*;

verus! {

pub const MAXIMUM_SCHEDULING_BUILDS: usize = 65_536;

/// Two optional texts agree.
pub open spec fn same_option(left: Option<String>, right: Option<String>) -> bool {
    match (left, right) {
        (None, None) => true,
        (Some(left), Some(right)) => left@ == right@,
        _ => false,
    }
}

/// Two lists of texts agree.
pub open spec fn same_texts(left: Seq<String>, right: Seq<String>) -> bool {
    &&& left.len() == right.len()
    &&& forall|i: int| 0 <= i < left.len() ==> (#[trigger] left[i])@ == right[i]@
}

pub fn equal_options(left: &Option<String>, right: &Option<String>) -> (same: bool)
    ensures
        same == same_option(*left, *right),
{
    match (left, right) {
        (None, None) => true,
        (Some(left), Some(right)) => text::same_text(left.as_str(), right.as_str()),
        _ => false,
    }
}

pub fn equal_texts(left: &Vec<String>, right: &Vec<String>) -> (same: bool)
    ensures
        same == same_texts(left@, right@),
{
    if left.len() != right.len() {
        return false;
    }
    let mut i: usize = 0;
    while i < left.len()
        invariant
            left@.len() == right@.len(),
            i <= left@.len(),
            forall|j: int| 0 <= j < i ==> (#[trigger] left@[j])@ == right@[j]@,
        decreases left@.len() - i,
    {
        if !text::same_text(left[i].as_str(), right[i].as_str()) {
            return false;
        }
        i += 1;
    }
    true
}

/// A value of a driver's configuration, in the shape in which it is handed to the driver. A
/// floating-point number is held by its bits.
#[derive(Debug)]
pub enum JsonValue {
    Text(String),
    Integer(i64),
    Float { bits: u64 },
    Boolean(bool),
    Array(Vec<JsonValue>),
    Object(Vec<(String, JsonValue)>),
}

/// The bits of a floating-point zero, of either sign.
pub open spec fn is_zero(bits: u64) -> bool {
    bits == 0 || bits == 0x8000_0000_0000_0000
}

fn zero(bits: u64) -> (found: bool)
    ensures
        found == is_zero(bits),
{
    bits == 0 || bits == 0x8000_0000_0000_0000
}

/// The bits of two floating-point numbers, both of them defined, stand for the same number.
pub open spec fn same_number(left: u64, right: u64) -> bool {
    left == right || (is_zero(left) && is_zero(right))
}

/// The keys of entries come in their order, each once.
pub open spec fn sorted_keys<T>(entries: Seq<(String, T)>) -> bool {
    forall|i: int, j: int|
        0 <= i < j < entries.len() ==> text::precedes(
            (#[trigger] entries[i]).0@,
            (#[trigger] entries[j]).0@,
        )
}

/// The members of every object in a value are sorted.
pub open spec fn is_ordered(value: JsonValue) -> bool
    decreases value,
{
    match value {
        JsonValue::Array(values) => forall|i: int|
            0 <= i < values@.len() ==> is_ordered(#[trigger] values@[i]),
        JsonValue::Object(members) => sorted_keys(members@) && forall|i: int|
            0 <= i < members@.len() ==> is_ordered((#[trigger] members@[i]).1),
        _ => true,
    }
}

/// Members are sorted, and so is everything in them.
pub open spec fn are_ordered(members: Seq<(String, JsonValue)>) -> bool {
    sorted_keys(members) && forall|i: int|
        0 <= i < members.len() ==> is_ordered((#[trigger] members[i]).1)
}

/// Of sorted entries, a key tells the place.
pub proof fn sorted_key_is_at_one_place<T>(entries: Seq<(String, T)>, i: int, j: int)
    requires
        sorted_keys(entries),
        0 <= i < entries.len(),
        0 <= j < entries.len(),
        entries[i].0@ == entries[j].0@,
    ensures
        i == j,
{
    text::order_is_strict(entries[i].0@, entries[j].0@);
}

/// Sorted entries with the same keys have them at the same places, so that it makes no difference
/// whether they are compared by key or by place.
pub proof fn same_keys_are_at_the_same_places<S, T>(
    left: Seq<(String, S)>,
    right: Seq<(String, T)>,
)
    requires
        sorted_keys(left),
        sorted_keys(right),
        forall|key: Seq<char>| #[trigger] has_key(left, key) <==> has_key(right, key),
    ensures
        left.len() == right.len(),
        forall|i: int| 0 <= i < left.len() ==> (#[trigger] left[i]).0@ == right[i].0@,
    decreases left.len(),
{
    if left.len() == 0 {
        if right.len() > 0 {
            assert(has_key(right, right[0].0@));
            assert(has_key(left, right[0].0@));
        }
    } else if right.len() == 0 {
        assert(has_key(left, left[0].0@));
        assert(has_key(right, left[0].0@));
    } else {
        let last = left.last().0@;
        let other = right.last().0@;
        assert(has_key(left, left[left.len() - 1].0@));
        assert(has_key(right, last));
        assert(has_key(right, right[right.len() - 1].0@));
        assert(has_key(left, other));
        let in_right = choose|i: int| 0 <= i < right.len() && (#[trigger] right[i]).0@ == last;
        let in_left = choose|i: int| 0 <= i < left.len() && (#[trigger] left[i]).0@ == other;
        text::order_is_strict(last, other);
        if in_right < right.len() - 1 {
            assert(text::precedes(right[in_right].0@, right[right.len() - 1].0@));
            if in_left < left.len() - 1 {
                assert(text::precedes(left[in_left].0@, left[left.len() - 1].0@));
            }
        } else if in_left < left.len() - 1 {
            assert(text::precedes(left[in_left].0@, left[left.len() - 1].0@));
        }
        assert(last == other);
        let shorter = left.drop_last();
        let rest = right.drop_last();
        assert forall|key: Seq<char>| #[trigger] has_key(shorter, key) <==> has_key(rest, key) by {
            if has_key(shorter, key) {
                let i = choose|i: int| 0 <= i < shorter.len() && (#[trigger] shorter[i]).0@ == key;
                assert(left[i].0@ == key);
                text::order_is_strict(key, last);
                assert(text::precedes(left[i].0@, left[left.len() - 1].0@));
                assert(has_key(left, key));
                assert(has_key(right, key));
                let j = choose|j: int| 0 <= j < right.len() && (#[trigger] right[j]).0@ == key;
                assert(rest[j].0@ == key);
            }
            if has_key(rest, key) {
                let i = choose|i: int| 0 <= i < rest.len() && (#[trigger] rest[i]).0@ == key;
                assert(right[i].0@ == key);
                text::order_is_strict(key, last);
                assert(text::precedes(right[i].0@, right[right.len() - 1].0@));
                assert(has_key(right, key));
                assert(has_key(left, key));
                let j = choose|j: int| 0 <= j < left.len() && (#[trigger] left[j]).0@ == key;
                assert(shorter[j].0@ == key);
            }
        }
        same_keys_are_at_the_same_places(shorter, rest);
        assert forall|i: int| 0 <= i < left.len() implies (#[trigger] left[i]).0@ == right[i].0@ by {
            if i < shorter.len() {
                assert(shorter[i].0@ == rest[i].0@);
            }
        }
    }
}

/// A key is among those of the entries.
pub open spec fn has_key<T>(entries: Seq<(String, T)>, key: Seq<char>) -> bool {
    exists|i: int| 0 <= i < entries.len() && (#[trigger] entries[i]).0@ == key
}

/// Two values, each with its objects sorted, agree.
pub open spec fn same_json(left: JsonValue, right: JsonValue) -> bool
    decreases left,
{
    match (left, right) {
        (JsonValue::Text(left), JsonValue::Text(right)) => left@ == right@,
        (JsonValue::Integer(left), JsonValue::Integer(right)) => left == right,
        (JsonValue::Float { bits: left }, JsonValue::Float { bits: right }) => same_number(
            left,
            right,
        ),
        (JsonValue::Boolean(left), JsonValue::Boolean(right)) => left == right,
        (JsonValue::Array(left), JsonValue::Array(right)) => {
            &&& left@.len() == right@.len()
            &&& forall|i: int| 0 <= i < left@.len() ==> same_json(#[trigger] left@[i], right@[i])
        },
        (JsonValue::Object(left), JsonValue::Object(right)) => {
            &&& left@.len() == right@.len()
            &&& forall|i: int|
                0 <= i < left@.len() ==> (#[trigger] left@[i]).0@ == right@[i].0@ && same_json(
                    left@[i].1,
                    right@[i].1,
                )
        },
        _ => false,
    }
}

/// Values that agree do so both ways.
pub proof fn json_agrees_both_ways(left: JsonValue, right: JsonValue)
    ensures
        same_json(left, right) == same_json(right, left),
    decreases left,
{
    match (left, right) {
        (JsonValue::Array(lefts), JsonValue::Array(rights)) => {
            assert forall|i: int| 0 <= i < lefts@.len() && i < rights@.len() implies same_json(
                #[trigger] lefts@[i],
                rights@[i],
            ) == same_json(rights@[i], lefts@[i]) by {
                assert(decreases_to!(left => left->Array_0));
                assert(decreases_to!(lefts => lefts@));
                assert(decreases_to!(lefts@ => lefts@[i]));
                json_agrees_both_ways(lefts@[i], rights@[i]);
            }
            array_agrees_both_ways(lefts@, rights@);
            assert(same_json(left, right) == agree(lefts@, rights@));
            assert(same_json(right, left) == agree(rights@, lefts@));
        },
        (JsonValue::Object(lefts), JsonValue::Object(rights)) => {
            assert forall|i: int| 0 <= i < lefts@.len() && i < rights@.len() implies same_json(
                (#[trigger] lefts@[i]).1,
                rights@[i].1,
            ) == same_json(rights@[i].1, lefts@[i].1) by {
                assert(decreases_to!(left => left->Object_0));
                assert(decreases_to!(lefts => lefts@));
                assert(decreases_to!(lefts@ => lefts@[i]));
                assert(decreases_to!(lefts@[i] => lefts@[i].1));
                json_agrees_both_ways(lefts@[i].1, rights@[i].1);
            }
            entries_agree_both_ways(lefts@, rights@);
            assert(same_json(left, right) == same_members(lefts@, rights@));
            assert(same_json(right, left) == same_members(rights@, lefts@));
        },
        _ => {},
    }
}

spec fn agree(left: Seq<JsonValue>, right: Seq<JsonValue>) -> bool {
    &&& left.len() == right.len()
    &&& forall|i: int| 0 <= i < left.len() ==> same_json(#[trigger] left[i], right[i])
}

proof fn array_agrees_both_ways(left: Seq<JsonValue>, right: Seq<JsonValue>)
    requires
        forall|i: int|
            0 <= i < left.len() && i < right.len() ==> same_json(#[trigger] left[i], right[i])
                == same_json(right[i], left[i]),
    ensures
        agree(left, right) == agree(right, left),
{
    if agree(left, right) {
        assert forall|i: int| 0 <= i < right.len() implies same_json(
            #[trigger] right[i],
            left[i],
        ) by {
            assert(same_json(left[i], right[i]));
        }
    }
    if agree(right, left) {
        assert forall|i: int| 0 <= i < left.len() implies same_json(
            #[trigger] left[i],
            right[i],
        ) by {
            assert(same_json(right[i], left[i]));
        }
    }
}

proof fn entries_agree_both_ways(
    left: Seq<(String, JsonValue)>,
    right: Seq<(String, JsonValue)>,
)
    requires
        forall|i: int|
            0 <= i < left.len() && i < right.len() ==> same_json((#[trigger] left[i]).1, right[i].1)
                == same_json(right[i].1, left[i].1),
    ensures
        same_members(left, right) == same_members(right, left),
{
    if same_members(left, right) {
        assert forall|i: int| 0 <= i < right.len() implies (#[trigger] right[i]).0@ == left[i].0@
            && same_json(right[i].1, left[i].1) by {
            assert(left[i].0@ == right[i].0@);
        }
    }
    if same_members(right, left) {
        assert forall|i: int| 0 <= i < left.len() implies (#[trigger] left[i]).0@ == right[i].0@
            && same_json(left[i].1, right[i].1) by {
            assert(right[i].0@ == left[i].0@);
        }
    }
}

/// Members that agree do so both ways.
pub proof fn members_agree_both_ways(
    left: Seq<(String, JsonValue)>,
    right: Seq<(String, JsonValue)>,
)
    ensures
        same_members(left, right) == same_members(right, left),
{
    assert forall|i: int| 0 <= i < left.len() && i < right.len() implies same_json(
        (#[trigger] left[i]).1,
        right[i].1,
    ) == same_json(right[i].1, left[i].1) by {
        json_agrees_both_ways(left[i].1, right[i].1);
    }
    entries_agree_both_ways(left, right);
}

/// A value agrees with itself.
pub proof fn json_agrees_with_itself(value: JsonValue)
    ensures
        same_json(value, value),
    decreases value,
{
    match value {
        JsonValue::Array(values) => {
            assert forall|i: int| 0 <= i < values@.len() implies same_json(
                #[trigger] values@[i],
                values@[i],
            ) by {
                assert(decreases_to!(value => value->Array_0));
                assert(decreases_to!(values => values@));
                assert(decreases_to!(values@ => values@[i]));
                json_agrees_with_itself(values@[i]);
            }
        },
        JsonValue::Object(members) => {
            assert forall|i: int| 0 <= i < members@.len() implies same_json(
                (#[trigger] members@[i]).1,
                members@[i].1,
            ) by {
                assert(decreases_to!(value => value->Object_0));
                assert(decreases_to!(members => members@));
                assert(decreases_to!(members@ => members@[i]));
                assert(decreases_to!(members@[i] => members@[i].1));
                json_agrees_with_itself(members@[i].1);
            }
        },
        _ => {},
    }
}

/// Members agree with themselves.
pub proof fn members_agree_with_themselves(members: Seq<(String, JsonValue)>)
    ensures
        same_members(members, members),
{
    assert forall|i: int| 0 <= i < members.len() implies same_json(
        (#[trigger] members[i]).1,
        members[i].1,
    ) by {
        json_agrees_with_itself(members[i].1);
    }
}

/// What agrees with a sorted value is sorted.
proof fn agreeing_value_is_ordered(value: JsonValue, other: JsonValue)
    requires
        same_json(value, other),
        is_ordered(other),
    ensures
        is_ordered(value),
    decreases value,
{
    match (value, other) {
        (JsonValue::Array(values), JsonValue::Array(others)) => {
            assert forall|i: int| 0 <= i < values@.len() implies is_ordered(
                #[trigger] values@[i],
            ) by {
                assert(decreases_to!(value => value->Array_0));
                assert(decreases_to!(values => values@));
                assert(decreases_to!(values@ => values@[i]));
                assert(is_ordered(others@[i]));
                agreeing_value_is_ordered(values@[i], others@[i]);
            }
        },
        (JsonValue::Object(members), JsonValue::Object(others)) => {
            assert forall|i: int| 0 <= i < members@.len() implies is_ordered(
                (#[trigger] members@[i]).1,
            ) by {
                assert(decreases_to!(value => value->Object_0));
                assert(decreases_to!(members => members@));
                assert(decreases_to!(members@ => members@[i]));
                assert(decreases_to!(members@[i] => members@[i].1));
                assert(is_ordered(others@[i].1));
                agreeing_value_is_ordered(members@[i].1, others@[i].1);
            }
            assert forall|i: int, j: int| 0 <= i < j < members@.len() implies text::precedes(
                (#[trigger] members@[i]).0@,
                (#[trigger] members@[j]).0@,
            ) by {
                assert(members@[i].0@ == others@[i].0@);
                assert(members@[j].0@ == others@[j].0@);
            }
        },
        _ => {},
    }
}

/// Members that agree with sorted ones are sorted.
proof fn agreeing_members_are_ordered(
    members: Seq<(String, JsonValue)>,
    others: Seq<(String, JsonValue)>,
)
    requires
        same_members(members, others),
        are_ordered(others),
    ensures
        are_ordered(members),
{
    assert forall|i: int| 0 <= i < members.len() implies is_ordered((#[trigger] members[i]).1) by {
        assert(is_ordered(others[i].1));
        agreeing_value_is_ordered(members[i].1, others[i].1);
    }
    assert forall|i: int, j: int| 0 <= i < j < members.len() implies text::precedes(
        (#[trigger] members[i]).0@,
        (#[trigger] members[j]).0@,
    ) by {
        assert(members[i].0@ == others[i].0@);
        assert(members[j].0@ == others[j].0@);
    }
}

/// Copies a value.
pub fn copy_json(value: &JsonValue) -> (copied: JsonValue)
    ensures
        same_json(copied, *value),
    decreases *value,
{
    match value {
        JsonValue::Text(text) => JsonValue::Text(text.clone()),
        JsonValue::Integer(number) => JsonValue::Integer(*number),
        JsonValue::Float { bits } => JsonValue::Float { bits: *bits },
        JsonValue::Boolean(flag) => JsonValue::Boolean(*flag),
        JsonValue::Array(values) => {
            let mut copied: Vec<JsonValue> = Vec::new();
            let mut i: usize = 0;
            while i < values.len()
                invariant
                    *value == JsonValue::Array(*values),
                    i <= values@.len(),
                    copied@.len() == i,
                    forall|j: int| 0 <= j < i ==> same_json(#[trigger] copied@[j], values@[j]),
                decreases values@.len() - i,
            {
                proof {
                    assert(decreases_to!(*value => value->Array_0));
                    assert(decreases_to!(values => values@));
                    assert(decreases_to!(values@ => values@[i as int]));
                }
                copied.push(copy_json(&values[i]));
                i += 1;
            }
            JsonValue::Array(copied)
        },
        JsonValue::Object(members) => {
            let mut copied: Vec<(String, JsonValue)> = Vec::new();
            let mut i: usize = 0;
            while i < members.len()
                invariant
                    *value == JsonValue::Object(*members),
                    i <= members@.len(),
                    copied@.len() == i,
                    forall|j: int|
                        0 <= j < i ==> (#[trigger] copied@[j]).0@ == members@[j].0@ && same_json(
                            copied@[j].1,
                            members@[j].1,
                        ),
                decreases members@.len() - i,
            {
                proof {
                    assert(decreases_to!(*value => value->Object_0));
                    assert(decreases_to!(members => members@));
                    assert(decreases_to!(members@ => members@[i as int]));
                    assert(decreases_to!(members@[i as int] => members@[i as int].1));
                }
                copied.push((members[i].0.clone(), copy_json(&members[i].1)));
                i += 1;
            }
            JsonValue::Object(copied)
        },
    }
}

/// Copies members.
pub fn copy_members(members: &Vec<(String, JsonValue)>) -> (copied: Vec<(String, JsonValue)>)
    requires
        are_ordered(members@),
    ensures
        same_members(copied@, members@),
        are_ordered(copied@),
{
    let mut copied: Vec<(String, JsonValue)> = Vec::new();
    let mut i: usize = 0;
    while i < members.len()
        invariant
            i <= members@.len(),
            copied@.len() == i,
            forall|j: int|
                0 <= j < i ==> (#[trigger] copied@[j]).0@ == members@[j].0@ && same_json(
                    copied@[j].1,
                    members@[j].1,
                ),
        decreases members@.len() - i,
    {
        copied.push((members[i].0.clone(), copy_json(&members[i].1)));
        i += 1;
    }
    proof {
        agreeing_members_are_ordered(copied@, members@);
    }
    copied
}

pub fn equal_json(left: &JsonValue, right: &JsonValue) -> (same: bool)
    requires
        is_ordered(*left),
        is_ordered(*right),
    ensures
        same == same_json(*left, *right),
    decreases left,
{
    match (left, right) {
        (JsonValue::Text(left), JsonValue::Text(right)) => text::same_text(
            left.as_str(),
            right.as_str(),
        ),
        (JsonValue::Integer(left), JsonValue::Integer(right)) => *left == *right,
        (JsonValue::Float { bits: left }, JsonValue::Float { bits: right }) => *left == *right || (
        zero(*left) && zero(*right)),
        (JsonValue::Boolean(left), JsonValue::Boolean(right)) => *left == *right,
        (JsonValue::Array(lefts), JsonValue::Array(rights)) => {
            if lefts.len() != rights.len() {
                return false;
            }
            let mut i: usize = 0;
            while i < lefts.len()
                invariant
                    *left == JsonValue::Array(*lefts),
                    *right == JsonValue::Array(*rights),
                    forall|j: int| 0 <= j < lefts@.len() ==> is_ordered(#[trigger] lefts@[j]),
                    forall|j: int| 0 <= j < rights@.len() ==> is_ordered(#[trigger] rights@[j]),
                    lefts@.len() == rights@.len(),
                    i <= lefts@.len(),
                    forall|j: int| 0 <= j < i ==> same_json(#[trigger] lefts@[j], rights@[j]),
                decreases lefts@.len() - i,
            {
                assert(decreases_to!(*left => left->Array_0));
                assert(decreases_to!(*lefts => lefts@));
                assert(decreases_to!(lefts@ => lefts@[i as int]));
                if !equal_json(&lefts[i], &rights[i]) {
                    return false;
                }
                i += 1;
            }
            true
        },
        (JsonValue::Object(lefts), JsonValue::Object(rights)) => {
            if lefts.len() != rights.len() {
                return false;
            }
            let mut i: usize = 0;
            while i < lefts.len()
                invariant
                    *left == JsonValue::Object(*lefts),
                    *right == JsonValue::Object(*rights),
                    are_ordered(lefts@),
                    are_ordered(rights@),
                    lefts@.len() == rights@.len(),
                    i <= lefts@.len(),
                    forall|j: int|
                        0 <= j < i ==> (#[trigger] lefts@[j]).0@ == rights@[j].0@ && same_json(
                            lefts@[j].1,
                            rights@[j].1,
                        ),
                decreases lefts@.len() - i,
            {
                assert(decreases_to!(*left => left->Object_0));
                assert(decreases_to!(*lefts => lefts@));
                assert(decreases_to!(lefts@ => lefts@[i as int]));
                assert(decreases_to!(lefts@[i as int] => lefts@[i as int].1));
                if !text::same_text(lefts[i].0.as_str(), rights[i].0.as_str()) || !equal_json(
                    &lefts[i].1,
                    &rights[i].1,
                ) {
                    return false;
                }
                i += 1;
            }
            true
        },
        _ => false,
    }
}

/// The members of a driver's configuration agree.
pub open spec fn same_members(
    left: Seq<(String, JsonValue)>,
    right: Seq<(String, JsonValue)>,
) -> bool {
    &&& left.len() == right.len()
    &&& forall|i: int|
        0 <= i < left.len() ==> (#[trigger] left[i]).0@ == right[i].0@ && same_json(
            left[i].1,
            right[i].1,
        )
}

pub fn equal_members(left: &Vec<(String, JsonValue)>, right: &Vec<(String, JsonValue)>) -> (same:
    bool)
    requires
        are_ordered(left@),
        are_ordered(right@),
    ensures
        same == same_members(left@, right@),
{
    if left.len() != right.len() {
        return false;
    }
    let mut i: usize = 0;
    while i < left.len()
        invariant
            are_ordered(left@),
            are_ordered(right@),
            left@.len() == right@.len(),
            i <= left@.len(),
            forall|j: int|
                0 <= j < i ==> (#[trigger] left@[j]).0@ == right@[j].0@ && same_json(
                    left@[j].1,
                    right@[j].1,
                ),
        decreases left@.len() - i,
    {
        if !text::same_text(left[i].0.as_str(), right[i].0.as_str()) || !equal_json(
            &left[i].1,
            &right[i].1,
        ) {
            return false;
        }
        i += 1;
    }
    true
}

/// The kinds of backend.
#[derive(Clone, Copy, Debug, PartialEq, Eq, Structural)]
pub enum BackendKind {
    Local,
    StaticSsh,
    Nomad,
}


/// A backend that builds can be sent to.
#[derive(Clone, Debug)]
pub struct BackendTarget {
    pub name: String,
    pub kind: BackendKind,
    pub system: String,
    pub features: Vec<String>,
}

impl BackendTarget {
    /// Every setting agrees.
    pub open spec fn same_as(self, other: BackendTarget) -> bool {
        &&& self.name@ == other.name@
        &&& self.kind == other.kind
        &&& self.system@ == other.system@
        &&& same_texts(self.features@, other.features@)
    }

    pub fn copy(&self) -> (copied: BackendTarget)
        ensures
            copied.same_as(*self),
    {
        BackendTarget {
            name: self.name.clone(),
            kind: self.kind,
            system: self.system.clone(),
            features: copy_list(&self.features),
        }
    }

    pub fn equals(&self, other: &BackendTarget) -> (same: bool)
        ensures
            same == self.same_as(*other),
    {
        text::same_text(self.name.as_str(), other.name.as_str())
            && self.kind == other.kind
            && text::same_text(self.system.as_str(), other.system.as_str())
            && equal_texts(&self.features, &other.features)
    }

    pub fn name(&self) -> (name: &str)
        ensures
            name@ == self.name@,
    {
        self.name.as_str()
    }

    pub fn kind(&self) -> (kind: BackendKind)
        ensures
            kind == self.kind,
    {
        self.kind
    }

    pub fn system(&self) -> (system: &str)
        ensures
            system@ == self.system@,
    {
        self.system.as_str()
    }

    pub fn features(&self) -> (features: &Vec<String>)
        ensures
            *features == self.features,
    {
        &self.features
    }

}

/// An address of the network, by its bits.
#[derive(Clone, Copy, Debug, PartialEq, Eq, Structural)]
pub enum IpAddress {
    V4(u32),
    V6 { bits: u128, flow_information: u32, scope: u32 },
}

/// An address to listen at.
#[derive(Clone, Copy, Debug, PartialEq, Eq, Structural)]
pub struct SocketAddress {
    pub address: IpAddress,
    pub port: u16,
}

/// The service that Nomad workers call back.
#[derive(Clone, Debug)]
pub struct NomadCallbackConfig {
    pub bind: SocketAddress,
    pub public_url: String,
    pub maximum_connections: usize,
    pub maximum_header_bytes: usize,
    pub maximum_body_bytes: usize,
    pub authentication_request_timeout: Span,
    pub shutdown_drain_timeout: Span,
    pub maximum_jwks_bytes: usize,
    pub maximum_retained_nonces: usize,
}

impl NomadCallbackConfig {
    /// Every setting agrees.
    pub open spec fn same_as(self, other: NomadCallbackConfig) -> bool {
        &&& self.bind == other.bind
        &&& self.public_url@ == other.public_url@
        &&& self.maximum_connections == other.maximum_connections
        &&& self.maximum_header_bytes == other.maximum_header_bytes
        &&& self.maximum_body_bytes == other.maximum_body_bytes
        &&& self.authentication_request_timeout == other.authentication_request_timeout
        &&& self.shutdown_drain_timeout == other.shutdown_drain_timeout
        &&& self.maximum_jwks_bytes == other.maximum_jwks_bytes
        &&& self.maximum_retained_nonces == other.maximum_retained_nonces
    }

    pub fn equals(&self, other: &NomadCallbackConfig) -> (same: bool)
        ensures
            same == self.same_as(*other),
    {
        self.bind == other.bind
            && text::same_text(self.public_url.as_str(), other.public_url.as_str())
            && self.maximum_connections == other.maximum_connections
            && self.maximum_header_bytes == other.maximum_header_bytes
            && self.maximum_body_bytes == other.maximum_body_bytes
            && self.authentication_request_timeout == other.authentication_request_timeout
            && self.shutdown_drain_timeout == other.shutdown_drain_timeout
            && self.maximum_jwks_bytes == other.maximum_jwks_bytes
            && self.maximum_retained_nonces == other.maximum_retained_nonces
    }

    pub fn bind(&self) -> (bind: SocketAddress)
        ensures
            bind == self.bind,
    {
        self.bind
    }

    pub fn public_url(&self) -> (public_url: &str)
        ensures
            public_url@ == self.public_url@,
    {
        self.public_url.as_str()
    }

    pub fn maximum_connections(&self) -> (maximum_connections: usize)
        ensures
            maximum_connections == self.maximum_connections,
    {
        self.maximum_connections
    }

    pub fn maximum_header_bytes(&self) -> (maximum_header_bytes: usize)
        ensures
            maximum_header_bytes == self.maximum_header_bytes,
    {
        self.maximum_header_bytes
    }

    pub fn maximum_body_bytes(&self) -> (maximum_body_bytes: usize)
        ensures
            maximum_body_bytes == self.maximum_body_bytes,
    {
        self.maximum_body_bytes
    }

    pub fn authentication_request_timeout(&self) -> (authentication_request_timeout: Span)
        ensures
            authentication_request_timeout == self.authentication_request_timeout,
    {
        self.authentication_request_timeout
    }

    pub fn shutdown_drain_timeout(&self) -> (shutdown_drain_timeout: Span)
        ensures
            shutdown_drain_timeout == self.shutdown_drain_timeout,
    {
        self.shutdown_drain_timeout
    }

    pub fn maximum_jwks_bytes(&self) -> (maximum_jwks_bytes: usize)
        ensures
            maximum_jwks_bytes == self.maximum_jwks_bytes,
    {
        self.maximum_jwks_bytes
    }

    pub fn maximum_retained_nonces(&self) -> (maximum_retained_nonces: usize)
        ensures
            maximum_retained_nonces == self.maximum_retained_nonces,
    {
        self.maximum_retained_nonces
    }

}

/// The subjects that a credential stands for.
#[derive(Clone, Debug)]
pub struct CredentialMapping {
    pub audit_subject: Option<String>,
    pub quota_subject: Option<String>,
}

impl CredentialMapping {
    /// Every setting agrees.
    pub open spec fn same_as(self, other: CredentialMapping) -> bool {
        &&& same_option(self.audit_subject, other.audit_subject)
        &&& same_option(self.quota_subject, other.quota_subject)
    }

    pub fn equals(&self, other: &CredentialMapping) -> (same: bool)
        ensures
            same == self.same_as(*other),
    {
        equal_options(&self.audit_subject, &other.audit_subject)
            && equal_options(&self.quota_subject, &other.quota_subject)
    }

}

/// How many builds a subject may have.
#[derive(Clone, Copy, Debug, PartialEq, Eq, Structural)]
pub struct SchedulingLimits {
    maximum_queued_builds: usize,
    maximum_active_builds: usize,
}

impl SchedulingLimits {
    pub closed spec fn queued(self) -> usize {
        self.maximum_queued_builds
    }

    pub closed spec fn active(self) -> usize {
        self.maximum_active_builds
    }

    /// Limits are given for each count from one up to the most builds that can be scheduled.
    pub fn new(maximum_queued_builds: usize, maximum_active_builds: usize) -> (limits: Result<
        Self,
        Fault,
    >)
        ensures
            match limits {
                Ok(made) => {
                    &&& 0 < maximum_queued_builds <= MAXIMUM_SCHEDULING_BUILDS
                    &&& 0 < maximum_active_builds <= MAXIMUM_SCHEDULING_BUILDS
                    &&& made.queued() == maximum_queued_builds
                    &&& made.active() == maximum_active_builds
                },
                Err(refusal) => {
                    &&& refusal == fault::input_fault("scheduling limits are invalid")
                    &&& !(0 < maximum_queued_builds <= MAXIMUM_SCHEDULING_BUILDS && 0
                        < maximum_active_builds <= MAXIMUM_SCHEDULING_BUILDS)
                },
            },
    {
        if maximum_queued_builds == 0 || maximum_queued_builds > MAXIMUM_SCHEDULING_BUILDS
            || maximum_active_builds == 0 || maximum_active_builds > MAXIMUM_SCHEDULING_BUILDS {
            return Err(invalid_input("scheduling limits are invalid"));
        }
        Ok(SchedulingLimits { maximum_queued_builds, maximum_active_builds })
    }

    pub fn maximum_queued_builds(self) -> (maximum: usize)
        ensures
            maximum == self.queued(),
    {
        self.maximum_queued_builds
    }

    pub fn maximum_active_builds(self) -> (maximum: usize)
        ensures
            maximum == self.active(),
    {
        self.maximum_active_builds
    }

    pub fn equals(&self, other: &SchedulingLimits) -> (same: bool)
        ensures
            same == (self.queued() == other.queued() && self.active() == other.active()),
            same == (*self == *other),
    {
        self.maximum_queued_builds == other.maximum_queued_builds && self.maximum_active_builds
            == other.maximum_active_builds
    }
}


/// The backend on the gateway itself.
#[derive(Clone, Debug)]
pub struct LocalBackendConfig {
    pub target: BackendTarget,
    pub maximum_concurrent_builds: usize,
}

impl LocalBackendConfig {
    /// Every setting agrees.
    pub open spec fn same_as(self, other: LocalBackendConfig) -> bool {
        &&& self.target.same_as(other.target)
        &&& self.maximum_concurrent_builds == other.maximum_concurrent_builds
    }

    pub fn equals(&self, other: &LocalBackendConfig) -> (same: bool)
        ensures
            same == self.same_as(*other),
    {
        self.target.equals(&other.target)
            && self.maximum_concurrent_builds == other.maximum_concurrent_builds
    }

    pub fn target(&self) -> (target: &BackendTarget)
        ensures
            *target == self.target,
    {
        &self.target
    }

    pub fn maximum_concurrent_builds(&self) -> (maximum_concurrent_builds: usize)
        ensures
            maximum_concurrent_builds == self.maximum_concurrent_builds,
    {
        self.maximum_concurrent_builds
    }

}

/// A backend that is reached over SSH.
#[derive(Clone, Debug)]
pub struct StaticSshBackendConfig {
    pub target: BackendTarget,
    pub maximum_concurrent_builds: usize,
    pub ready_check_interval: Span,
    pub unavailable_check_interval: Span,
    pub check_timeout: Span,
    pub destination: String,
    pub identity_file: String,
    pub known_hosts_file: String,
    pub ssh_program: String,
}

impl StaticSshBackendConfig {
    /// Every setting agrees.
    pub open spec fn same_as(self, other: StaticSshBackendConfig) -> bool {
        &&& self.target.same_as(other.target)
        &&& self.maximum_concurrent_builds == other.maximum_concurrent_builds
        &&& self.ready_check_interval == other.ready_check_interval
        &&& self.unavailable_check_interval == other.unavailable_check_interval
        &&& self.check_timeout == other.check_timeout
        &&& self.destination@ == other.destination@
        &&& path::same_path(self.identity_file@, other.identity_file@)
        &&& path::same_path(self.known_hosts_file@, other.known_hosts_file@)
        &&& path::same_path(self.ssh_program@, other.ssh_program@)
    }

    pub fn equals(&self, other: &StaticSshBackendConfig) -> (same: bool)
        ensures
            same == self.same_as(*other),
    {
        self.target.equals(&other.target)
            && self.maximum_concurrent_builds == other.maximum_concurrent_builds
            && self.ready_check_interval == other.ready_check_interval
            && self.unavailable_check_interval == other.unavailable_check_interval
            && self.check_timeout == other.check_timeout
            && text::same_text(self.destination.as_str(), other.destination.as_str())
            && equal_paths(self.identity_file.as_str(), other.identity_file.as_str())
            && equal_paths(self.known_hosts_file.as_str(), other.known_hosts_file.as_str())
            && equal_paths(self.ssh_program.as_str(), other.ssh_program.as_str())
    }

    pub fn target(&self) -> (target: &BackendTarget)
        ensures
            *target == self.target,
    {
        &self.target
    }

    pub fn maximum_concurrent_builds(&self) -> (maximum_concurrent_builds: usize)
        ensures
            maximum_concurrent_builds == self.maximum_concurrent_builds,
    {
        self.maximum_concurrent_builds
    }

    pub fn ready_check_interval(&self) -> (ready_check_interval: Span)
        ensures
            ready_check_interval == self.ready_check_interval,
    {
        self.ready_check_interval
    }

    pub fn unavailable_check_interval(&self) -> (unavailable_check_interval: Span)
        ensures
            unavailable_check_interval == self.unavailable_check_interval,
    {
        self.unavailable_check_interval
    }

    pub fn check_timeout(&self) -> (check_timeout: Span)
        ensures
            check_timeout == self.check_timeout,
    {
        self.check_timeout
    }

    pub fn destination(&self) -> (destination: &str)
        ensures
            destination@ == self.destination@,
    {
        self.destination.as_str()
    }

    pub fn identity_file(&self) -> (identity_file: &str)
        ensures
            identity_file@ == self.identity_file@,
    {
        self.identity_file.as_str()
    }

    pub fn known_hosts_file(&self) -> (known_hosts_file: &str)
        ensures
            known_hosts_file@ == self.known_hosts_file@,
    {
        self.known_hosts_file.as_str()
    }

    pub fn ssh_program(&self) -> (ssh_program: &str)
        ensures
            ssh_program@ == self.ssh_program@,
    {
        self.ssh_program.as_str()
    }

}

/// The resources of a Nomad task.
#[derive(Clone, Copy, Debug, PartialEq, Eq, Structural)]
pub struct NomadResources {
    pub cpu_mhz: u64,
    pub memory_mb: u64,
    pub disk_mb: u64,
}

impl NomadResources {
    pub fn cpu_mhz(self) -> (cpu_mhz: u64)
        ensures
            cpu_mhz == self.cpu_mhz,
    {
        self.cpu_mhz
    }

    pub fn memory_mb(self) -> (memory_mb: u64)
        ensures
            memory_mb == self.memory_mb,
    {
        self.memory_mb
    }

    pub fn disk_mb(self) -> (disk_mb: u64)
        ensures
            disk_mb == self.disk_mb,
    {
        self.disk_mb
    }

}

/// How a worker authenticates its transfers.
#[derive(Clone, Debug)]
pub enum NomadTransferAuthentication {
    WorkloadIdentity {
        issuer: String,
        jwks_url: String,
        audience: String,
        ca_certificate_file: Option<String>,
    },
    Hmac { key_id: String, secret_file: String },
}

impl NomadTransferAuthentication {
    /// Every setting agrees.
    pub open spec fn same_as(self, other: NomadTransferAuthentication) -> bool {
        match (self, other) {
            (
                NomadTransferAuthentication::WorkloadIdentity {
                    issuer,
                    jwks_url,
                    audience,
                    ca_certificate_file,
                },
                NomadTransferAuthentication::WorkloadIdentity {
                    issuer: other_issuer,
                    jwks_url: other_url,
                    audience: other_audience,
                    ca_certificate_file: other_file,
                },
            ) => {
                &&& issuer@ == other_issuer@
                &&& jwks_url@ == other_url@
                &&& audience@ == other_audience@
                &&& path::same_optional_path(ca_certificate_file, other_file)
            },
            (
                NomadTransferAuthentication::Hmac { key_id, secret_file },
                NomadTransferAuthentication::Hmac { key_id: other_key, secret_file: other_file },
            ) => key_id@ == other_key@ && path::same_path(secret_file@, other_file@),
            _ => false,
        }
    }

    pub fn copy(&self) -> (copied: NomadTransferAuthentication)
        ensures
            copied.same_as(*self),
    {
        match self {
            NomadTransferAuthentication::WorkloadIdentity {
                issuer,
                jwks_url,
                audience,
                ca_certificate_file,
            } => NomadTransferAuthentication::WorkloadIdentity {
                issuer: issuer.clone(),
                jwks_url: jwks_url.clone(),
                audience: audience.clone(),
                ca_certificate_file: copy_option(ca_certificate_file),
            },
            NomadTransferAuthentication::Hmac { key_id, secret_file } =>
            NomadTransferAuthentication::Hmac {
                key_id: key_id.clone(),
                secret_file: secret_file.clone(),
            },
        }
    }

    pub fn equals(&self, other: &NomadTransferAuthentication) -> (same: bool)
        ensures
            same == self.same_as(*other),
    {
        match (self, other) {
            (
                NomadTransferAuthentication::WorkloadIdentity {
                    issuer,
                    jwks_url,
                    audience,
                    ca_certificate_file,
                },
                NomadTransferAuthentication::WorkloadIdentity {
                    issuer: other_issuer,
                    jwks_url: other_url,
                    audience: other_audience,
                    ca_certificate_file: other_file,
                },
            ) => {
                text::same_text(issuer.as_str(), other_issuer.as_str()) && text::same_text(
                    jwks_url.as_str(),
                    other_url.as_str(),
                ) && text::same_text(audience.as_str(), other_audience.as_str())
                    && equal_optional_paths(ca_certificate_file, other_file)
            },
            (
                NomadTransferAuthentication::Hmac { key_id, secret_file },
                NomadTransferAuthentication::Hmac { key_id: other_key, secret_file: other_file },
            ) => {
                text::same_text(key_id.as_str(), other_key.as_str()) && equal_paths(
                    secret_file.as_str(),
                    other_file.as_str(),
                )
            },
            _ => false,
        }
    }

    pub fn mode(&self) -> (mode: &'static str)
        ensures
            mode@ == (if *self is Hmac {
                "hmac"@
            } else {
                "workload-identity"@
            }),
    {
        match self {
            NomadTransferAuthentication::WorkloadIdentity { .. } => "workload-identity",
            NomadTransferAuthentication::Hmac { .. } => "hmac",
        }
    }


    pub fn issuer(&self) -> (issuer: Option<&str>)
        ensures
            match *self {
                NomadTransferAuthentication::WorkloadIdentity { issuer: value, .. } => issuer is Some && issuer->0@
                    == value@,
                NomadTransferAuthentication::Hmac { .. } => issuer is None,
            },
    {
        match self {
            NomadTransferAuthentication::WorkloadIdentity { issuer: value, .. } => Some(value.as_str()),
            NomadTransferAuthentication::Hmac { .. } => None,
        }
    }

    pub fn jwks_url(&self) -> (jwks_url: Option<&str>)
        ensures
            match *self {
                NomadTransferAuthentication::WorkloadIdentity { jwks_url: value, .. } => jwks_url is Some && jwks_url->0@
                    == value@,
                NomadTransferAuthentication::Hmac { .. } => jwks_url is None,
            },
    {
        match self {
            NomadTransferAuthentication::WorkloadIdentity { jwks_url: value, .. } => Some(value.as_str()),
            NomadTransferAuthentication::Hmac { .. } => None,
        }
    }

    pub fn audience(&self) -> (audience: Option<&str>)
        ensures
            match *self {
                NomadTransferAuthentication::WorkloadIdentity { audience: value, .. } => audience is Some && audience->0@
                    == value@,
                NomadTransferAuthentication::Hmac { .. } => audience is None,
            },
    {
        match self {
            NomadTransferAuthentication::WorkloadIdentity { audience: value, .. } => Some(value.as_str()),
            NomadTransferAuthentication::Hmac { .. } => None,
        }
    }

    pub fn ca_certificate_file(&self) -> (ca_certificate_file: Option<&str>)
        ensures
            match *self {
                NomadTransferAuthentication::WorkloadIdentity { ca_certificate_file: Some(value), .. } => ca_certificate_file is Some
                    && ca_certificate_file->0@ == value@,
                _ => ca_certificate_file is None,
            },
    {
        match self {
            NomadTransferAuthentication::WorkloadIdentity { ca_certificate_file: value, .. } => match value {
                Some(file) => Some(file.as_str()),
                None => None,
            },
            NomadTransferAuthentication::Hmac { .. } => None,
        }
    }

    pub fn key_id(&self) -> (key_id: Option<&str>)
        ensures
            match *self {
                NomadTransferAuthentication::Hmac { key_id: value, .. } => key_id is Some && key_id->0@
                    == value@,
                NomadTransferAuthentication::WorkloadIdentity { .. } => key_id is None,
            },
    {
        match self {
            NomadTransferAuthentication::Hmac { key_id: value, .. } => Some(value.as_str()),
            NomadTransferAuthentication::WorkloadIdentity { .. } => None,
        }
    }

    pub fn secret_file(&self) -> (secret_file: Option<&str>)
        ensures
            match *self {
                NomadTransferAuthentication::Hmac { secret_file: value, .. } => secret_file is Some && secret_file->0@
                    == value@,
                NomadTransferAuthentication::WorkloadIdentity { .. } => secret_file is None,
            },
    {
        match self {
            NomadTransferAuthentication::Hmac { secret_file: value, .. } => Some(value.as_str()),
            NomadTransferAuthentication::WorkloadIdentity { .. } => None,
        }
    }
}

/// The store that a worker builds in.
#[derive(Clone, Debug)]
pub struct NomadStoreConfig {
    pub uri: String,
}

impl NomadStoreConfig {
    /// Every setting agrees.
    pub open spec fn same_as(self, other: NomadStoreConfig) -> bool {
        self.uri@ == other.uri@
    }

    pub fn equals(&self, other: &NomadStoreConfig) -> (same: bool)
        ensures
            same == self.same_as(*other),
    {
        text::same_text(self.uri.as_str(), other.uri.as_str())
    }

    pub fn mode(&self) -> (mode: &'static str)
        ensures
            mode@ == "daemon"@,
    {
        "daemon"
    }

    pub fn uri(&self) -> (uri: &str)
        ensures
            uri@ == self.uri@,
    {
        self.uri.as_str()
    }
}


/// The bounds of the transfers with a worker.
#[derive(Clone, Copy, Debug, PartialEq, Eq, Structural)]
pub struct NomadTransferLimits {
    pub maximum_manifest_paths: usize,
    pub maximum_manifest_bytes: u64,
    pub maximum_input_nar_bytes: u64,
    pub maximum_total_input_bytes: u64,
    pub maximum_output_nar_bytes: u64,
    pub maximum_total_output_bytes: u64,
    pub maximum_frame_metadata_bytes: usize,
    pub stream_buffer_bytes: usize,
    pub maximum_live_log_chunk_bytes: usize,
    pub live_log_queue_bytes: usize,
    pub transfer_idle_timeout: Span,
    pub setup_timeout: Span,
    pub output_collection_timeout: Span,
    pub maximum_connection_lifetime: Span,
    pub authentication_lifetime: Span,
    pub clock_skew: Span,
    pub nonce_retention: Span,
    pub reconnect_timeout: Span,
    pub maximum_diagnostic_bytes: usize,
}

impl NomadTransferLimits {
    pub fn maximum_manifest_paths(self) -> (maximum_manifest_paths: usize)
        ensures
            maximum_manifest_paths == self.maximum_manifest_paths,
    {
        self.maximum_manifest_paths
    }

    pub fn maximum_manifest_bytes(self) -> (maximum_manifest_bytes: u64)
        ensures
            maximum_manifest_bytes == self.maximum_manifest_bytes,
    {
        self.maximum_manifest_bytes
    }

    pub fn maximum_input_nar_bytes(self) -> (maximum_input_nar_bytes: u64)
        ensures
            maximum_input_nar_bytes == self.maximum_input_nar_bytes,
    {
        self.maximum_input_nar_bytes
    }

    pub fn maximum_total_input_bytes(self) -> (maximum_total_input_bytes: u64)
        ensures
            maximum_total_input_bytes == self.maximum_total_input_bytes,
    {
        self.maximum_total_input_bytes
    }

    pub fn maximum_output_nar_bytes(self) -> (maximum_output_nar_bytes: u64)
        ensures
            maximum_output_nar_bytes == self.maximum_output_nar_bytes,
    {
        self.maximum_output_nar_bytes
    }

    pub fn maximum_total_output_bytes(self) -> (maximum_total_output_bytes: u64)
        ensures
            maximum_total_output_bytes == self.maximum_total_output_bytes,
    {
        self.maximum_total_output_bytes
    }

    pub fn maximum_frame_metadata_bytes(self) -> (maximum_frame_metadata_bytes: usize)
        ensures
            maximum_frame_metadata_bytes == self.maximum_frame_metadata_bytes,
    {
        self.maximum_frame_metadata_bytes
    }

    pub fn stream_buffer_bytes(self) -> (stream_buffer_bytes: usize)
        ensures
            stream_buffer_bytes == self.stream_buffer_bytes,
    {
        self.stream_buffer_bytes
    }

    pub fn maximum_live_log_chunk_bytes(self) -> (maximum_live_log_chunk_bytes: usize)
        ensures
            maximum_live_log_chunk_bytes == self.maximum_live_log_chunk_bytes,
    {
        self.maximum_live_log_chunk_bytes
    }

    pub fn live_log_queue_bytes(self) -> (live_log_queue_bytes: usize)
        ensures
            live_log_queue_bytes == self.live_log_queue_bytes,
    {
        self.live_log_queue_bytes
    }

    pub fn transfer_idle_timeout(self) -> (transfer_idle_timeout: Span)
        ensures
            transfer_idle_timeout == self.transfer_idle_timeout,
    {
        self.transfer_idle_timeout
    }

    pub fn setup_timeout(self) -> (setup_timeout: Span)
        ensures
            setup_timeout == self.setup_timeout,
    {
        self.setup_timeout
    }

    pub fn output_collection_timeout(self) -> (output_collection_timeout: Span)
        ensures
            output_collection_timeout == self.output_collection_timeout,
    {
        self.output_collection_timeout
    }

    pub fn maximum_connection_lifetime(self) -> (maximum_connection_lifetime: Span)
        ensures
            maximum_connection_lifetime == self.maximum_connection_lifetime,
    {
        self.maximum_connection_lifetime
    }

    pub fn authentication_lifetime(self) -> (authentication_lifetime: Span)
        ensures
            authentication_lifetime == self.authentication_lifetime,
    {
        self.authentication_lifetime
    }

    pub fn clock_skew(self) -> (clock_skew: Span)
        ensures
            clock_skew == self.clock_skew,
    {
        self.clock_skew
    }

    pub fn nonce_retention(self) -> (nonce_retention: Span)
        ensures
            nonce_retention == self.nonce_retention,
    {
        self.nonce_retention
    }

    pub fn reconnect_timeout(self) -> (reconnect_timeout: Span)
        ensures
            reconnect_timeout == self.reconnect_timeout,
    {
        self.reconnect_timeout
    }

    pub fn maximum_diagnostic_bytes(self) -> (maximum_diagnostic_bytes: usize)
        ensures
            maximum_diagnostic_bytes == self.maximum_diagnostic_bytes,
    {
        self.maximum_diagnostic_bytes
    }

}

/// A task that runs before the build.
#[derive(Debug)]
pub struct NomadPrestartConfig {
    pub driver: String,
    pub driver_config: Vec<(String, JsonValue)>,
    pub resources: NomadResources,
    pub timeout: Span,
}

impl NomadPrestartConfig {
    /// The configuration of the driver is sorted.
    pub open spec fn well_formed(self) -> bool {
        are_ordered(self.driver_config@)
    }

    /// Every setting agrees.
    pub open spec fn same_as(self, other: NomadPrestartConfig) -> bool {
        &&& self.driver@ == other.driver@
        &&& same_members(self.driver_config@, other.driver_config@)
        &&& self.resources == other.resources
        &&& self.timeout == other.timeout
    }

    pub fn copy(&self) -> (copied: NomadPrestartConfig)
        requires
            self.well_formed(),
        ensures
            copied.same_as(*self),
            copied.well_formed(),
    {
        NomadPrestartConfig {
            driver: self.driver.clone(),
            driver_config: copy_members(&self.driver_config),
            resources: self.resources,
            timeout: self.timeout,
        }
    }

    pub fn equals(&self, other: &NomadPrestartConfig) -> (same: bool)
        requires
            self.well_formed(),
            other.well_formed(),
        ensures
            same == self.same_as(*other),
    {
        text::same_text(self.driver.as_str(), other.driver.as_str())
            && equal_members(&self.driver_config, &other.driver_config)
            && self.resources == other.resources
            && self.timeout == other.timeout
    }

    pub fn driver(&self) -> (driver: &str)
        ensures
            driver@ == self.driver@,
    {
        self.driver.as_str()
    }

    pub fn driver_config(&self) -> (driver_config: &Vec<(String, JsonValue)>)
        ensures
            *driver_config == self.driver_config,
    {
        &self.driver_config
    }

    pub fn resources(&self) -> (resources: NomadResources)
        ensures
            resources == self.resources,
    {
        self.resources
    }

    pub fn timeout(&self) -> (timeout: Span)
        ensures
            timeout == self.timeout,
    {
        self.timeout
    }

}

/// A backend that schedules builds on Nomad.
#[derive(Debug)]
pub struct NomadBackendConfig {
    pub target: BackendTarget,
    pub maximum_concurrent_builds: usize,
    pub endpoint: String,
    pub namespace: String,
    pub token_file: Option<String>,
    pub ca_certificate_file: Option<String>,
    pub client_certificate_file: Option<String>,
    pub client_key_file: Option<String>,
    pub driver: String,
    pub driver_config: Vec<(String, JsonValue)>,
    pub resources: NomadResources,
    pub job_name_scope: String,
    pub poll_interval: Span,
    pub runtime_limit: Span,
    pub transfer_endpoint: String,
    pub transfer_authentication: NomadTransferAuthentication,
    pub store: NomadStoreConfig,
    pub transfer_limits: NomadTransferLimits,
    pub prestart: Option<NomadPrestartConfig>,
}

impl NomadBackendConfig {
    /// The configurations of the drivers are sorted.
    pub open spec fn well_formed(self) -> bool {
        are_ordered(self.driver_config@) && match self.prestart {
            Some(prestart) => prestart.well_formed(),
            None => true,
        }
    }

    /// Every setting agrees.
    pub open spec fn same_as(self, other: NomadBackendConfig) -> bool {
        &&& self.target.same_as(other.target)
        &&& self.maximum_concurrent_builds == other.maximum_concurrent_builds
        &&& self.endpoint@ == other.endpoint@
        &&& self.namespace@ == other.namespace@
        &&& path::same_optional_path(self.token_file, other.token_file)
        &&& path::same_optional_path(self.ca_certificate_file, other.ca_certificate_file)
        &&& path::same_optional_path(self.client_certificate_file, other.client_certificate_file)
        &&& path::same_optional_path(self.client_key_file, other.client_key_file)
        &&& self.driver@ == other.driver@
        &&& same_members(self.driver_config@, other.driver_config@)
        &&& self.resources == other.resources
        &&& self.job_name_scope@ == other.job_name_scope@
        &&& self.poll_interval == other.poll_interval
        &&& self.runtime_limit == other.runtime_limit
        &&& self.transfer_endpoint@ == other.transfer_endpoint@
        &&& self.transfer_authentication.same_as(other.transfer_authentication)
        &&& self.store.same_as(other.store)
        &&& self.transfer_limits == other.transfer_limits
        &&& match (self.prestart, other.prestart) {
            (None, None) => true,
            (Some(left), Some(right)) => left.same_as(right),
            _ => false,
        }
    }

    pub fn copy(&self) -> (copied: NomadBackendConfig)
        requires
            self.well_formed(),
        ensures
            copied.same_as(*self),
            copied.well_formed(),
    {
        NomadBackendConfig {
            target: self.target.copy(),
            maximum_concurrent_builds: self.maximum_concurrent_builds,
            endpoint: self.endpoint.clone(),
            namespace: self.namespace.clone(),
            token_file: copy_option(&self.token_file),
            ca_certificate_file: copy_option(&self.ca_certificate_file),
            client_certificate_file: copy_option(&self.client_certificate_file),
            client_key_file: copy_option(&self.client_key_file),
            driver: self.driver.clone(),
            driver_config: copy_members(&self.driver_config),
            resources: self.resources,
            job_name_scope: self.job_name_scope.clone(),
            poll_interval: self.poll_interval,
            runtime_limit: self.runtime_limit,
            transfer_endpoint: self.transfer_endpoint.clone(),
            transfer_authentication: self.transfer_authentication.copy(),
            store: NomadStoreConfig { uri: self.store.uri.clone() },
            transfer_limits: self.transfer_limits,
            prestart: match &self.prestart {
                Some(prestart) => Some(prestart.copy()),
                None => None,
            },
        }
    }

    pub fn equals(&self, other: &NomadBackendConfig) -> (same: bool)
        requires
            self.well_formed(),
            other.well_formed(),
        ensures
            same == self.same_as(*other),
    {
        self.target.equals(&other.target)
            && self.maximum_concurrent_builds == other.maximum_concurrent_builds
            && text::same_text(self.endpoint.as_str(), other.endpoint.as_str())
            && text::same_text(self.namespace.as_str(), other.namespace.as_str())
            && equal_optional_paths(&self.token_file, &other.token_file)
            && equal_optional_paths(&self.ca_certificate_file, &other.ca_certificate_file)
            && equal_optional_paths(&self.client_certificate_file, &other.client_certificate_file)
            && equal_optional_paths(&self.client_key_file, &other.client_key_file)
            && text::same_text(self.driver.as_str(), other.driver.as_str())
            && equal_members(&self.driver_config, &other.driver_config)
            && self.resources == other.resources
            && text::same_text(self.job_name_scope.as_str(), other.job_name_scope.as_str())
            && self.poll_interval == other.poll_interval
            && self.runtime_limit == other.runtime_limit
            && text::same_text(self.transfer_endpoint.as_str(), other.transfer_endpoint.as_str())
            && self.transfer_authentication.equals(&other.transfer_authentication)
            && self.store.equals(&other.store)
            && self.transfer_limits == other.transfer_limits
            && match (&self.prestart, &other.prestart) {
                (None, None) => true,
                (Some(left), Some(right)) => left.equals(right),
                _ => false,
            }
    }

    pub fn target(&self) -> (target: &BackendTarget)
        ensures
            *target == self.target,
    {
        &self.target
    }

    pub fn maximum_concurrent_builds(&self) -> (maximum_concurrent_builds: usize)
        ensures
            maximum_concurrent_builds == self.maximum_concurrent_builds,
    {
        self.maximum_concurrent_builds
    }

    pub fn endpoint(&self) -> (endpoint: &str)
        ensures
            endpoint@ == self.endpoint@,
    {
        self.endpoint.as_str()
    }

    pub fn namespace(&self) -> (namespace: &str)
        ensures
            namespace@ == self.namespace@,
    {
        self.namespace.as_str()
    }

    pub fn token_file(&self) -> (token_file: Option<&str>)
        ensures
            match self.token_file {
                Some(value) => token_file is Some && token_file->0@ == value@,
                None => token_file is None,
            },
    {
        match &self.token_file {
            Some(value) => Some(value.as_str()),
            None => None,
        }
    }

    pub fn ca_certificate_file(&self) -> (ca_certificate_file: Option<&str>)
        ensures
            match self.ca_certificate_file {
                Some(value) => ca_certificate_file is Some && ca_certificate_file->0@ == value@,
                None => ca_certificate_file is None,
            },
    {
        match &self.ca_certificate_file {
            Some(value) => Some(value.as_str()),
            None => None,
        }
    }

    pub fn client_certificate_file(&self) -> (client_certificate_file: Option<&str>)
        ensures
            match self.client_certificate_file {
                Some(value) => client_certificate_file is Some && client_certificate_file->0@ == value@,
                None => client_certificate_file is None,
            },
    {
        match &self.client_certificate_file {
            Some(value) => Some(value.as_str()),
            None => None,
        }
    }

    pub fn client_key_file(&self) -> (client_key_file: Option<&str>)
        ensures
            match self.client_key_file {
                Some(value) => client_key_file is Some && client_key_file->0@ == value@,
                None => client_key_file is None,
            },
    {
        match &self.client_key_file {
            Some(value) => Some(value.as_str()),
            None => None,
        }
    }

    pub fn driver(&self) -> (driver: &str)
        ensures
            driver@ == self.driver@,
    {
        self.driver.as_str()
    }

    pub fn driver_config(&self) -> (driver_config: &Vec<(String, JsonValue)>)
        ensures
            *driver_config == self.driver_config,
    {
        &self.driver_config
    }

    pub fn resources(&self) -> (resources: NomadResources)
        ensures
            resources == self.resources,
    {
        self.resources
    }

    pub fn job_name_scope(&self) -> (job_name_scope: &str)
        ensures
            job_name_scope@ == self.job_name_scope@,
    {
        self.job_name_scope.as_str()
    }

    pub fn poll_interval(&self) -> (poll_interval: Span)
        ensures
            poll_interval == self.poll_interval,
    {
        self.poll_interval
    }

    pub fn runtime_limit(&self) -> (runtime_limit: Span)
        ensures
            runtime_limit == self.runtime_limit,
    {
        self.runtime_limit
    }

    pub fn transfer_endpoint(&self) -> (transfer_endpoint: &str)
        ensures
            transfer_endpoint@ == self.transfer_endpoint@,
    {
        self.transfer_endpoint.as_str()
    }

    pub fn transfer_authentication(&self) -> (transfer_authentication: &NomadTransferAuthentication)
        ensures
            *transfer_authentication == self.transfer_authentication,
    {
        &self.transfer_authentication
    }

    pub fn store(&self) -> (store: &NomadStoreConfig)
        ensures
            *store == self.store,
    {
        &self.store
    }

    pub fn transfer_limits(&self) -> (transfer_limits: NomadTransferLimits)
        ensures
            transfer_limits == self.transfer_limits,
    {
        self.transfer_limits
    }

    pub fn prestart(&self) -> (prestart: Option<&NomadPrestartConfig>)
        ensures
            match self.prestart {
                Some(value) => prestart == Some(&value),
                None => prestart is None,
            },
    {
        self.prestart.as_ref()
    }

}

} // verus!
