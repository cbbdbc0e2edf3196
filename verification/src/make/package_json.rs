//! Merging the description of a package with what its author adds to it.

use vstd::prelude::*;

verus! {

/// A JSON value.
#[derive(Debug, PartialEq, Eq)]
pub enum Json {
    Null,
    Bool(bool),
    /// A number, as it is written.
    Number(String),
    String(String),
    Array(Vec<Json>),
    /// An object: its members, in order.
    Object(Vec<(String, Json)>),
}

/// A JSON value as a mathematical value.
pub enum JsonValue {
    Null,
    Bool(bool),
    Number(Seq<char>),
    Text(Seq<char>),
    Array(Seq<JsonValue>),
    Object(Seq<(Seq<char>, JsonValue)>),
}

impl Json {
    /// The value as a mathematical value.
    pub open spec fn model(self) -> JsonValue
        decreases self,
    {
        match self {
            Json::Null => JsonValue::Null,
            Json::Bool(b) => JsonValue::Bool(b),
            Json::Number(n) => JsonValue::Number(n@),
            Json::String(s) => JsonValue::Text(s@),
            Json::Array(items) => JsonValue::Array(
                Seq::new(
                    items@.len(),
                    |i: int|
                        if 0 <= i < items@.len() {
                            items@[i].model()
                        } else {
                            JsonValue::Null
                        },
                ),
            ),
            Json::Object(members) => JsonValue::Object(
                Seq::new(
                    members@.len(),
                    |i: int|
                        if 0 <= i < members@.len() {
                            (members@[i].0@, members@[i].1.model())
                        } else {
                            (Seq::empty(), JsonValue::Null)
                        },
                ),
            ),
        }
    }
}

impl View for Json {
    type V = JsonValue;

    open spec fn view(&self) -> JsonValue {
        self.model()
    }
}

/// What a run of values says.
pub open spec fn values(items: Seq<Json>) -> Seq<JsonValue> {
    Seq::new(items.len(), |i: int| items[i]@)
}

/// What the members of an object say.
pub open spec fn members_of(members: Seq<(String, Json)>) -> Seq<(Seq<char>, JsonValue)> {
    Seq::new(members.len(), |i: int| (members[i].0@, members[i].1@))
}

/// The view of an array is the views of its items, and that of an object
/// the views of its members.
pub proof fn lemma_model_of_json(json: Json)
    ensures
        json matches Json::Array(items) ==> json@ == JsonValue::Array(values(items@)),
        json matches Json::Object(members) ==> json@ == JsonValue::Object(members_of(members@)),
{
    match json {
        Json::Array(items) => {
            assert(json@->Array_0 =~= values(items@));
        },
        Json::Object(members) => {
            assert(json@->Object_0 =~= members_of(members@));
        },
        _ => {},
    }
}

/// The place of the first member named `key`, or the number of members
/// where none has that name.
pub open spec fn place_of(members: Seq<(Seq<char>, JsonValue)>, key: Seq<char>) -> int
    decreases members.len(),
{
    if members.len() == 0 {
        0
    } else if members[0].0 == key {
        0
    } else {
        1 + place_of(members.drop_first(), key)
    }
}

/// The first `n` members of `lhs`, each merged with the member of its name
/// in `rhs` where there is one.
pub open spec fn merged_members(
    lhs: Seq<(Seq<char>, JsonValue)>,
    rhs: Seq<(Seq<char>, JsonValue)>,
    n: nat,
) -> Seq<(Seq<char>, JsonValue)>
    decreases lhs, n,
{
    if n == 0 || n > lhs.len() {
        Seq::empty()
    } else {
        let member = lhs[n - 1];
        let place = place_of(rhs, member.0);
        merged_members(lhs, rhs, (n - 1) as nat).push(
            if 0 <= place < rhs.len() {
                (member.0, merge(member.1, rhs[place].1))
            } else {
                member
            },
        )
    }
}

/// The first `n` members of `rhs` that have no namesake in `lhs`.
pub open spec fn added_members(
    lhs: Seq<(Seq<char>, JsonValue)>,
    rhs: Seq<(Seq<char>, JsonValue)>,
    n: nat,
) -> Seq<(Seq<char>, JsonValue)>
    decreases n,
{
    if n == 0 || n > rhs.len() {
        Seq::empty()
    } else {
        let before = added_members(lhs, rhs, (n - 1) as nat);
        if place_of(lhs, rhs[n - 1].0) < lhs.len() {
            before
        } else {
            before.push(rhs[n - 1])
        }
    }
}

/// Two values merged into one: arrays are joined, objects are merged member
/// by member, and of any other two values the right one is taken.
pub open spec fn merge(lhs: JsonValue, rhs: JsonValue) -> JsonValue
    decreases lhs,
{
    match lhs {
        JsonValue::Array(items) => match rhs {
            JsonValue::Array(more) => JsonValue::Array(items + more),
            _ => rhs,
        },
        JsonValue::Object(members) => match rhs {
            JsonValue::Object(others) => JsonValue::Object(
                merged_members(members, others, members.len()) + added_members(
                    members,
                    others,
                    others.len(),
                ),
            ),
            _ => rhs,
        },
        _ => rhs,
    }
}

/// A copy of a value.
pub fn duplicate_json(json: &Json) -> (copy: Json)
    ensures
        copy@ == json@,
    decreases json,
{
    match json {
        Json::Null => Json::Null,
        Json::Bool(b) => Json::Bool(*b),
        Json::Number(n) => Json::Number(n.clone()),
        Json::String(s) => Json::String(s.clone()),
        Json::Array(items) => {
            let mut copy: Vec<Json> = Vec::new();
            let mut i: usize = 0;
            while i < items.len()
                invariant
                    json is Array,
                    json->Array_0 == *items,
                    i <= items.len(),
                    copy.len() == i,
                    forall|j: int| 0 <= j < i ==> copy@[j]@ == items@[j]@,
                decreases items.len() - i,
            {
                copy.push(duplicate_json(&items[i]));
                i += 1;
            }
            let copy = Json::Array(copy);
            proof {
                lemma_model_of_json(copy);
                lemma_model_of_json(*json);
                assert(values(copy->Array_0@) =~= values(items@));
            }
            copy
        },
        Json::Object(members) => {
            let mut copy: Vec<(String, Json)> = Vec::new();
            let mut i: usize = 0;
            while i < members.len()
                invariant
                    json is Object,
                    json->Object_0 == *members,
                    i <= members.len(),
                    copy.len() == i,
                    forall|j: int|
                        0 <= j < i ==> copy@[j].0@ == members@[j].0@ && copy@[j].1@
                            == members@[j].1@,
                decreases members.len() - i,
            {
                copy.push((members[i].0.clone(), duplicate_json(&members[i].1)));
                i += 1;
            }
            let copy = Json::Object(copy);
            proof {
                lemma_model_of_json(copy);
                lemma_model_of_json(*json);
                assert(members_of(copy->Object_0@) =~= members_of(members@));
            }
            copy
        },
    }
}

/// The place of the first member named `key`, or the number of members.
fn find_member(members: &Vec<(String, Json)>, key: &String) -> (place: usize)
    ensures
        place == place_of(members_of(members@), key@),
        place <= members.len(),
{
    let ghost all = members_of(members@);
    let mut i: usize = 0;
    assert(all.skip(0) =~= all);
    while i < members.len()
        invariant
            i <= members.len(),
            all == members_of(members@),
            place_of(all, key@) == i + place_of(all.skip(i as int), key@),
        decreases members.len() - i,
    {
        proof {
            assert(all.skip(i as int).drop_first() =~= all.skip(i + 1));
            assert(all.skip(i as int)[0] == all[i as int]);
        }
        if members[i].0 == *key {
            return i;
        }
        i += 1;
    }
    assert(all.skip(i as int).len() == 0);
    i
}

/// See [`merged_members`] and [`added_members`].
pub fn merge_objects(lhs: &Vec<(String, Json)>, rhs: &Vec<(String, Json)>) -> (object: Vec<
    (String, Json),
>)
    ensures
        members_of(object@) == merged_members(
            members_of(lhs@),
            members_of(rhs@),
            lhs@.len(),
        ) + added_members(members_of(lhs@), members_of(rhs@), rhs@.len()),
    decreases lhs, 0nat,
{
    let ghost left = members_of(lhs@);
    let ghost right = members_of(rhs@);
    let mut object: Vec<(String, Json)> = Vec::new();
    let mut i: usize = 0;
    assert(members_of(object@) =~= merged_members(left, right, 0));
    while i < lhs.len()
        invariant
            left == members_of(lhs@),
            right == members_of(rhs@),
            i <= lhs.len(),
            members_of(object@) == merged_members(left, right, i as nat),
        decreases lhs.len() - i,
    {
        let ghost before = members_of(object@);
        let place = find_member(rhs, &lhs[i].0);
        let value = if place < rhs.len() {
            merge_values(&lhs[i].1, &rhs[place].1)
        } else {
            duplicate_json(&lhs[i].1)
        };
        object.push((lhs[i].0.clone(), value));
        proof {
            assert(left[i as int] == (lhs@[i as int].0@, lhs@[i as int].1@));
            assert(members_of(object@) =~= before.push(
                if 0 <= place < right.len() {
                    (left[i as int].0, merge(left[i as int].1, right[place as int].1))
                } else {
                    left[i as int]
                },
            ));
        }
        i += 1;
    }
    let ghost merged = members_of(object@);
    let mut k: usize = 0;
    assert(members_of(object@) =~= merged + added_members(left, right, 0));
    while k < rhs.len()
        invariant
            left == members_of(lhs@),
            right == members_of(rhs@),
            k <= rhs.len(),
            members_of(object@) == merged + added_members(left, right, k as nat),
        decreases rhs.len() - k,
    {
        let ghost before = members_of(object@);
        let place = find_member(lhs, &rhs[k].0);
        if place >= lhs.len() {
            object.push((rhs[k].0.clone(), duplicate_json(&rhs[k].1)));
            assert(members_of(object@) =~= before.push(right[k as int]));
        }
        proof {
            assert(members_of(object@) =~= merged + added_members(left, right, (k + 1) as nat));
        }
        k += 1;
    }
    object
}

/// See [`merge`].
pub fn merge_values(lhs: &Json, rhs: &Json) -> (merged: Json)
    ensures
        merged@ == merge(lhs@, rhs@),
    decreases lhs, 1nat,
{
    proof {
        lemma_model_of_json(*lhs);
        lemma_model_of_json(*rhs);
    }
    match (lhs, rhs) {
        (Json::Array(lhs_values), Json::Array(rhs_values)) => {
            let mut items: Vec<Json> = Vec::new();
            let mut i: usize = 0;
            while i < lhs_values.len()
                invariant
                    i <= lhs_values.len(),
                    items.len() == i,
                    forall|j: int| 0 <= j < i ==> items@[j]@ == lhs_values@[j]@,
                decreases lhs_values.len() - i,
            {
                items.push(duplicate_json(&lhs_values[i]));
                i += 1;
            }
            let mut k: usize = 0;
            while k < rhs_values.len()
                invariant
                    k <= rhs_values.len(),
                    items.len() == lhs_values.len() + k,
                    forall|j: int| 0 <= j < lhs_values.len() ==> items@[j]@ == lhs_values@[j]@,
                    forall|j: int|
                        0 <= j < k ==> items@[lhs_values.len() + j]@ == rhs_values@[j]@,
                decreases rhs_values.len() - k,
            {
                items.push(duplicate_json(&rhs_values[k]));
                k += 1;
            }
            let merged = Json::Array(items);
            proof {
                lemma_model_of_json(merged);
                assert(values(merged->Array_0@) =~= values(lhs_values@) + values(rhs_values@));
            }
            merged
        },
        (Json::Object(lhs_values), Json::Object(rhs_values)) => {
            let merged = Json::Object(merge_objects(lhs_values, rhs_values));
            proof {
                lemma_model_of_json(merged);
            }
            merged
        },
        // rhs takes priority
        (_, rhs) => duplicate_json(rhs),
    }
}

/// The description of a package for its JavaScript: its name, the kind of
/// its modules, and its dependencies, each at any version.
pub fn package_json(name: &str, dependencies: &Vec<String>) -> (object: Vec<(String, Json)>)
    ensures
        object@.len() == 3,
        object@[0].0@ == "name"@ && object@[0].1@ == JsonValue::Text(name@),
        object@[1].0@ == "type"@ && object@[1].1@ == JsonValue::Text("module"@),
        object@[2].0@ == "dependencies"@,
        object@[2].1@ == JsonValue::Object(
            Seq::new(dependencies@.len(), |i: int| (dependencies@[i]@, JsonValue::Text("*"@))),
        ),
{
    let mut members: Vec<(String, Json)> = Vec::new();
    let mut i: usize = 0;
    while i < dependencies.len()
        invariant
            i <= dependencies.len(),
            members.len() == i,
            forall|j: int|
                0 <= j < i ==> members@[j].0@ == dependencies@[j]@ && members@[j].1@
                    == JsonValue::Text("*"@),
        decreases dependencies.len() - i,
    {
        members.push((dependencies[i].clone(), Json::String("*".to_string())));
        i += 1;
    }
    let dependencies_object = Json::Object(members);
    proof {
        lemma_model_of_json(dependencies_object);
        assert(members_of(dependencies_object->Object_0@) =~= Seq::new(
            dependencies@.len(),
            |i: int| (dependencies@[i]@, JsonValue::Text("*"@)),
        ));
    }
    let mut object: Vec<(String, Json)> = Vec::new();
    object.push(("name".to_string(), Json::String(name.to_string())));
    object.push(("type".to_string(), Json::String("module".to_string())));
    object.push(("dependencies".to_string(), dependencies_object));
    object
}

} // verus!
