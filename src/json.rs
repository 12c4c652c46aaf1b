use vstd::prelude::*;

verus! {

/// A JSON value. Numbers are kept as their literal text, so that no value is
/// rounded on its way through the library.
#[derive(Debug, PartialEq, Eq)]
pub enum Json {
    Null,
    Bool(bool),
    Number(String),
    Str(String),
    Array(Vec<Json>),
    Object(Vec<(String, Json)>),
}

/// The value bound to `key` in the members of an object: the first member
/// with that name.
pub open spec fn field(fields: Seq<(String, Json)>, key: Seq<char>) -> Option<Json>
    decreases fields.len(),
{
    if fields.len() == 0 {
        None
    } else if fields[0].0@ == key {
        Some(fields[0].1)
    } else {
        field(fields.drop_first(), key)
    }
}

/// Index of the first member named `key`.
pub open spec fn field_index(fields: Seq<(String, Json)>, key: Seq<char>) -> Option<int>
    decreases fields.len(),
{
    if fields.len() == 0 {
        None
    } else if fields[0].0@ == key {
        Some(0)
    } else {
        match field_index(fields.drop_first(), key) {
            Some(i) => Some(i + 1),
            None => None,
        }
    }
}

pub proof fn lemma_field_index(fields: Seq<(String, Json)>, key: Seq<char>)
    ensures
        field_index(fields, key) is None <==> field(fields, key) is None,
        field_index(fields, key) is None <==> forall|j: int|
            0 <= j < fields.len() ==> #[trigger] fields[j].0@ != key,
        field_index(fields, key) matches Some(i) ==> {
            &&& 0 <= i < fields.len()
            &&& fields[i].0@ == key
            &&& field(fields, key) == Some(fields[i].1)
            &&& forall|j: int| 0 <= j < i ==> #[trigger] fields[j].0@ != key
        },
    decreases fields.len(),
{
    if fields.len() > 0 {
        let rest = fields.drop_first();
        lemma_field_index(rest, key);
        if fields[0].0@ != key {
            assert forall|j: int| 1 <= j < fields.len() implies fields[j] == rest[j - 1] by {}
            if let Some(k) = field_index(rest, key) {
                assert forall|j: int| 0 <= j < k + 1 implies #[trigger] fields[j].0@ != key by {
                    if j > 0 {
                        assert(fields[j] == rest[j - 1]);
                    }
                }
            }
        }
    }
}

/// Finds the first member of `fields` named `key`.
pub fn find_field(fields: &Vec<(String, Json)>, key: &String) -> (r: Option<usize>)
    ensures
        r matches Some(i) ==> field_index(fields@, key@) == Some(i as int),
        r is None ==> field_index(fields@, key@) is None,
{
    proof {
        lemma_field_index(fields@, key@);
    }
    let mut i: usize = 0;
    while i < fields.len()
        invariant
            i <= fields@.len(),
            forall|j: int| 0 <= j < i ==> #[trigger] fields@[j].0@ != key@,
            field_index(fields@, key@) is None <==> forall|j: int|
                0 <= j < fields@.len() ==> #[trigger] fields@[j].0@ != key@,
            field_index(fields@, key@) matches Some(k) ==> {
                &&& 0 <= k < fields@.len()
                &&& fields@[k].0@ == key@
                &&& forall|j: int| 0 <= j < k ==> #[trigger] fields@[j].0@ != key@
            },
        decreases fields.len() - i,
    {
        if fields[i].0 == *key {
            return Some(i);
        }
        i = i + 1;
    }
    None
}

} // verus!
