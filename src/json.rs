use vstd::prelude::*;

verus! {

/// A JSON document as the wire protocol uses it: numbers are non-negative
/// integers, objects keep their fields in order.
pub enum JsonValue {
    Null,
    Bool(bool),
    Number(u64),
    Str(String),
    Array(Vec<JsonValue>),
    Object(Vec<(String, JsonValue)>),
}

/// The first value stored under `key` among `fields`.
pub open spec fn field_of(fields: Seq<(String, JsonValue)>, key: Seq<char>) -> Option<JsonValue>
    decreases fields.len(),
{
    if fields.len() == 0 {
        None
    } else if fields[0].0@ == key {
        Some(fields[0].1)
    } else {
        field_of(fields.drop_first(), key)
    }
}

/// The value at position `i` is the one stored under its key when no
/// earlier field has that key.
pub proof fn lemma_field_at(fields: Seq<(String, JsonValue)>, key: Seq<char>, i: int)
    requires
        0 <= i < fields.len(),
        fields[i].0@ == key,
        forall|j: int| 0 <= j < i ==> fields[j].0@ != key,
    ensures
        field_of(fields, key) == Some(fields[i].1),
    decreases i,
{
    if i > 0 {
        lemma_field_at(fields.drop_first(), key, i - 1);
    }
}

/// In an object whose keys are pairwise distinct, each field is found
/// under its key.
pub proof fn lemma_distinct_fields(fields: Seq<(String, JsonValue)>)
    requires
        forall|i: int, j: int| 0 <= i < j < fields.len() ==> fields[i].0@ != fields[j].0@,
    ensures
        forall|i: int| 0 <= i < fields.len() ==> field_of(fields, (#[trigger] fields[i]).0@) == Some(fields[i].1),
{
    assert forall|i: int| 0 <= i < fields.len() implies field_of(fields, (#[trigger] fields[i]).0@) == Some(fields[i].1) by {
        lemma_field_at(fields, fields[i].0@, i);
    }
}

/// Whether the characters of `s` are those of `lit`.
pub fn text_is(s: &str, lit: &str) -> (r: bool)
    ensures
        r == (s@ == lit@),
{
    let n = s.unicode_len();
    if n != lit.unicode_len() {
        return false;
    }
    let mut i: usize = 0;
    while i < n
        invariant
            n == s@.len(),
            n == lit@.len(),
            i <= n,
            forall|j: int| 0 <= j < i ==> s@[j] == lit@[j],
        decreases n - i,
    {
        if s.get_char(i) != lit.get_char(i) {
            return false;
        }
        i = i + 1;
    }
    assert(s@ =~= lit@);
    true
}

/// Looks up `key` in the fields of an object.
pub fn get_field<'a>(fields: &'a Vec<(String, JsonValue)>, key: &str) -> (r: Option<&'a JsonValue>)
    ensures
        match r {
            Some(v) => field_of(fields@, key@) == Some(*v),
            None => field_of(fields@, key@) is None,
        },
{
    let mut i: usize = 0;
    assert(fields@.subrange(0, fields@.len() as int) =~= fields@);
    while i < fields.len()
        invariant
            i <= fields@.len(),
            field_of(fields@, key@) == field_of(fields@.subrange(i as int, fields@.len() as int), key@),
        decreases fields.len() - i,
    {
        let ghost rest = fields@.subrange(i as int, fields@.len() as int);
        assert(rest.drop_first() =~= fields@.subrange(i + 1, fields@.len() as int));
        if text_is(fields[i].0.as_str(), key) {
            return Some(&fields[i].1);
        }
        i = i + 1;
    }
    None
}

} // verus!
