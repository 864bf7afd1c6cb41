//! Reading the values of an answer that the service writes in a form of its
//! own.

use vstd::prelude::*;

verus! {

/// A yes or no that the service sent as a number: zero is no, all else yes.
pub open spec fn spec_bool_from_integer(raw: i64) -> bool {
    raw != 0
}

/// A yes or no that the service sent as a number: zero is no, all else yes.
pub fn bool_from_integer(raw: i64) -> (value: bool)
    ensures
        value == spec_bool_from_integer(raw),
{
    raw != 0
}

/// A quantity in which the service writes zero for "not recorded".
pub open spec fn spec_none_on_zero(raw: Option<i64>) -> Option<i64> {
    match raw {
        Some(value) => if value == 0 {
            None
        } else {
            Some(value)
        },
        None => None,
    }
}

/// A quantity in which the service writes zero for "not recorded": zero and
/// an absent value both come out as `None`.
pub fn none_on_zero(raw: Option<i64>) -> (value: Option<i64>)
    ensures
        value == spec_none_on_zero(raw),
{
    match raw {
        Some(value) => if value == 0 {
            None
        } else {
            Some(value)
        },
        None => None,
    }
}

/// The converted key where a conversion succeeded, `None` where it failed.
pub open spec fn converted_key<T, E>(result: Result<T, E>) -> Option<T> {
    match result {
        Ok(converted) => Some(converted),
        Err(_) => None,
    }
}

/// Whether `outcome` can be what `convert` makes of a key: the converted key
/// where it succeeds, `None` where it fails.
pub open spec fn key_converts_to<T, E, C: Fn(&str) -> Result<T, E>>(
    convert: C,
    key: Seq<char>,
    outcome: Option<T>,
) -> bool {
    exists|text: &str, result: Result<T, E>| #[trigger]
        call_ensures(convert, (text,), result) && text@ == key && outcome == converted_key(result)
}

/// Whether `outcomes` can be what `convert` makes of the key of each entry.
pub open spec fn is_key_conversion<T, O, E, C: Fn(&str) -> Result<T, E>>(
    entries: Seq<(String, O)>,
    convert: C,
    outcomes: Seq<Option<T>>,
) -> bool {
    &&& outcomes.len() == entries.len()
    &&& forall|i: int|
        0 <= i < entries.len() ==> key_converts_to(convert, entries[i].0@, #[trigger] outcomes[i])
}

/// The entries whose key was converted, each under its converted key, in
/// their order.
pub open spec fn converted_entries<T, O>(
    entries: Seq<(String, O)>,
    outcomes: Seq<Option<T>>,
) -> Seq<(T, O)>
    decreases entries.len(),
{
    if entries.len() == 0 || outcomes.len() != entries.len() {
        Seq::empty()
    } else {
        let earlier = converted_entries(entries.drop_last(), outcomes.drop_last());
        match outcomes.last() {
            Some(key) => earlier.push((key, entries.last().1)),
            None => earlier,
        }
    }
}

/// Where the conversion is a function of the text of the key, the outcome for
/// each entry is that function of its key.
pub proof fn lemma_key_conversion_is_function<T, O, E, C: Fn(&str) -> Result<T, E>>(
    entries: Seq<(String, O)>,
    convert: C,
    outcomes: Seq<Option<T>>,
    key_of: spec_fn(Seq<char>) -> Option<T>,
)
    requires
        is_key_conversion(entries, convert, outcomes),
        forall|text: &str, result: Result<T, E>| #[trigger]
            call_ensures(convert, (text,), result) ==> converted_key(result) == key_of(text@),
    ensures
        outcomes == entries.map_values(|entry: (String, O)| key_of(entry.0@)),
{
    assert forall|i: int| 0 <= i < entries.len() implies outcomes[i] == key_of(
        entries[i].0@,
    ) by {
        assert(key_converts_to(convert, entries[i].0@, outcomes[i]));
    }
    assert(outcomes =~= entries.map_values(|entry: (String, O)| key_of(entry.0@)));
}

/// Converts the key of each entry of a map that the service sent. An entry
/// whose key does not convert is dropped, and the others stay: a key that
/// the service added lately does not spoil the rest of the map.
pub fn map_hashmap_key_from_str<T, O, C, E>(raw: Vec<(String, O)>, convert_func: C) -> (result:
    Vec<(T, O)>) where C: Fn(&str) -> Result<T, E>
    requires
        forall|text: &str| call_requires(convert_func, (text,)),
    ensures
        exists|outcomes: Seq<Option<T>>| #[trigger]
            is_key_conversion(raw@, convert_func, outcomes) && result@ == converted_entries(
                raw@,
                outcomes,
            ),
{
    let mut result: Vec<(T, O)> = Vec::new();
    let ghost mut outcomes: Seq<Option<T>> = Seq::empty();
    for entry in iter: raw
        invariant
            iter.seq() == raw@,
            iter.index() <= raw@.len(),
            forall|text: &str| call_requires(convert_func, (text,)),
            is_key_conversion(raw@.take(iter.index() as int), convert_func, outcomes),
            result@ == converted_entries(raw@.take(iter.index() as int), outcomes),
    {
        let ghost shorter = raw@.take(iter.index() as int);
        let ghost longer = raw@.take(iter.index() + 1);
        let ghost outcomes_before = outcomes;
        assert(longer.drop_last() =~= shorter);
        assert(longer.last() == entry);
        let (key, value) = entry;
        let converted = convert_func(key.as_str());
        proof {
            let outcome = converted_key(converted);
            outcomes = outcomes.push(outcome);
            assert(outcomes.drop_last() =~= outcomes_before);
            assert(key_converts_to(convert_func, key@, outcome));
            assert forall|i: int| 0 <= i < longer.len() implies key_converts_to(
                convert_func,
                longer[i].0@,
                #[trigger] outcomes[i],
            ) by {
                if i < shorter.len() {
                    assert(key_converts_to(convert_func, shorter[i].0@, outcomes_before[i]));
                }
            }
        }
        match converted {
            Ok(new_key) => {
                result.push((new_key, value));
            },
            Err(_) => {},
        }
    }
    assert(raw@.take(raw@.len() as int) =~= raw@);
    result
}

} // verus!
