//! Fresh local user IDs.

use rand::distributions::{Distribution, Uniform};
use rand::thread_rng;
use vstd::prelude::*;
use vstd::string::*;

verus! {

/// The number of characters in a local user ID.
pub const USER_ID_LENGTH: usize = 36;

/// The characters that a local user ID is made of.
pub const USER_ID_CHARACTERS: &'static str =
    "ABCDEFGHIJKLMNOPQRSTUVWXYZabcdefghijklmnopqrstuvwxyz0123456789";

/// The number of characters that a local user ID is made of.
pub const USER_ID_CHARACTER_COUNT: usize = 62;

/// Draws a number with the `rand` crate: `Distribution::sample` of the
/// `Uniform` distribution over the numbers from zero up to and without
/// `bound`, on the generator that `thread_rng` gives. Taken on trust: the
/// number is below `bound`. Nothing is said of which number comes. The bound
/// must not be zero, for which `Uniform` panics.
#[verifier::external_body]
fn random_below(bound: usize) -> (drawn: usize)
    requires
        bound > 0,
    ensures
        drawn < bound,
{
    Uniform::from(0..bound).sample(&mut thread_rng())
}

/// Whether a text has the form of a local user ID: the right length, and no
/// character from outside the set.
pub open spec fn is_user_id(id: Seq<char>) -> bool {
    &&& id.len() == USER_ID_LENGTH
    &&& forall|i: int| 0 <= i < id.len() ==> USER_ID_CHARACTERS@.contains(#[trigger] id[i])
}

/// The text that picks one character of the set for each index.
pub open spec fn characters_at(indices: Seq<usize>) -> Seq<char> {
    indices.map_values(|index: usize| USER_ID_CHARACTERS@[index as int])
}

/// The text that picks one character of the set for each index; `None`
/// where an index points outside the set.
pub fn user_id_from_indices(indices: &[usize]) -> (id: Option<String>)
    ensures
        match id {
            Some(id) => id@ == characters_at(indices@) && forall|i: int|
                0 <= i < indices@.len() ==> #[trigger] indices@[i] < USER_ID_CHARACTER_COUNT,
            None => exists|i: int|
                0 <= i < indices@.len() && #[trigger] indices@[i] >= USER_ID_CHARACTER_COUNT,
        },
{
    proof {
        reveal_strlit("ABCDEFGHIJKLMNOPQRSTUVWXYZabcdefghijklmnopqrstuvwxyz0123456789");
    }
    let mut id = String::new();
    let mut position: usize = 0;
    assert(id@ =~= characters_at(indices@.take(0)));
    while position < indices.len()
        invariant
            position <= indices@.len(),
            USER_ID_CHARACTERS@.len() == USER_ID_CHARACTER_COUNT,
            id@ == characters_at(indices@.take(position as int)),
            forall|i: int| 0 <= i < position ==> #[trigger] indices@[i] < USER_ID_CHARACTER_COUNT,
        decreases indices.len() - position,
    {
        let index = indices[position];
        if index >= USER_ID_CHARACTER_COUNT {
            return None;
        }
        let character = USER_ID_CHARACTERS.substring_char(index, index + 1);
        id.append(character);
        assert(id@ =~= characters_at(indices@.take(position + 1))) by {
            assert(indices@.take(position + 1).drop_last() =~= indices@.take(position as int));
            assert(character@ =~= seq![USER_ID_CHARACTERS@[index as int]]);
        }
        position += 1;
    }
    assert(indices@.take(position as int) =~= indices@);
    Some(id)
}

/// Makes a new local user ID: 36 characters, each a letter or a digit drawn
/// at random.
///
/// A local user ID stands for a user and is that user's secret. Make one per
/// user, once, and keep it; do not make a new one whenever a client starts.
pub fn gen_user_id() -> (id: String)
    ensures
        is_user_id(id@),
{
    let mut indices: Vec<usize> = Vec::new();
    while indices.len() < USER_ID_LENGTH
        invariant
            indices@.len() <= USER_ID_LENGTH,
            forall|i: int|
                0 <= i < indices@.len() ==> #[trigger] indices@[i] < USER_ID_CHARACTER_COUNT,
        decreases USER_ID_LENGTH - indices.len(),
    {
        indices.push(random_below(USER_ID_CHARACTER_COUNT));
    }
    let id = user_id_from_indices(indices.as_slice()).unwrap();
    proof {
        reveal_strlit("ABCDEFGHIJKLMNOPQRSTUVWXYZabcdefghijklmnopqrstuvwxyz0123456789");
        assert forall|i: int| 0 <= i < id@.len() implies USER_ID_CHARACTERS@.contains(
            #[trigger] id@[i],
        ) by {
            assert(id@[i] == USER_ID_CHARACTERS@[indices@[i] as int]);
        }
    }
    id
}

} // verus!
