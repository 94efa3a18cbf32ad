//! Choosing the secret word from a list of candidates.
use vstd::prelude::*;

use crate::game::GameError;

verus! {

/// Relies on rand's `Rng::gen_range` on `thread_rng()`, over `0..len`: it
/// gives some index below `len`, and panics on an empty range, which
/// `requires` leaves out.
#[verifier::external_body]
fn random_index(len: usize) -> (r: usize)
    requires
        len > 0,
    ensures
        r < len,
{
    rand::Rng::gen_range(&mut rand::thread_rng(), 0..len)
}

/// One of `words`, chosen at random; refused when there is none to choose.
pub fn get_random_word(words: &Vec<String>) -> (r: Result<String, GameError>)
    ensures
        r is Ok <==> words@.len() > 0,
        r is Err ==> r == Err::<String, GameError>(GameError::WordSourceUnavailable),
        r matches Ok(w) ==> exists|i: int| 0 <= i < words@.len() && w == words@[i],
{
    if words.len() == 0 {
        return Err(GameError::WordSourceUnavailable);
    }
    let i = random_index(words.len());
    Ok(words[i].clone())
}

} // verus!
