//! A single-player word-guessing game: each guess is judged letter by letter
//! against a secret word until the word is found or the attempts run out.
use vstd::prelude::*;

pub mod game;
pub mod guess;
pub mod letter;
pub mod words;

pub use game::{Game, GameError, GameState, RetryReason, TurnOutcome};
pub use guess::{get_letters, GuessResult, GuessWord};
pub use letter::{fold_char, judge_letter, Letter, LetterStatus};
pub use words::get_random_word;

verus! {

} // verus!
