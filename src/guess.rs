//! Words as typed, and the judgment of a whole guess.
use vstd::prelude::*;

use crate::letter::{folded_char, judge_letter, letter_at, status_of, Letter, LetterStatus};

verus! {

/// Relies on `str::chars`: the characters of the text, in order.
#[verifier::external_body]
fn chars_of(s: &str) -> (r: Vec<char>)
    ensures
        r@ == s@,
{
    s.chars().collect()
}

/// A word (the secret or a guess), held as the characters typed; case is
/// folded where characters are compared.
#[derive(Debug)]
pub struct GuessWord {
    pub guess: Vec<char>,
    pub guess_length: usize,
}

impl GuessWord {
    /// The stored length is the number of characters.
    pub open spec fn wf(&self) -> bool {
        self.guess_length == self.guess@.len()
    }

    /// The word made of the characters of `text`.
    pub fn new(text: &str) -> (r: GuessWord)
        ensures
            r.wf(),
            r.guess@ == text@,
    {
        let guess = chars_of(text);
        let guess_length = guess.len();
        GuessWord { guess, guess_length }
    }

    /// Whether `guess` has as many characters as this word.
    pub fn check_guess_length(&self, guess: &GuessWord) -> (r: bool)
        ensures
            r == (self.guess_length == guess.guess_length),
    {
        self.guess_length == guess.guess_length
    }
}

/// `guess` and `word` have the same length and, position by position, the
/// same characters once case is folded.
pub open spec fn same_ignoring_case(guess: Seq<char>, word: Seq<char>) -> bool {
    &&& guess.len() == word.len()
    &&& forall|i: int| 0 <= i < guess.len() ==> #[trigger] folded_char(guess[i]) == folded_char(word[i])
}

/// The characters of `word`, each at its position, none judged yet.
pub open spec fn unevaluated_letters(word: Seq<char>) -> Seq<Letter> {
    Seq::new(
        word.len(),
        |i: int| letter_at(word[i], i, LetterStatus::Unevaluated),
    )
}

/// The characters of `guess`, each at its position, judged against `word`.
pub open spec fn judged_letters(guess: Seq<char>, word: Seq<char>) -> Seq<Letter> {
    Seq::new(
        guess.len(),
        |i: int| letter_at(guess[i], i, status_of(guess[i], i, word)),
    )
}

/// `letter`, judged against `word` at its own position.
pub open spec fn judged(letter: Letter, word: Seq<char>) -> Letter {
    letter_at(
        letter.letter_character,
        letter.letter_position as int,
        status_of(letter.letter_character, letter.letter_position as int, word),
    )
}

/// Every letter is judged `Exact`.
pub open spec fn all_exact(letters: Seq<Letter>) -> bool {
    forall|i: int| 0 <= i < letters.len() ==> letters[i].letter_status == LetterStatus::Exact
}

/// The letters of `word`, in order, with their positions, none judged yet.
pub fn get_letters(word: &Vec<char>) -> (r: Vec<Letter>)
    ensures
        r@ == unevaluated_letters(word@),
{
    let mut letters: Vec<Letter> = Vec::new();
    let mut position: usize = 0;
    while position < word.len()
        invariant
            position <= word.len(),
            letters@ == unevaluated_letters(word@).take(position as int),
        decreases word.len() - position,
    {
        let letter = Letter {
            letter_character: word[position],
            letter_position: position,
            letter_status: LetterStatus::Unevaluated,
        };
        assert(letter == letter_at(word@[position as int], position as int, LetterStatus::Unevaluated));
        letters.push(letter);
        position += 1;
        assert(letters@ =~= unevaluated_letters(word@).take(position as int));
    }
    assert(letters@ =~= unevaluated_letters(word@));
    letters
}

/// The judged letters of one guess, in the order of the guess.
#[derive(Debug)]
pub struct GuessResult {
    pub guess_letters: Vec<Letter>,
}

impl GuessResult {
    /// A result with no letters.
    pub fn empty() -> (r: GuessResult)
        ensures
            r.guess_letters@.len() == 0,
    {
        GuessResult { guess_letters: Vec::new() }
    }

    /// Judges every letter against `game_word`, each at its own position;
    /// characters and positions are kept, and case is ignored.
    pub fn check_guess_result_with_game_word(&mut self, game_word: &GuessWord)
        ensures
            final(self).guess_letters@.len() == old(self).guess_letters@.len(),
            forall|i: int|
                0 <= i < old(self).guess_letters@.len() ==> #[trigger] final(self).guess_letters@[i]
                    == judged(old(self).guess_letters@[i], game_word.guess@),
    {
        let n = self.guess_letters.len();
        let mut i: usize = 0;
        while i < n
            invariant
                0 <= i <= n,
                n == old(self).guess_letters@.len(),
                self.guess_letters@.len() == n,
                forall|j: int|
                    0 <= j < i ==> #[trigger] self.guess_letters@[j] == judged(
                        old(self).guess_letters@[j],
                        game_word.guess@,
                    ),
                forall|j: int| i <= j < n ==> #[trigger] self.guess_letters@[j] == old(self).guess_letters@[j],
            decreases n - i,
        {
            let letter = self.guess_letters[i];
            let status = judge_letter(letter.letter_character, letter.letter_position, &game_word.guess);
            let judged_letter = Letter {
                letter_character: letter.letter_character,
                letter_position: letter.letter_position,
                letter_status: status,
            };
            self.guess_letters.set(i, judged_letter);
            i += 1;
        }
    }

    /// A result with the same letters.
    pub fn copy_letters(&self) -> (r: GuessResult)
        ensures
            r.guess_letters@ == self.guess_letters@,
    {
        let mut letters: Vec<Letter> = Vec::new();
        let mut i: usize = 0;
        while i < self.guess_letters.len()
            invariant
                0 <= i <= self.guess_letters@.len(),
                letters@ == self.guess_letters@.take(i as int),
            decreases self.guess_letters@.len() - i,
        {
            letters.push(self.guess_letters[i]);
            i += 1;
            assert(letters@ =~= self.guess_letters@.take(i as int));
        }
        assert(letters@ =~= self.guess_letters@);
        GuessResult { guess_letters: letters }
    }

    /// Whether every letter is judged `Exact`.
    pub fn check_if_all_characters_are_correct(&self) -> (r: bool)
        ensures
            r == all_exact(self.guess_letters@),
    {
        let mut i: usize = 0;
        while i < self.guess_letters.len()
            invariant
                0 <= i <= self.guess_letters@.len(),
                forall|j: int| 0 <= j < i ==> self.guess_letters@[j].letter_status == LetterStatus::Exact,
            decreases self.guess_letters@.len() - i,
        {
            if self.guess_letters[i].letter_status != LetterStatus::Exact {
                return false;
            }
            i += 1;
        }
        true
    }

    /// Judges `guess` against `word`: one letter per character of the guess,
    /// in order.
    pub fn evaluate(guess: &GuessWord, word: &GuessWord) -> (r: GuessResult)
        ensures
            r.guess_letters@ == judged_letters(guess.guess@, word.guess@),
    {
        let mut r = GuessResult { guess_letters: get_letters(&guess.guess) };
        let ghost unjudged = r.guess_letters@;
        let len: usize = guess.guess.len();
        r.check_guess_result_with_game_word(word);
        assert forall|i: int| 0 <= i < len implies r.guess_letters@[i]
            == judged_letters(guess.guess@, word.guess@)[i] by {
            assert(unjudged[i] == letter_at(guess.guess@[i], i, LetterStatus::Unevaluated));
            assert(unjudged[i].letter_position as int == i);
        }
        assert(r.guess_letters@ =~= judged_letters(guess.guess@, word.guess@));
        r
    }
}

/// A guess as long as the word is judged all `Exact` exactly when it is the
/// word, character for character, case aside.
pub proof fn lemma_fully_correct_iff_equal(guess: Seq<char>, word: Seq<char>)
    requires
        guess.len() == word.len(),
    ensures
        all_exact(judged_letters(guess, word)) <==> same_ignoring_case(guess, word),
{
    let r = judged_letters(guess, word);
    if all_exact(r) {
        assert forall|i: int| 0 <= i < guess.len() implies #[trigger] folded_char(guess[i])
            == folded_char(word[i]) by {
            assert(r[i].letter_status == LetterStatus::Exact);
        }
    }
    if same_ignoring_case(guess, word) {
        assert forall|i: int| 0 <= i < r.len() implies r[i].letter_status
            == LetterStatus::Exact by {
            assert(folded_char(guess[i]) == folded_char(word[i]));
        }
    }
}

/// Judging is a function of the guess and the word alone: two results of the
/// same pair hold the same letters.
pub proof fn lemma_evaluation_repeatable(
    guess: &GuessWord,
    word: &GuessWord,
    first: &GuessResult,
    second: &GuessResult,
)
    requires
        first.guess_letters@ == judged_letters(guess.guess@, word.guess@),
        second.guess_letters@ == judged_letters(guess.guess@, word.guess@),
    ensures
        first.guess_letters@ == second.guess_letters@,
{
}

} // verus!
