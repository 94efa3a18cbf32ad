//! Judging one guessed character against the secret word.
use vstd::prelude::*;

verus! {

/// How one guessed character relates to the secret word.
#[derive(Clone, Copy, Debug, PartialEq, Eq, Structural)]
pub enum LetterStatus {
    /// Not judged yet.
    Unevaluated,
    /// The character does not occur in the secret word.
    Absent,
    /// The character occurs in the secret word, but not at this position.
    Present,
    /// The secret word has this character at this position.
    Exact,
}

/// One character of a guess, with its position and its judgment.
#[derive(Clone, Copy, Debug, PartialEq, Eq, Structural)]
pub struct Letter {
    pub letter_character: char,
    pub letter_position: usize,
    pub letter_status: LetterStatus,
}

/// The letter with character `c` at position `pos`, judged `status`.
pub open spec fn letter_at(c: char, pos: int, status: LetterStatus) -> Letter {
    Letter { letter_character: c, letter_position: pos as usize, letter_status: status }
}

/// The lowercase mapping of one character, as `char::to_lowercase` gives it.
pub uninterp spec fn lower_char_of(c: char) -> Seq<char>;

/// Relies on `char::to_lowercase`: the lowercase mapping of the character,
/// which depends on the character alone; its characters are handed back in
/// order.
#[verifier::external_body]
fn lowercase_char(c: char) -> (r: Vec<char>)
    ensures
        r@ == lower_char_of(c),
{
    c.to_lowercase().collect()
}

/// The character that `c` is compared as: its lowercase mapping where that is
/// one character, else `c` itself.
pub open spec fn folded_char(c: char) -> char {
    if lower_char_of(c).len() == 1 {
        lower_char_of(c)[0]
    } else {
        c
    }
}

/// Folds `c` for a comparison that ignores case.
pub fn fold_char(c: char) -> (r: char)
    ensures
        r == folded_char(c),
{
    let lower = lowercase_char(c);
    if lower.len() == 1 {
        lower[0]
    } else {
        c
    }
}

/// Some character of `word` folds to the same character as `c`.
pub open spec fn occurs_folded(c: char, word: Seq<char>) -> bool {
    exists|j: int| 0 <= j < word.len() && #[trigger] folded_char(word[j]) == folded_char(c)
}

/// The judgment of character `c` at position `pos` against `word`, both
/// compared after folding case: an exact match at the position wins over an
/// occurrence anywhere else.
pub open spec fn status_of(c: char, pos: int, word: Seq<char>) -> LetterStatus {
    if 0 <= pos < word.len() && folded_char(word[pos]) == folded_char(c) {
        LetterStatus::Exact
    } else if occurs_folded(c, word) {
        LetterStatus::Present
    } else {
        LetterStatus::Absent
    }
}

/// Judges character `c` at position `pos` against `word`, ignoring case on
/// both sides. Total: a position past the end of the word is never an exact
/// match.
pub fn judge_letter(c: char, pos: usize, word: &Vec<char>) -> (r: LetterStatus)
    ensures
        r == status_of(c, pos as int, word@),
{
    let folded = fold_char(c);
    if pos < word.len() && fold_char(word[pos]) == folded {
        return LetterStatus::Exact;
    }
    let mut i: usize = 0;
    while i < word.len()
        invariant
            0 <= i <= word.len(),
            folded == folded_char(c),
            !(pos < word.len() && folded_char(word@[pos as int]) == folded),
            forall|j: int| 0 <= j < i ==> #[trigger] folded_char(word@[j]) != folded,
        decreases word.len() - i,
    {
        if fold_char(word[i]) == folded {
            return LetterStatus::Present;
        }
        i += 1;
    }
    LetterStatus::Absent
}

/// An exact match: a word's own character at its own position is judged
/// `Exact` against that word.
pub proof fn lemma_own_character_exact(word: Seq<char>, i: int)
    requires
        0 <= i < word.len(),
    ensures
        status_of(word[i], i, word) == LetterStatus::Exact,
{
}

/// A character that misses its position but occurs elsewhere in the word,
/// case aside, is `Present`, never `Absent`.
pub proof fn lemma_present_when_elsewhere(c: char, pos: int, word: Seq<char>, j: int)
    requires
        0 <= j < word.len(),
        folded_char(word[j]) == folded_char(c),
        !(0 <= pos < word.len() && folded_char(word[pos]) == folded_char(c)),
    ensures
        status_of(c, pos, word) == LetterStatus::Present,
{
}

} // verus!
