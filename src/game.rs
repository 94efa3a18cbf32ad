//! The game session: the secret word, the attempts, and the turn rules.
use vstd::prelude::*;

use crate::guess::{
    all_exact, judged_letters, lemma_fully_correct_iff_equal, same_ignoring_case, GuessResult,
    GuessWord,
};

verus! {

/// Why a session could not be started.
#[derive(Clone, Copy, Debug, PartialEq, Eq, Structural)]
pub enum GameError {
    /// No secret word could be had: the word supplied was empty.
    WordSourceUnavailable,
}

/// Why a guess was handed back without being judged.
#[derive(Clone, Copy, Debug, PartialEq, Eq, Structural)]
pub enum RetryReason {
    /// The guess and the secret word differ in length.
    LengthMismatch,
}

/// Where a session stands between turns.
#[derive(Clone, Copy, Debug, PartialEq, Eq, Structural)]
pub enum GameState {
    AwaitingGuess,
    Won,
    Lost,
}

/// What one submitted guess led to.
#[derive(Debug)]
pub enum TurnOutcome {
    /// The guess was not judged and used no attempt; another is wanted.
    Retry(RetryReason),
    /// The guess was judged, was not the word, and attempts remain.
    Scored(GuessResult),
    /// The guess was the word.
    Won,
    /// The guess was not the word and it used the last attempt.
    Lost,
}

/// One turn on the attempts used and the won flag, for a guess as typed:
/// a guess of the wrong length, or one made after the end, changes nothing;
/// any other uses one attempt and wins exactly when it is judged all `Exact`.
pub open spec fn step(word: Seq<char>, max: nat, attempts: nat, won: bool, guess: Seq<char>) -> (
    nat,
    bool,
) {
    if guess.len() != word.len() || won || attempts >= max {
        (attempts, won)
    } else {
        (attempts + 1, all_exact(judged_letters(guess, word)))
    }
}

/// The turns `guesses`, taken in order from `attempts` and `won`.
pub open spec fn play(
    word: Seq<char>,
    max: nat,
    attempts: nat,
    won: bool,
    guesses: Seq<Seq<char>>,
) -> (nat, bool)
    decreases guesses.len(),
{
    if guesses.len() == 0 {
        (attempts, won)
    } else {
        let next = step(word, max, attempts, won, guesses[0]);
        play(word, max, next.0, next.1, guesses.drop_first())
    }
}

/// Turns never take the attempts used past the attempts allowed.
pub proof fn lemma_attempts_bounded(
    word: Seq<char>,
    max: nat,
    attempts: nat,
    won: bool,
    guesses: Seq<Seq<char>>,
)
    requires
        attempts <= max,
    ensures
        play(word, max, attempts, won, guesses).0 <= max,
    decreases guesses.len(),
{
    if guesses.len() > 0 {
        let next = step(word, max, attempts, won, guesses[0]);
        lemma_attempts_bounded(word, max, next.0, next.1, guesses.drop_first());
    }
}

/// How many of `guesses` are as long as `word`: the ones a turn judges.
pub open spec fn valid_count(word: Seq<char>, guesses: Seq<Seq<char>>) -> nat
    decreases guesses.len(),
{
    if guesses.len() == 0 {
        0
    } else {
        (if guesses[0].len() == word.len() {
            1nat
        } else {
            0nat
        }) + valid_count(word, guesses.drop_first())
    }
}

/// Every guess as long as `word` differs from it, case aside.
pub open spec fn all_wrong(word: Seq<char>, guesses: Seq<Seq<char>>) -> bool {
    forall|i: int|
        0 <= i < guesses.len() && #[trigger] guesses[i].len() == word.len()
            ==> !same_ignoring_case(guesses[i], word)
}

/// While attempts remain for them, guesses of the wrong length change
/// nothing and the others, none of them the word, each use one attempt and
/// win nothing.
pub proof fn lemma_wrong_guesses_use_attempts(
    word: Seq<char>,
    max: nat,
    attempts: nat,
    guesses: Seq<Seq<char>>,
)
    requires
        attempts + valid_count(word, guesses) <= max,
        all_wrong(word, guesses),
    ensures
        play(word, max, attempts, false, guesses) == (attempts + valid_count(word, guesses), false),
    decreases guesses.len(),
{
    if guesses.len() > 0 {
        let rest = guesses.drop_first();
        assert forall|i: int| 0 <= i < rest.len() && #[trigger] rest[i].len() == word.len()
            implies !same_ignoring_case(rest[i], word) by {
            assert(rest[i] == guesses[i + 1]);
        }
        if guesses[0].len() == word.len() {
            lemma_fully_correct_iff_equal(guesses[0], word);
            lemma_wrong_guesses_use_attempts(word, max, attempts + 1, rest);
        } else {
            lemma_wrong_guesses_use_attempts(word, max, attempts, rest);
        }
    }
}

/// The guesses of the right length among the first `k` are no more than
/// among all of them.
proof fn lemma_valid_count_prefix(word: Seq<char>, guesses: Seq<Seq<char>>, k: int)
    requires
        0 <= k <= guesses.len(),
    ensures
        valid_count(word, guesses.take(k)) <= valid_count(word, guesses),
    decreases guesses.len(),
{
    if k > 0 {
        assert(guesses.take(k).drop_first() =~= guesses.drop_first().take(k - 1));
        lemma_valid_count_prefix(word, guesses.drop_first(), k - 1);
    } else {
        assert(guesses.take(k).len() == 0);
    }
}

/// From a fresh session, guesses of which exactly `max` are as long as the
/// word, none of those the word, end it lost (every attempt used, not won),
/// guesses of the wrong length among them changing nothing; any prefix with
/// fewer of the right length leaves it neither won nor out of attempts.
pub proof fn lemma_lost_after_max_wrong_guesses(
    word: Seq<char>,
    max: nat,
    guesses: Seq<Seq<char>>,
)
    requires
        valid_count(word, guesses) == max,
        all_wrong(word, guesses),
    ensures
        play(word, max, 0, false, guesses) == (max, false),
        forall|k: int|
            0 <= k <= guesses.len() ==> #[trigger] play(word, max, 0, false, guesses.take(k)) == (
                valid_count(word, guesses.take(k)),
                false,
            ),
{
    lemma_wrong_guesses_use_attempts(word, max, 0, guesses);
    assert forall|k: int| 0 <= k <= guesses.len() implies #[trigger] play(
        word,
        max,
        0,
        false,
        guesses.take(k),
    ) == (valid_count(word, guesses.take(k)), false) by {
        let prefix = guesses.take(k);
        assert forall|i: int| 0 <= i < prefix.len() && #[trigger] prefix[i].len() == word.len()
            implies !same_ignoring_case(prefix[i], word) by {
            assert(prefix[i] == guesses[i]);
        }
        lemma_valid_count_prefix(word, guesses, k);
        lemma_wrong_guesses_use_attempts(word, max, 0, prefix);
    }
}

/// A game session.
#[derive(Debug)]
pub struct Game {
    /// The secret word.
    pub word: GuessWord,
    /// The most recent guess.
    pub guess: GuessWord,
    /// The judgment of the most recent judged guess.
    pub guess_result: GuessResult,
    /// Attempts used: guesses judged so far.
    pub num_of_guesses: u8,
    /// Attempts allowed.
    pub max_guesses: u8,
}

impl Game {
    /// A session with a secret word, at least one attempt allowed, and no
    /// more attempts used than allowed.
    pub open spec fn wf(&self) -> bool {
        &&& self.word.wf()
        &&& self.guess.wf()
        &&& self.word.guess@.len() > 0
        &&& 0 < self.max_guesses
        &&& self.num_of_guesses <= self.max_guesses
    }

    /// The stored result is of a judged guess (not the empty one a session
    /// starts with) and every letter of it is `Exact`.
    pub open spec fn won(&self) -> bool {
        self.guess_result.guess_letters@.len() > 0 && all_exact(self.guess_result.guess_letters@)
    }

    /// Where the session stands: a win wins over running out of attempts.
    pub open spec fn state_of(&self) -> GameState {
        if self.won() {
            GameState::Won
        } else if self.num_of_guesses == self.max_guesses {
            GameState::Lost
        } else {
            GameState::AwaitingGuess
        }
    }

    /// A session on the word `secret`, with `max_guesses`
    /// attempts and none used. Refused when that form is empty.
    pub fn new(secret: &str, max_guesses: u8) -> (r: Result<Game, GameError>)
        requires
            max_guesses > 0,
        ensures
            r is Ok <==> secret@.len() > 0,
            secret@.len() == 0 ==> r is Err,
            r is Err ==> r == Err::<Game, GameError>(GameError::WordSourceUnavailable),
            r matches Ok(g) ==> {
                &&& g.wf()
                &&& g.word.guess@ == secret@
                &&& g.guess.guess@.len() == 0
                &&& g.guess_result.guess_letters@.len() == 0
                &&& g.num_of_guesses == 0
                &&& g.max_guesses == max_guesses
                &&& g.state_of() == GameState::AwaitingGuess
            },
    {
        let word = GuessWord::new(secret);
        if word.guess_length == 0 {
            return Err(GameError::WordSourceUnavailable);
        }
        proof {
            reveal_strlit("");
        }
        let game = Game {
            word,
            guess: GuessWord::new(""),
            guess_result: GuessResult::empty(),
            num_of_guesses: 0,
            max_guesses,
        };
        Ok(game)
    }

    /// Whether every attempt has been used.
    pub fn is_game_over(&self) -> (r: bool)
        ensures
            r == (self.num_of_guesses == self.max_guesses),
    {
        self.num_of_guesses == self.max_guesses
    }

    /// Whether the stored result is of a judged guess and is all `Exact`.
    pub fn is_game_won(&self) -> (r: bool)
        ensures
            r == self.won(),
    {
        self.guess_result.guess_letters.len() > 0
            && self.guess_result.check_if_all_characters_are_correct()
    }

    /// Where the session stands.
    pub fn state(&self) -> (r: GameState)
        ensures
            r == self.state_of(),
    {
        if self.is_game_won() {
            GameState::Won
        } else if self.is_game_over() {
            GameState::Lost
        } else {
            GameState::AwaitingGuess
        }
    }

    /// Whether the most recent guess is as long as the secret word.
    pub fn is_guess_right_length(&self) -> (r: bool)
        ensures
            r == (self.word.guess_length == self.guess.guess_length),
    {
        self.word.check_guess_length(&self.guess)
    }
}

impl Game {
    /// Replaces the secret word by `game_word`; an empty word is refused and
    /// the session is left as it was.
    pub fn set_game_guess_word(&mut self, game_word: &str) -> (r: Result<(), GameError>)
        requires
            old(self).wf(),
        ensures
            final(self).wf(),
            r is Ok <==> game_word@.len() > 0,
            game_word@.len() == 0 ==> r is Err,
            r is Err ==> r == Err::<(), GameError>(GameError::WordSourceUnavailable) && *final(self)
                == *old(self),
            r is Ok ==> *final(self) == (Game { word: final(self).word, ..*old(self) }),
            r is Ok ==> final(self).word.guess@ == game_word@,
    {
        let word = GuessWord::new(game_word);
        if word.guess_length == 0 {
            return Err(GameError::WordSourceUnavailable);
        }
        self.word = word;
        Ok(())
    }

    /// Makes `game_guess` the most recent guess.
    pub fn set_game_guess(&mut self, game_guess: &str)
        requires
            old(self).wf(),
        ensures
            final(self).wf(),
            final(self).guess.guess@ == game_guess@,
            *final(self) == (Game { guess: final(self).guess, ..*old(self) }),
    {
        self.guess = GuessWord::new(game_guess);
    }

    /// Makes the text that the player typed (already trimmed by whoever read
    /// it) the most recent guess.
    pub fn set_guess_from_user_input(&mut self, input: &str)
        requires
            old(self).wf(),
        ensures
            final(self).wf(),
            final(self).guess.guess@ == input@,
            *final(self) == (Game { guess: final(self).guess, ..*old(self) }),
    {
        self.set_game_guess(input);
    }

    /// Judges the most recent guess against the secret word and keeps the
    /// result; the attempts are not counted here.
    pub fn set_game_guess_results(&mut self)
        requires
            old(self).wf(),
        ensures
            final(self).wf(),
            final(self).guess_result.guess_letters@ == judged_letters(
                old(self).guess.guess@,
                old(self).word.guess@,
            ),
            *final(self) == (Game { guess_result: final(self).guess_result, ..*old(self) }),
    {
        self.guess_result = GuessResult::evaluate(&self.guess, &self.word);
    }

    /// Plays one turn with the text `guess`. Its characters, as typed, are
    /// first counted against the secret word's: on a mismatch nothing changes and a retry
    /// is asked for. A session that has ended stays as it is and reports its
    /// end. Otherwise the guess is judged, one attempt is used, and the turn
    /// is won when every letter is `Exact` (case aside, the guess is the
    /// word), else lost when no attempt is
    /// left, else scored.
    pub fn submit_guess(&mut self, guess: &str) -> (r: TurnOutcome)
        requires
            old(self).wf(),
        ensures
            final(self).wf(),
            final(self).word == old(self).word,
            final(self).max_guesses == old(self).max_guesses,
            (final(self).num_of_guesses as nat, final(self).won()) == step(
                old(self).word.guess@,
                old(self).max_guesses as nat,
                old(self).num_of_guesses as nat,
                old(self).won(),
                guess@,
            ),
            guess@.len() != old(self).word.guess@.len() ==> r == TurnOutcome::Retry(
                RetryReason::LengthMismatch,
            ) && *final(self) == *old(self),
            guess@.len() == old(self).word.guess@.len() && old(self).state_of()
                == GameState::Won ==> r == TurnOutcome::Won && *final(self) == *old(self),
            guess@.len() == old(self).word.guess@.len() && old(self).state_of()
                == GameState::Lost ==> r == TurnOutcome::Lost && *final(self) == *old(self),
            guess@.len() == old(self).word.guess@.len() && old(self).state_of()
                == GameState::AwaitingGuess ==> {
                let judged = judged_letters(guess@, old(self).word.guess@);
                &&& final(self).guess.guess@ == guess@
                &&& final(self).guess_result.guess_letters@ == judged
                &&& final(self).num_of_guesses == old(self).num_of_guesses + 1
                &&& final(self).state_of() == if all_exact(judged) {
                    GameState::Won
                } else if final(self).num_of_guesses == final(self).max_guesses {
                    GameState::Lost
                } else {
                    GameState::AwaitingGuess
                }
                &&& r is Won <==> all_exact(judged)
                &&& r is Lost <==> final(self).state_of() == GameState::Lost
                &&& r is Scored <==> final(self).state_of() == GameState::AwaitingGuess
                &&& r matches TurnOutcome::Scored(res) ==> res.guess_letters@ == judged
            },
    {
        let candidate = GuessWord::new(guess);
        if !self.word.check_guess_length(&candidate) {
            return TurnOutcome::Retry(RetryReason::LengthMismatch);
        }
        if self.is_game_won() {
            return TurnOutcome::Won;
        }
        if self.is_game_over() {
            return TurnOutcome::Lost;
        }
        self.guess = candidate;
        self.set_game_guess_results();
        self.num_of_guesses = self.num_of_guesses + 1;
        if self.guess_result.check_if_all_characters_are_correct() {
            TurnOutcome::Won
        } else if self.is_game_over() {
            TurnOutcome::Lost
        } else {
            TurnOutcome::Scored(self.guess_result.copy_letters())
        }
    }
}

} // verus!
