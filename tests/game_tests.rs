use foxle::{
    fold_char, get_letters, get_random_word, judge_letter, Game, GameError, GameState, GuessResult, GuessWord,
    LetterStatus, RetryReason, TurnOutcome,
};

use LetterStatus::{Absent, Exact, Present, Unevaluated};

fn statuses(r: &GuessResult) -> Vec<LetterStatus> {
    r.guess_letters.iter().map(|l| l.letter_status).collect()
}

fn evaluate(guess: &str, word: &str) -> GuessResult {
    GuessResult::evaluate(&GuessWord::new(guess), &GuessWord::new(word))
}

#[test]
fn own_character_is_exact_at_every_position() {
    let word = GuessWord::new("mango");
    for (i, c) in word.guess.iter().enumerate() {
        assert_eq!(judge_letter(*c, i, &word.guess), Exact);
    }
    assert_eq!(statuses(&evaluate("mango", "mango")), vec![Exact; 5]);
}

#[test]
fn fully_correct_exactly_when_equal_ignoring_case() {
    assert!(evaluate("brain", "brain").check_if_all_characters_are_correct());
    assert!(evaluate("BrAiN", "brain").check_if_all_characters_are_correct());
    assert!(evaluate("brain", "BRAIN").check_if_all_characters_are_correct());
    assert!(!evaluate("brawn", "brain").check_if_all_characters_are_correct());
    assert!(!evaluate("niarb", "brain").check_if_all_characters_are_correct());
}

#[test]
fn evaluating_twice_gives_the_same_letters() {
    let first = evaluate("crane", "brain");
    let second = evaluate("crane", "brain");
    assert_eq!(first.guess_letters, second.guess_letters);
}

#[test]
fn wrong_length_guess_is_retried_without_using_an_attempt() {
    let mut game = Game::new("brain", 5).unwrap();
    let outcome = game.submit_guess("bran");
    assert!(matches!(outcome, TurnOutcome::Retry(RetryReason::LengthMismatch)));
    assert_eq!(game.num_of_guesses, 0);
    assert!(matches!(game.submit_guess("brains"), TurnOutcome::Retry(_)));
    assert!(matches!(game.submit_guess(""), TurnOutcome::Retry(_)));
    assert_eq!(game.num_of_guesses, 0);
    assert_eq!(game.state(), GameState::AwaitingGuess);
}

#[test]
fn length_gate_after_an_attempt_keeps_the_count() {
    let mut game = Game::new("brain", 5).unwrap();
    assert!(matches!(game.submit_guess("crane"), TurnOutcome::Scored(_)));
    assert_eq!(game.num_of_guesses, 1);
    assert!(matches!(game.submit_guess("cran"), TurnOutcome::Retry(_)));
    assert_eq!(game.num_of_guesses, 1);
    assert_eq!(statuses(&game.guess_result), vec![Absent, Exact, Exact, Present, Absent]);
}

#[test]
fn secret_of_five_guess_of_four_is_retry() {
    let mut game = Game::new("abcde", 5).unwrap();
    assert!(matches!(game.submit_guess("abcd"), TurnOutcome::Retry(RetryReason::LengthMismatch)));
    assert_eq!(game.num_of_guesses, 0);
}

#[test]
fn present_wins_over_absent_when_position_misses() {
    let word: Vec<char> = vec!['a', 'b', 'c'];
    assert_eq!(judge_letter('a', 1, &word), Present);
    assert_eq!(judge_letter('a', 0, &word), Exact);
    assert_eq!(judge_letter('z', 1, &word), Absent);
    assert_eq!(judge_letter('c', 7, &word), Present);
    assert_eq!(judge_letter('z', 7, &word), Absent);
}

#[test]
fn brain_scenario_is_won_on_third_guess() {
    let mut game = Game::new("brain", 5).unwrap();
    match game.submit_guess("crane") {
        TurnOutcome::Scored(r) => {
            assert_eq!(statuses(&r), vec![Absent, Exact, Exact, Present, Absent]);
        }
        other => panic!("unexpected outcome {:?}", other),
    }
    match game.submit_guess("braid") {
        TurnOutcome::Scored(r) => {
            assert_eq!(statuses(&r), vec![Exact, Exact, Exact, Exact, Absent]);
        }
        other => panic!("unexpected outcome {:?}", other),
    }
    assert!(matches!(game.submit_guess("brain"), TurnOutcome::Won));
    assert_eq!(statuses(&game.guess_result), vec![Exact; 5]);
    assert_eq!(game.num_of_guesses, 3);
    assert_eq!(game.state(), GameState::Won);
    assert!(game.is_game_won());
}

#[test]
fn mango_is_lost_after_fifth_wrong_guess() {
    let mut game = Game::new("mango", 5).unwrap();
    for (i, g) in ["manga", "tango", "mangy", "mange", "bingo"].iter().enumerate() {
        let outcome = game.submit_guess(g);
        if i < 4 {
            assert!(matches!(outcome, TurnOutcome::Scored(_)));
            assert_eq!(game.state(), GameState::AwaitingGuess);
            assert!(!game.is_game_over());
        } else {
            assert!(matches!(outcome, TurnOutcome::Lost));
        }
        assert_eq!(game.num_of_guesses as usize, i + 1);
    }
    assert_eq!(game.state(), GameState::Lost);
    assert!(game.is_game_over());
    assert!(!game.is_game_won());
    assert!(matches!(game.submit_guess("mango"), TurnOutcome::Lost));
    assert_eq!(game.num_of_guesses, 5);
}

#[test]
fn correct_guess_on_last_attempt_is_a_win() {
    let mut game = Game::new("mango", 2).unwrap();
    assert!(matches!(game.submit_guess("tango"), TurnOutcome::Scored(_)));
    assert!(matches!(game.submit_guess("MANGO"), TurnOutcome::Won));
    assert_eq!(game.num_of_guesses, 2);
    assert_eq!(game.state(), GameState::Won);
    assert!(matches!(game.submit_guess("tango"), TurnOutcome::Won));
    assert_eq!(game.num_of_guesses, 2);
}

#[test]
fn one_attempt_wrong_guess_is_lost() {
    let mut game = Game::new("ab", 1).unwrap();
    assert!(matches!(game.submit_guess("ba"), TurnOutcome::Lost));
    assert_eq!(statuses(&game.guess_result), vec![Present, Present]);
}

#[test]
fn duplicate_letters_are_not_consumed() {
    assert_eq!(statuses(&evaluate("aab", "abc")), vec![Exact, Present, Present]);
    assert_eq!(statuses(&evaluate("ooooo", "mango")), vec![Present, Present, Present, Present, Exact]);
}

#[test]
fn empty_secret_is_refused() {
    assert!(matches!(Game::new("", 5), Err(GameError::WordSourceUnavailable)));
    let mut game = Game::new("mango", 5).unwrap();
    assert_eq!(game.set_game_guess_word(""), Err(GameError::WordSourceUnavailable));
    assert_eq!(game.word.guess, vec!['m', 'a', 'n', 'g', 'o']);
    assert_eq!(game.set_game_guess_word("Brain"), Ok(()));
    assert_eq!(game.word.guess, vec!['B', 'r', 'a', 'i', 'n']);
    assert_eq!(game.word.guess_length, 5);
}

#[test]
fn new_session_starts_awaiting_a_guess() {
    let game = Game::new("Mango", 5).unwrap();
    assert_eq!(game.word.guess, vec!['M', 'a', 'n', 'g', 'o']);
    assert_eq!(game.num_of_guesses, 0);
    assert_eq!(game.max_guesses, 5);
    assert_eq!(game.state(), GameState::AwaitingGuess);
    assert!(!game.is_game_won());
    assert!(!game.is_game_over());
}

#[test]
fn words_keep_their_typed_characters() {
    let w = GuessWord::new("BRAIN");
    assert_eq!(w.guess, vec!['B', 'R', 'A', 'I', 'N']);
    assert_eq!(w.guess_length, 5);
    assert!(w.check_guess_length(&GuessWord::new("crane")));
    assert!(!w.check_guess_length(&GuessWord::new("cranes")));
}

#[test]
fn letters_carry_their_positions() {
    let letters = get_letters(&vec!['x', 'y', 'z']);
    assert_eq!(letters.len(), 3);
    for (i, l) in letters.iter().enumerate() {
        assert_eq!(l.letter_position, i);
        assert_eq!(l.letter_status, Unevaluated);
    }
    assert_eq!(letters[2].letter_character, 'z');
}

#[test]
fn judging_in_place_keeps_characters_and_positions() {
    let mut r = GuessResult { guess_letters: get_letters(&vec!['n', 'a', 'b']) };
    assert!(!r.check_if_all_characters_are_correct());
    r.check_guess_result_with_game_word(&GuessWord::new("bar"));
    assert_eq!(statuses(&r), vec![Absent, Exact, Present]);
    assert_eq!(r.guess_letters[0].letter_character, 'n');
    assert_eq!(r.guess_letters[2].letter_position, 2);
}

#[test]
fn step_by_step_methods_follow_the_turn() {
    let mut game = Game::new("brain", 5).unwrap();
    game.set_guess_from_user_input("Bra");
    assert!(!game.is_guess_right_length());
    game.set_game_guess("CRANE");
    assert!(game.is_guess_right_length());
    assert_eq!(game.guess.guess, vec!['C', 'R', 'A', 'N', 'E']);
    game.set_game_guess_results();
    assert_eq!(statuses(&game.guess_result), vec![Absent, Exact, Exact, Present, Absent]);
    assert_eq!(game.num_of_guesses, 0);
}

#[test]
fn random_word_comes_from_the_list() {
    assert_eq!(get_random_word(&Vec::new()), Err(GameError::WordSourceUnavailable));
    let words = vec![String::from("mango"), String::from("brain"), String::from("crane")];
    for _ in 0..20 {
        let w = get_random_word(&words).unwrap();
        assert!(words.contains(&w));
    }
    assert_eq!(get_random_word(&vec![String::from("only")]), Ok(String::from("only")));
}

#[test]
fn stored_correct_result_is_a_win_before_any_attempt_is_counted() {
    let mut game = Game::new("brain", 5).unwrap();
    assert!(!game.is_game_won());
    game.set_game_guess("BRAIN");
    game.set_game_guess_results();
    assert_eq!(game.num_of_guesses, 0);
    assert!(game.is_game_won());
    assert_eq!(game.state(), GameState::Won);
}

#[test]
fn wrong_length_guesses_between_wrong_guesses_do_not_count() {
    let mut game = Game::new("mango", 3).unwrap();
    let inputs = ["tango", "man", "manga", "mangoes", "", "bingo"];
    let mut outcomes = Vec::new();
    for g in inputs.iter() {
        outcomes.push(game.submit_guess(g));
    }
    assert!(matches!(outcomes[0], TurnOutcome::Scored(_)));
    assert!(matches!(outcomes[1], TurnOutcome::Retry(_)));
    assert!(matches!(outcomes[2], TurnOutcome::Scored(_)));
    assert!(matches!(outcomes[3], TurnOutcome::Retry(_)));
    assert!(matches!(outcomes[4], TurnOutcome::Retry(_)));
    assert!(matches!(outcomes[5], TurnOutcome::Lost));
    assert_eq!(game.num_of_guesses, 3);
    assert_eq!(game.state(), GameState::Lost);
}

#[test]
fn new_word_refuses_empty_text() {
    let mut game = Game::new("mango", 5).unwrap();
    assert_eq!(game.set_game_guess_word(""), Err(GameError::WordSourceUnavailable));
    assert_eq!(game.word.guess_length, 5);
}

#[test]
fn case_is_folded_on_both_sides() {
    assert_eq!(fold_char('Q'), 'q');
    assert_eq!(fold_char('q'), 'q');
    assert_eq!(fold_char('7'), '7');
    assert_eq!(judge_letter('B', 0, &vec!['b', 'x']), Exact);
    assert_eq!(judge_letter('b', 0, &vec!['B', 'x']), Exact);
    assert_eq!(judge_letter('X', 0, &vec!['b', 'x']), Present);
    assert_eq!(judge_letter('Z', 0, &vec!['b', 'x']), Absent);
}

#[test]
fn typed_uppercase_letters_match_a_lowercase_word() {
    let mut r = GuessResult { guess_letters: get_letters(&vec!['B', 'R', 'A', 'I', 'N']) };
    r.check_guess_result_with_game_word(&GuessWord::new("brain"));
    assert_eq!(statuses(&r), vec![Exact; 5]);
    assert!(r.check_if_all_characters_are_correct());
    assert_eq!(r.guess_letters[0].letter_character, 'B');
}

#[test]
fn length_gate_counts_typed_characters() {
    let mut game = Game::new("ab", 5).unwrap();
    assert!(matches!(game.submit_guess("\u{130}"), TurnOutcome::Retry(RetryReason::LengthMismatch)));
    assert_eq!(game.num_of_guesses, 0);
    assert!(matches!(game.submit_guess("AB"), TurnOutcome::Won));
}
