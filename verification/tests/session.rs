use wordlers::game::{Game, GuessOutcome, SessionStatus};
use wordlers::game_state::GameState;

fn one_word_game(word: &str, guesses_max: usize, must_be_words: bool) -> Game {
    let state = GameState::new(word.chars().count(), guesses_max, must_be_words);
    let mut game = Game::new(state, vec![String::from(word)]);
    game.create_solution_word();
    game
}

#[test]
fn solution_is_drawn_from_the_list_upper_cased() {
    let game = one_word_game("crane", 6, false);
    assert_eq!(game.state.solution, String::from("CRANE"));
}

#[test]
fn solution_is_one_of_the_candidates() {
    let state = GameState::new(5, 6, false);
    let mut game = Game::new(
        state,
        vec![String::from("crane"), String::from("speed"), String::from("audio")],
    );
    game.create_solution_word();
    let picked = game.state.solution.clone();
    assert!(["CRANE", "SPEED", "AUDIO"].contains(&picked.as_str()));
}

#[test]
fn word_list_is_filtered_to_the_word_length() {
    let state = GameState::new(5, 6, true);
    let game = Game::new(
        state,
        vec![
            String::from("crane"),
            String::from("be"),
            String::from("stream"),
            String::from("audio"),
        ],
    );
    assert_eq!(game.word_list, vec![String::from("crane"), String::from("audio")]);
}

#[test]
fn winning_guess_ends_the_session_at_once() {
    let mut game = one_word_game("crane", 6, false);
    let outcome = game.submit_guess("crane");
    assert_eq!(outcome, GuessOutcome::Won);
    assert_eq!(game.status, SessionStatus::Won);
    assert_eq!(game.state.guess_count(), 1);
}

#[test]
fn session_exhausts_exactly_on_the_last_missed_guess() {
    let mut game = one_word_game("crane", 6, false);
    for _ in 0..5 {
        let outcome = game.submit_guess("AUDIO");
        assert_eq!(outcome, GuessOutcome::Continue);
        assert_eq!(game.status, SessionStatus::AwaitingGuess);
    }
    let outcome = game.submit_guess("AUDIO");
    assert_eq!(outcome, GuessOutcome::Exhausted);
    assert_eq!(game.status, SessionStatus::Exhausted);
    assert_eq!(game.state.guesses_remaining(), 0);
}

#[test]
fn wrong_length_guess_is_rejected_without_spending_a_turn() {
    let mut game = one_word_game("crane", 6, false);
    let outcome = game.submit_guess("TOOLONG");
    assert_eq!(outcome, GuessOutcome::InvalidLength);
    assert_eq!(game.state.guess_count(), 0);
    assert_eq!(game.state.guesses_remaining(), 6);
    assert!(game.state.results.is_empty());
    assert_eq!(game.status, SessionStatus::AwaitingGuess);
}

#[test]
fn unknown_word_is_rejected_when_words_are_required() {
    let mut game = one_word_game("crane", 6, true);
    let outcome = game.submit_guess("AUDIO");
    assert_eq!(outcome, GuessOutcome::NotInWordList);
    assert_eq!(game.state.guess_count(), 0);
    assert_eq!(game.state.guesses_remaining(), 6);
    assert!(game.state.results.is_empty());
    assert_eq!(game.status, SessionStatus::AwaitingGuess);
}

#[test]
fn membership_test_is_case_insensitive() {
    // The submitted guess is normalized to upper case and the word list is
    // consulted in lower case, so the same word passes in any case.
    let mut game = one_word_game("crane", 6, true);
    let outcome = game.submit_guess("CRANE");
    assert_eq!(outcome, GuessOutcome::Won);
}

#[test]
fn accepted_guess_is_recorded_normalized() {
    let state = GameState::new(5, 6, false);
    let mut game = Game::new(state, vec![String::from("crane"), String::from("audio")]);
    game.create_solution_word();
    game.submit_guess("pride");
    assert_eq!(game.state.guesses, vec![String::from("PRIDE")]);
    assert_eq!(game.state.results.len(), 1);
}

#[test]
fn accepted_guess_shrinks_the_letter_pool() {
    let mut game = one_word_game("crane", 6, false);
    game.submit_guess("ZESTY");
    // Z, S, T and Y are nowhere in CRANE; E is.
    assert!(!game.state.letters_available.contains(&'Z'));
    assert!(!game.state.letters_available.contains(&'S'));
    assert!(!game.state.letters_available.contains(&'T'));
    assert!(!game.state.letters_available.contains(&'Y'));
    assert!(game.state.letters_available.contains(&'E'));
    assert!(game.state.letters_available.contains(&'C'));
}

#[test]
fn single_letter_session() {
    let mut game = one_word_game("a", 1, false);
    let outcome = game.submit_guess("a");
    assert_eq!(outcome, GuessOutcome::Won);
}
