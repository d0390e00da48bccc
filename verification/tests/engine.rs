use wordlers::game_state::GameState;

fn state_with_solution(solution: &str) -> GameState {
    let mut state = GameState::new(solution.chars().count(), 6, false);
    state.solution = String::from(solution);
    state
}

#[test]
fn all_exact_when_guess_is_solution() {
    let state = state_with_solution("CRANE");
    let (exact, present) = state.match_guess_to_solution("CRANE");
    assert_eq!(exact, vec![0, 1, 2, 3, 4]);
    assert_eq!(present, Vec::<usize>::new());
}

#[test]
fn duplicate_letters_speed_erase() {
    // Solution SPEED, guess ERASE: no position agrees, and the two guessed
    // E's both find an E in the pool, as does the S; the R and A find none.
    let state = state_with_solution("SPEED");
    let (exact, present) = state.match_guess_to_solution("ERASE");
    assert_eq!(exact, Vec::<usize>::new());
    assert_eq!(present, vec![0, 3, 4]);
}

#[test]
fn duplicate_letters_never_outnumber_solution() {
    // Solution SPEED holds two E's: marking both guessed E's present leaves
    // no third E to claim, however many E's a longer guess offers.
    let state = state_with_solution("SPEED");
    let (exact, present) = state.match_guess_to_solution("EEEEE");
    assert_eq!(exact, vec![2, 3]);
    assert_eq!(present, Vec::<usize>::new());
}

#[test]
fn single_exact_consumes_pool_slot() {
    // Solution ABCDE, guess EEEEE: the E at index four is exact and consumes
    // the solution's only E, so no other position can be marked present.
    let state = state_with_solution("ABCDE");
    let (exact, present) = state.match_guess_to_solution("EEEEE");
    assert_eq!(exact, vec![4]);
    assert_eq!(present, Vec::<usize>::new());
}

#[test]
fn exact_and_present_disjoint_and_bounded() {
    let state = state_with_solution("SPEED");
    let (exact, present) = state.match_guess_to_solution("ERASE");
    for i in &exact {
        assert!(!present.contains(i));
    }
    assert!(exact.len() + present.len() <= 5);
}

#[test]
fn evaluation_is_deterministic() {
    let state = state_with_solution("SPEED");
    let (exact_a, present_a) = state.match_guess_to_solution("ERASE");
    let (exact_b, present_b) = state.match_guess_to_solution("ERASE");
    assert_eq!(exact_a, exact_b);
    assert_eq!(present_a, present_b);
}

#[test]
fn absent_letters_leave_the_pool_once() {
    let mut state = state_with_solution("ABCDE");
    assert!(state.letters_available.contains(&'Z'));
    state.remove_unfound_letters("ZEBRA");
    // Z and R are nowhere in the solution; the rest of the guess is.
    assert!(!state.letters_available.contains(&'Z'));
    assert!(!state.letters_available.contains(&'R'));
    assert!(state.letters_available.contains(&'E'));
    assert!(state.letters_available.contains(&'B'));
    assert!(state.letters_available.contains(&'A'));
    let after_first = state.letters_available.clone();
    // A second guess with the same absent letters changes nothing more.
    state.remove_unfound_letters("ZEBRA");
    assert_eq!(state.letters_available, after_first);
}

#[test]
fn solution_letters_stay_even_when_unmatched() {
    // Every guessed A beyond the solution's single A earns no mark, yet A
    // stays available: it is still in the solution.
    let mut state = state_with_solution("ABCDE");
    state.remove_unfound_letters("AAAAA");
    assert!(state.letters_available.contains(&'A'));
    assert_eq!(state.letters_available.len(), 26);
}

#[test]
fn pool_starts_with_whole_alphabet() {
    let state = GameState::new(5, 6, true);
    let alphabet: Vec<char> = ('A'..='Z').collect();
    assert_eq!(state.letters_available, alphabet);
}

#[test]
fn result_line_plain_when_nothing_matched() {
    let state = state_with_solution("ABCDE");
    let line = state.create_result("ZYXWV", &vec![], &vec![]);
    assert_eq!(line, "Z Y X W V ");
}

#[test]
fn result_line_embeds_emphasised_letters_in_order() {
    let state = state_with_solution("SPEED");
    let (exact, present) = state.match_guess_to_solution("ERASE");
    let line = state.create_result("ERASE", &exact, &present);
    // Whatever emphasis the terminal settings produce, the guess letters
    // stand in the line in order, each piece closed by a blank.
    let mut rest: &str = &line;
    for c in "ERASE".chars() {
        let hit = rest.find(c).expect("guess letter missing from clue line");
        rest = &rest[hit + c.len_utf8()..];
    }
    assert!(line.ends_with(' '));
}

#[test]
fn history_appends_one_entry_per_accepted_guess() {
    let mut state = state_with_solution("CRANE");
    state.add_guess(String::from("AUDIO"));
    state.add_result(String::from("A U D I O "));
    assert_eq!(state.guess_count(), 1);
    assert_eq!(state.guesses_remaining(), 5);
    assert_eq!(state.guesses, vec![String::from("AUDIO")]);
    assert_eq!(state.results, vec![String::from("A U D I O ")]);
}
