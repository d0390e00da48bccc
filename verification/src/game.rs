//! The session: a solution, a word list, a bounded run of guesses, and the
//! state machine that accepts or rejects each submitted guess.
//!
//! A rejected guess (wrong length, or not a word when words are required)
//! changes nothing and costs no turn. An accepted guess is evaluated, its
//! clue line and the shrunken letter pool are recorded, and the session
//! moves on: won when every position matched exactly, exhausted when the
//! last allowed guess missed, otherwise awaiting the next guess.

use vstd::prelude::*;

use crate::externals;
use crate::game_state;
use crate::game_state::GameState;
use crate::letter_pool;
use crate::matching;

verus! {

/// Where the session stands; `Won` and `Exhausted` are terminal.
#[derive(Clone, Copy, PartialEq, Eq, Structural, Debug)]
pub enum SessionStatus {
    AwaitingGuess,
    Won,
    Exhausted,
}

/// What one submitted guess came to: rejected without spending a turn
/// (`InvalidLength`, `NotInWordList`), or accepted and evaluated, with the
/// session's resulting standing.
#[derive(Clone, Copy, PartialEq, Eq, Structural, Debug)]
pub enum GuessOutcome {
    InvalidLength,
    NotInWordList,
    Continue,
    Won,
    Exhausted,
}

/// Whether the word stands in the list.
fn word_list_contains(words: &Vec<String>, w: &String) -> (r: bool)
    ensures
        r == words@.map_values(|x: String| x@).contains(w@),
{
    let ghost mapped = words@.map_values(|x: String| x@);
    let mut k: usize = 0;
    while k < words.len()
        invariant
            k <= words@.len(),
            mapped == words@.map_values(|x: String| x@),
            forall|j: int| 0 <= j < k ==> words@[j]@ != w@,
        decreases words@.len() - k,
    {
        if words[k] == *w {
            proof {
                assert(mapped[k as int] == w@);
                assert(mapped.contains(w@));
            }
            return true;
        }
        k += 1;
    }
    proof {
        if mapped.contains(w@) {
            let j = choose|j: int| 0 <= j < mapped.len() && mapped[j] == w@;
            assert(words@[j]@ == w@);
        }
    }
    false
}

pub struct Game {
    pub state: GameState,
    pub word_list: Vec<String>,
    pub status: SessionStatus,
}

impl Game {
    /// The candidate words, as character sequences.
    pub open spec fn words_view(self) -> Seq<Seq<char>> {
        self.word_list@.map_values(|w: String| w@)
    }

    /// What every session operation preserves: a positive configuration, a
    /// history within its bound with one result line per accepted guess, a
    /// word list of words of the session's length, and room for one more
    /// guess whenever one is awaited.
    pub open spec fn inv(self) -> bool {
        &&& self.state.word_length >= 1
        &&& self.state.guesses_max >= 1
        &&& self.state.guesses@.len() <= self.state.guesses_max
        &&& self.state.results@.len() == self.state.guesses@.len()
        &&& (self.status is AwaitingGuess ==> self.state.guesses@.len()
            < self.state.guesses_max)
        &&& forall|i: int|
            0 <= i < self.word_list@.len() ==> (#[trigger] self.word_list@[i])@.len()
                == self.state.word_length
    }

    /// Whether a solution of the session's word length has been chosen.
    pub open spec fn solution_ready(self) -> bool {
        self.state.solution@.len() == self.state.word_length
    }

    /// The canonical form of a submitted guess: upper case, ASCII-wise.
    pub open spec fn normalized(raw: Seq<char>) -> Seq<char> {
        externals::ascii_upper(raw)
    }

    /// Whether the word list vouches for the normalized guess.
    pub open spec fn in_word_list(self, norm: Seq<char>) -> bool {
        self.words_view().contains(externals::ascii_lower(norm))
    }

    /// Whether the session accepts the guess and spends a turn on it.
    pub open spec fn accepts(self, raw: Seq<char>) -> bool {
        &&& Self::normalized(raw).len() == self.state.word_length
        &&& (self.state.guesses_must_be_words ==> self.in_word_list(Self::normalized(raw)))
    }

    /// A session over a fresh state and the candidate words, keeping only the
    /// words of the configured length.
    pub fn new(game_state: GameState, words: Vec<String>) -> (r: Game)
        requires
            game_state.word_length >= 1,
            game_state.guesses_max >= 1,
            game_state.guesses@.len() == 0,
            game_state.results@.len() == 0,
        ensures
            r.inv(),
            r.state == game_state,
            r.status == SessionStatus::AwaitingGuess,
            r.word_list@ == words@.filter(
                |w: String| w@.len() == game_state.word_length as nat,
            ),
    {
        let ghost pred = |w: String| w@.len() == game_state.word_length as nat;
        let mut filtered: Vec<String> = Vec::new();
        let mut k: usize = 0;
        while k < words.len()
            invariant
                k <= words@.len(),
                filtered@ == words@.take(k as int).filter(pred),
                pred == (|w: String| w@.len() == game_state.word_length as nat),
            decreases words@.len() - k,
        {
            proof {
                words@.lemma_take_succ_push(k as int);
                Seq::lemma_filter_push(words@.take(k as int), words@[k as int], pred);
            }
            if words[k].as_str().unicode_len() == game_state.word_length {
                let w = words[k].clone();
                filtered.push(w);
            }
            k += 1;
        }
        proof {
            assert(words@.take(words@.len() as int) =~= words@);
        }
        let r = Game { state: game_state, word_list: filtered, status: SessionStatus::AwaitingGuess };
        proof {
            assert forall|i: int| 0 <= i < r.word_list@.len() implies (
            #[trigger] r.word_list@[i])@.len() == r.state.word_length by {
                words@.lemma_filter_pred(pred, i);
            }
        }
        r
    }

    /// Pick the solution: a word drawn from the list, upper-cased. Which word
    /// comes out is the randomness source's affair; it is always one of the
    /// list's words.
    pub fn create_solution_word(&mut self)
        requires
            old(self).inv(),
            old(self).word_list@.len() >= 1,
        ensures
            final(self).inv(),
            final(self).solution_ready(),
            exists|i: int|
                0 <= i < old(self).words_view().len() && final(self).state.solution@
                    == externals::ascii_upper(old(self).words_view()[i]),
            final(self).word_list == old(self).word_list,
            final(self).status == old(self).status,
            final(self).state.word_length == old(self).state.word_length,
            final(self).state.guesses_max == old(self).state.guesses_max,
            final(self).state.guesses_must_be_words == old(self).state.guesses_must_be_words,
            final(self).state.guesses == old(self).state.guesses,
            final(self).state.results == old(self).state.results,
            final(self).state.letters_available == old(self).state.letters_available,
    {
        let idx = externals::random_index(self.word_list.len());
        let sol = externals::to_ascii_upper(self.word_list[idx].as_str());
        proof {
            assert(self.words_view()[idx as int] == self.word_list@[idx as int]@);
            assert(sol@.len() == self.word_list@[idx as int]@.len());
        }
        self.state.solution = sol;
    }

    /// One turn of the state machine. A guess of the wrong length, or one the
    /// word list does not vouch for when words are required, is rejected: the
    /// session is exactly as it was and no turn is spent. An accepted guess
    /// is normalized, evaluated against the solution, recorded in the history
    /// with its clue line, and charged one turn; it wins the session when
    /// every position matches, exhausts it when the last allowed turn missed,
    /// and otherwise leaves the session awaiting the next guess.
    pub fn submit_guess(&mut self, raw: &str) -> (r: GuessOutcome)
        requires
            old(self).inv(),
            old(self).status == SessionStatus::AwaitingGuess,
            old(self).solution_ready(),
        ensures
            final(self).inv(),
            final(self).state.word_length == old(self).state.word_length,
            final(self).state.guesses_max == old(self).state.guesses_max,
            final(self).state.guesses_must_be_words == old(self).state.guesses_must_be_words,
            final(self).state.solution == old(self).state.solution,
            final(self).word_list == old(self).word_list,
            (r == GuessOutcome::InvalidLength <==> Self::normalized(raw@).len() != old(
                self,
            ).state.word_length),
            (r == GuessOutcome::NotInWordList <==> (Self::normalized(raw@).len() == old(
                self,
            ).state.word_length && old(self).state.guesses_must_be_words && !old(
                self,
            ).in_word_list(Self::normalized(raw@)))),
            !old(self).accepts(raw@) ==> *final(self) == *old(self),
            old(self).accepts(raw@) ==> ({
                let norm = Self::normalized(raw@);
                let sol = old(self).state.solution@;
                &&& final(self).state.guesses@.map_values(|g2: String| g2@) == old(
                    self,
                ).state.guesses@.map_values(|g2: String| g2@).push(norm)
                &&& final(self).state.results@.len() == old(self).state.results@.len() + 1
                &&& final(self).state.results@ == old(self).state.results@.push(
                    final(self).state.results@.last(),
                )
                &&& game_state::line_renders(final(self).state.results@.last()@, sol, norm)
                &&& final(self).state.letters_available@ == letter_pool::pool_update(
                    old(self).state.letters_available@,
                    sol,
                    norm,
                )
                &&& (r == GuessOutcome::Won <==> norm == sol)
                &&& (r == GuessOutcome::Exhausted <==> (norm != sol && old(
                    self,
                ).state.guesses@.len() + 1 == old(self).state.guesses_max))
                &&& (r == GuessOutcome::Continue <==> (norm != sol && old(
                    self,
                ).state.guesses@.len() + 1 < old(self).state.guesses_max))
                &&& final(self).status == (if r == GuessOutcome::Won {
                    SessionStatus::Won
                } else if r == GuessOutcome::Exhausted {
                    SessionStatus::Exhausted
                } else {
                    SessionStatus::AwaitingGuess
                })
            }),
    {
        let ghost sol = self.state.solution@;
        let normalized = externals::to_ascii_upper(raw);
        let ghost norm = normalized@;
        if normalized.as_str().unicode_len() != self.state.word_length {
            return GuessOutcome::InvalidLength;
        }
        if self.state.guesses_must_be_words {
            let lowered = externals::to_ascii_lower(normalized.as_str());
            if !word_list_contains(&self.word_list, &lowered) {
                return GuessOutcome::NotInWordList;
            }
        }
        let (exact, present) = self.state.match_guess_to_solution(normalized.as_str());
        let line = self.state.create_result(normalized.as_str(), &exact, &present);
        self.state.remove_unfound_letters(normalized.as_str());
        let won = exact.len() == self.state.word_length;
        proof {
            matching::lemma_all_exact_iff_won(sol, norm);
            assert(exact@.map_values(|x: usize| x as int).len() == exact@.len());
            assert(game_state::line_renders(line@, sol, norm));
        }
        let ghost guesses_before = self.state.guesses@;
        self.state.add_guess(normalized);
        self.state.add_result(line);
        proof {
            guesses_before.lemma_push_map_commute(|g2: String| g2@, self.state.guesses@.last());
            assert(self.state.guesses@.map_values(|g2: String| g2@) == guesses_before.map_values(
                |g2: String| g2@,
            ).push(norm));
            assert(self.state.results@ == old(self).state.results@.push(
                self.state.results@.last(),
            ));
        }
        if won {
            self.status = SessionStatus::Won;
            return GuessOutcome::Won;
        }
        if self.state.guesses_remaining() == 0 {
            self.status = SessionStatus::Exhausted;
            return GuessOutcome::Exhausted;
        }
        GuessOutcome::Continue
    }
}

} // verus!
