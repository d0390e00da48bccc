//! The state a session carries: its fixed configuration, the solution, the
//! accepted guesses with their rendered results, and the letter pool.

use vstd::prelude::*;

use crate::letter_pool;
use crate::matching;

verus! {

/// Whether the character occurs anywhere in the string.
pub(crate) fn str_contains_char(s: &str, c: char) -> (r: bool)
    ensures
        r == s@.contains(c),
{
    let n = s.unicode_len();
    let mut k: usize = 0;
    while k < n
        invariant
            k <= n,
            n == s@.len(),
            forall|j: int| 0 <= j < k ==> s@[j] != c,
        decreases n - k,
    {
        if s.get_char(k) == c {
            return true;
        }
        k += 1;
    }
    proof {
        assert(forall|j: int| 0 <= j < s@.len() ==> s@[j] != c);
    }
    false
}

/// The 256-color palette entry used for present-but-misplaced letters.
pub const ORANGE: u8 = 214;

/// Whether the slice of the result line that stands for one letter shows it
/// faithfully: an emphasised letter (an exact or present match) stands
/// somewhere inside its styled piece; an absent letter stands alone, plain.
pub open spec fn piece_shows(piece: Seq<char>, letter: char, emphasised: bool) -> bool {
    if emphasised {
        exists|pre: Seq<char>, post: Seq<char>| piece == pre + seq![letter] + post
    } else {
        piece == seq![letter]
    }
}

/// Whether `line` renders the first `n` guess letters in order: one piece per
/// position, each followed by the separating blank, exact and present
/// positions emphasised and the rest plain.
pub open spec fn renders_upto(
    line: Seq<char>,
    g: Seq<char>,
    exact: Seq<usize>,
    present: Seq<usize>,
    n: int,
) -> bool
    decreases n,
{
    if n <= 0 {
        line == Seq::<char>::empty()
    } else {
        exists|front: Seq<char>, piece: Seq<char>|
            {
                &&& line == front + piece + seq![' ']
                &&& piece_shows(
                    piece,
                    g[n - 1],
                    exact.contains((n - 1) as usize) || present.contains((n - 1) as usize),
                )
                &&& renders_upto(front, g, exact, present, n - 1)
            }
    }
}

/// Whether `line` is a faithful clue line for the guess against the
/// solution: it renders every guess letter in order, with exactly the
/// two-pass classification's exact and present positions emphasised.
pub open spec fn line_renders(line: Seq<char>, sol: Seq<char>, g: Seq<char>) -> bool {
    exists|e: Seq<usize>, p: Seq<usize>|
        {
            &&& e.map_values(|x: usize| x as int) == crate::matching::exact_indices(sol, g)
            &&& p.map_values(|x: usize| x as int) == crate::matching::present_indices(sol, g)
            &&& renders_upto(line, g, e, p, g.len() as int)
        }
}

/// Whether the position is listed among the match indices.
pub(crate) fn contains_index(v: &Vec<usize>, x: usize) -> (r: bool)
    ensures
        r == v@.contains(x),
{
    let mut k: usize = 0;
    while k < v.len()
        invariant
            k <= v@.len(),
            forall|j: int| 0 <= j < k ==> v@[j] != x,
        decreases v@.len() - k,
    {
        if v[k] == x {
            return true;
        }
        k += 1;
    }
    false
}

pub struct GameState {
    pub word_length: usize,
    pub guesses_max: usize,
    pub guesses_must_be_words: bool,
    pub guesses: Vec<String>,
    pub solution: String,
    pub letters_available: Vec<char>,
    pub results: Vec<String>,
}

impl GameState {
    /// The state a session starts from: no guesses, no results, the whole
    /// alphabet still available, and no solution chosen yet.
    pub fn new(word_length: usize, guesses_max: usize, guesses_must_be_words: bool) -> (r: Self)
        requires
            word_length >= 1,
            guesses_max >= 1,
        ensures
            r.word_length == word_length,
            r.guesses_max == guesses_max,
            r.guesses_must_be_words == guesses_must_be_words,
            r.guesses@ =~= Seq::<String>::empty(),
            r.results@ =~= Seq::<String>::empty(),
            r.solution@ =~= Seq::<char>::empty(),
            r.letters_available@ == letter_pool::alphabet(),
    {
        let letters: Vec<char> = vec![
            'A', 'B', 'C', 'D', 'E', 'F', 'G', 'H', 'I', 'J', 'K', 'L', 'M', 'N', 'O', 'P', 'Q',
            'R', 'S', 'T', 'U', 'V', 'W', 'X', 'Y', 'Z',
        ];
        proof {
            assert(letters@ =~= letter_pool::alphabet());
        }
        Self {
            word_length,
            guesses_max,
            guesses_must_be_words,
            guesses: Vec::new(),
            solution: String::new(),
            letters_available: letters,
            results: Vec::new(),
        }
    }

    /// How many guesses have been accepted.
    pub fn guess_count(&self) -> (r: usize)
        ensures
            r == self.guesses@.len(),
    {
        self.guesses.len()
    }

    /// How many accepted guesses are still allowed.
    pub fn guesses_remaining(&self) -> (r: usize)
        requires
            self.guesses@.len() <= self.guesses_max,
        ensures
            r == self.guesses_max - self.guesses@.len(),
    {
        self.guesses_max - self.guesses.len()
    }

    /// Append an accepted guess to the history; the bound keeps the history
    /// within the configured number of turns.
    pub fn add_guess(&mut self, guess: String)
        requires
            old(self).guesses@.len() < old(self).guesses_max,
        ensures
            final(self).guesses@ == old(self).guesses@.push(guess),
            final(self).word_length == old(self).word_length,
            final(self).guesses_max == old(self).guesses_max,
            final(self).guesses_must_be_words == old(self).guesses_must_be_words,
            final(self).solution == old(self).solution,
            final(self).letters_available == old(self).letters_available,
            final(self).results == old(self).results,
    {
        self.guesses.push(guess);
    }

    /// Append a rendered result line to the history.
    pub fn add_result(&mut self, result: String)
        ensures
            final(self).results@ == old(self).results@.push(result),
            final(self).word_length == old(self).word_length,
            final(self).guesses_max == old(self).guesses_max,
            final(self).guesses_must_be_words == old(self).guesses_must_be_words,
            final(self).solution == old(self).solution,
            final(self).letters_available == old(self).letters_available,
            final(self).guesses == old(self).guesses,
    {
        self.results.push(result);
    }

    /// Classify a guess of the session's word length against the solution:
    /// the exact-match positions and the present-match positions, in
    /// increasing order.
    pub fn match_guess_to_solution(&self, guess: &str) -> (r: (Vec<usize>, Vec<usize>))
        requires
            self.solution@.len() == self.word_length,
            guess@.len() == self.word_length,
        ensures
            r.0@.map_values(|x: usize| x as int) == matching::exact_indices(
                self.solution@,
                guess@,
            ),
            r.1@.map_values(|x: usize| x as int) == matching::present_indices(
                self.solution@,
                guess@,
            ),
    {
        matching::evaluate(self.solution.as_str(), guess)
    }

    /// The human-facing clue line for one evaluated guess: each letter in
    /// order followed by a blank, exact matches emphasised one way, present
    /// matches another, the rest left plain.
    pub fn create_result(
        &self,
        guess: &str,
        exact_indices: &Vec<usize>,
        present_indices: &Vec<usize>,
    ) -> (r: String)
        requires
            guess@.len() == self.word_length,
        ensures
            renders_upto(
                r@,
                guess@,
                exact_indices@,
                present_indices@,
                self.word_length as int,
            ),
    {
        let ghost g = guess@;
        let mut result = String::new();
        let mut i: usize = 0;
        while i < self.word_length
            invariant
                i <= self.word_length,
                g == guess@,
                g.len() == self.word_length,
                renders_upto(result@, g, exact_indices@, present_indices@, i as int),
            decreases self.word_length - i,
        {
            let slice = guess.substring_char(i, i + 1);
            proof {
                assert(slice@ =~= seq![g[i as int]]);
            }
            let ghost front = result@;
            let piece: String;
            if contains_index(exact_indices, i) {
                piece = crate::externals::style_exact(slice);
            } else if contains_index(present_indices, i) {
                piece = crate::externals::style_present(slice, ORANGE);
            } else {
                piece = slice.to_owned();
                proof {
                    assert(piece@ == seq![g[i as int]]);
                }
            }
            result.append(piece.as_str());
            result.append(" ");
            proof {
                reveal_strlit(" ");
                assert(" "@ =~= seq![' ']);
                assert(result@ == front + piece@ + seq![' ']);
                assert(piece_shows(
                    piece@,
                    g[i as int],
                    exact_indices@.contains(i) || present_indices@.contains(i),
                ));
                assert(renders_upto(result@, g, exact_indices@, present_indices@, i + 1 as int));
            }
            i += 1;
        }
        result
    }

    /// Shrink the letter pool after an evaluated guess: every guessed letter
    /// that occurs nowhere in the solution leaves the pool; letters of the
    /// solution stay whatever the guess was.
    pub fn remove_unfound_letters(&mut self, guess: &str)
        ensures
            final(self).letters_available@ == letter_pool::pool_update(
                old(self).letters_available@,
                old(self).solution@,
                guess@,
            ),
            final(self).word_length == old(self).word_length,
            final(self).guesses_max == old(self).guesses_max,
            final(self).guesses_must_be_words == old(self).guesses_must_be_words,
            final(self).solution == old(self).solution,
            final(self).guesses == old(self).guesses,
            final(self).results == old(self).results,
    {
        let ghost pool = self.letters_available@;
        let ghost sol = self.solution@;
        let ghost gs = guess@;
        let mut kept: Vec<char> = Vec::new();
        let mut k: usize = 0;
        while k < self.letters_available.len()
            invariant
                k <= self.letters_available@.len(),
                pool == self.letters_available@,
                sol == self.solution@,
                gs == guess@,
                kept@ == pool.take(k as int).filter(
                    |c: char| letter_pool::keeps_letter(sol, gs, c),
                ),
            decreases self.letters_available@.len() - k,
        {
            let c = self.letters_available[k];
            let keep = str_contains_char(self.solution.as_str(), c) || !str_contains_char(
                guess,
                c,
            );
            proof {
                pool.lemma_take_succ_push(k as int);
                Seq::lemma_filter_push(
                    pool.take(k as int),
                    pool[k as int],
                    |c: char| letter_pool::keeps_letter(sol, gs, c),
                );
            }
            if keep {
                kept.push(c);
            }
            k += 1;
        }
        proof {
            assert(pool.take(pool.len() as int) =~= pool);
        }
        self.letters_available = kept;
    }
}

} // verus!
