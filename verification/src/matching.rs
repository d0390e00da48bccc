//! The match engine: a pure two-pass classification of a guess against a
//! solution of the same length.
//!
//! Pass one walks the word and marks every position whose guess letter equals
//! the solution letter ("exact"); each exact match consumes one occurrence of
//! its letter from a pool that starts as the solution's letters. Pass two
//! walks the word again and marks every position that is not exact but whose
//! guess letter is still in the pool ("present"), consuming one occurrence
//! per mark. The pool is what makes duplicate letters come out right: a
//! letter is highlighted at most as many times as the solution holds it.

use vstd::prelude::*;

verus! {

/// Indices below `n` whose guess letter equals the solution letter, in
/// increasing order.
pub open spec fn exact_prefix(s: Seq<char>, g: Seq<char>, n: int) -> Seq<int>
    decreases n,
{
    if n <= 0 {
        Seq::empty()
    } else if s[n - 1] == g[n - 1] {
        exact_prefix(s, g, n - 1).push(n - 1)
    } else {
        exact_prefix(s, g, n - 1)
    }
}

/// The exact-match positions of a guess, in increasing order.
pub open spec fn exact_indices(s: Seq<char>, g: Seq<char>) -> Seq<int> {
    exact_prefix(s, g, s.len() as int)
}

/// The solution letters still unclaimed after the exact matches below `n`
/// each consumed one occurrence of their letter.
pub open spec fn pool_after_exact(s: Seq<char>, g: Seq<char>, n: int) -> Seq<char>
    decreases n,
{
    if n <= 0 {
        s
    } else if s[n - 1] == g[n - 1] {
        pool_after_exact(s, g, n - 1).remove_value(s[n - 1])
    } else {
        pool_after_exact(s, g, n - 1)
    }
}

/// The letter pool that the present-match pass starts from.
pub open spec fn match_pool(s: Seq<char>, g: Seq<char>) -> Seq<char> {
    pool_after_exact(s, g, s.len() as int)
}

/// The present-match positions from index `i` on, given the letters still in
/// the pool: a position counts when it is not an exact match and the pool
/// still holds its guess letter, and each hit consumes one occurrence.
pub open spec fn present_from(s: Seq<char>, g: Seq<char>, pool: Seq<char>, i: int) -> Seq<int>
    decreases g.len() - i,
{
    if i < 0 || i >= g.len() {
        Seq::empty()
    } else if s[i] != g[i] && pool.contains(g[i]) {
        seq![i] + present_from(s, g, pool.remove_value(g[i]), i + 1)
    } else {
        present_from(s, g, pool, i + 1)
    }
}

/// The present-match positions of a guess, in increasing order.
pub open spec fn present_indices(s: Seq<char>, g: Seq<char>) -> Seq<int> {
    present_from(s, g, match_pool(s, g), 0)
}

/// The first index holding `c`, so that removing at it is exactly
/// `Seq::remove_value`.
pub(crate) fn find_char(v: &Vec<char>, c: char) -> (r: Option<usize>)
    ensures
        match r {
            Some(j) => j < v@.len() && v@.index_of_first(c) == Some(j as int),
            None => v@.index_of_first(c) is None,
        },
{
    let mut k: usize = 0;
    while k < v.len()
        invariant
            k <= v@.len(),
            forall|j: int| 0 <= j < k ==> v@[j] != c,
        decreases v@.len() - k,
    {
        if v[k] == c {
            proof {
                v@.index_of_first_ensures(c);
                assert(v@.contains(c));
                let idx = v@.index_of_first(c)->Some_0;
                assert(!(idx < k) && !(k < idx));
            }
            return Some(k);
        }
        k += 1;
    }
    proof {
        v@.index_of_first_ensures(c);
        assert(forall|j: int| 0 <= j < v@.len() ==> v@[j] != c);
    }
    None
}

/// Classify a guess against a solution of the same length: the exact-match
/// positions and the present-match positions, each in increasing order.
pub fn evaluate(solution: &str, guess: &str) -> (r: (Vec<usize>, Vec<usize>))
    requires
        solution@.len() == guess@.len(),
    ensures
        r.0@.map_values(|x: usize| x as int) == exact_indices(solution@, guess@),
        r.1@.map_values(|x: usize| x as int) == present_indices(solution@, guess@),
{
    let n = guess.unicode_len();
    let ghost s = solution@;
    let ghost g = guess@;

    let mut remaining: Vec<char> = Vec::new();
    let mut k: usize = 0;
    while k < n
        invariant
            k <= n,
            n == s.len() == g.len(),
            s == solution@,
            remaining@ == s.subrange(0, k as int),
        decreases n - k,
    {
        remaining.push(solution.get_char(k));
        proof {
            assert(remaining@ =~= s.subrange(0, k + 1 as int));
        }
        k += 1;
    }
    proof {
        assert(remaining@ =~= s);
    }

    let mut exact: Vec<usize> = Vec::new();
    let mut i: usize = 0;
    while i < n
        invariant
            i <= n,
            n == s.len() == g.len(),
            s == solution@ && g == guess@,
            exact@.map_values(|x: usize| x as int) == exact_prefix(s, g, i as int),
            remaining@ == pool_after_exact(s, g, i as int),
        decreases n - i,
    {
        let sc = solution.get_char(i);
        let gc = guess.get_char(i);
        if sc == gc {
            let ghost before = exact@;
            exact.push(i);
            proof {
                before.lemma_push_map_commute(|x: usize| x as int, i);
                assert(exact@.map_values(|x: usize| x as int) == exact_prefix(
                    s,
                    g,
                    i + 1 as int,
                ));
            }
            match find_char(&remaining, sc) {
                Some(j) => {
                    remaining.remove(j);
                },
                None => {
                    proof {
                        assert(pool_after_exact(s, g, i as int).remove_value(sc)
                            == pool_after_exact(s, g, i as int));
                    }
                },
            }
        }
        i += 1;
    }

    let mut present: Vec<usize> = Vec::new();
    let mut i2: usize = 0;
    while i2 < n
        invariant
            i2 <= n,
            n == s.len() == g.len(),
            s == solution@ && g == guess@,
            present@.map_values(|x: usize| x as int) + present_from(s, g, remaining@, i2 as int)
                == present_indices(s, g),
        decreases n - i2,
    {
        let sc = solution.get_char(i2);
        let gc = guess.get_char(i2);
        if sc != gc {
            match find_char(&remaining, gc) {
                Some(j) => {
                    let ghost before = present@;
                    let ghost pool = remaining@;
                    proof {
                        assert(pool.contains(gc)) by {
                            pool.index_of_first_ensures(gc);
                        }
                        assert(present_from(s, g, pool, i2 as int) == seq![i2 as int]
                            + present_from(s, g, pool.remove_value(gc), i2 + 1 as int));
                    }
                    present.push(i2);
                    remaining.remove(j);
                    proof {
                        before.lemma_push_map_commute(|x: usize| x as int, i2);
                        assert(present@.map_values(|x: usize| x as int) + present_from(
                            s,
                            g,
                            remaining@,
                            i2 + 1 as int,
                        ) =~= before.map_values(|x: usize| x as int) + present_from(
                            s,
                            g,
                            pool,
                            i2 as int,
                        ));
                    }
                },
                None => {
                    proof {
                        remaining@.index_of_first_ensures(gc);
                        assert(!remaining@.contains(gc));
                    }
                },
            }
        }
        i2 += 1;
    }
    proof {
        assert(present@.map_values(|x: usize| x as int) + present_from(s, g, remaining@, n as int)
            =~= present@.map_values(|x: usize| x as int));
    }
    (exact, present)
}

/// A position is an exact match exactly when its two letters agree.
pub proof fn lemma_exact_prefix_membership(s: Seq<char>, g: Seq<char>, n: int, j: int)
    ensures
        exact_prefix(s, g, n).contains(j) <==> (0 <= j < n && s[j] == g[j]),
    decreases n,
{
    if n > 0 {
        lemma_exact_prefix_membership(s, g, n - 1, j);
        let prev = exact_prefix(s, g, n - 1);
        if s[n - 1] == g[n - 1] {
            assert(exact_prefix(s, g, n) == prev.push(n - 1));
            vstd::seq_lib::lemma_seq_contains_after_push(prev, n - 1, j);
        } else {
            assert(exact_prefix(s, g, n) == prev);
        }
    }
}

/// Every present match lies in `[i, len)` at a position that is not exact.
pub proof fn lemma_present_from_membership(
    s: Seq<char>,
    g: Seq<char>,
    pool: Seq<char>,
    i: int,
    j: int,
)
    ensures
        present_from(s, g, pool, i).contains(j) ==> (i <= j < g.len() && s[j] != g[j]),
    decreases g.len() - i,
{
    if 0 <= i < g.len() {
        if s[i] != g[i] && pool.contains(g[i]) {
            lemma_present_from_membership(s, g, pool.remove_value(g[i]), i + 1, j);
            vstd::seq_lib::lemma_seq_concat_contains_all_elements(
                seq![i],
                present_from(s, g, pool.remove_value(g[i]), i + 1),
                j,
            );
            if seq![i].contains(j) {
                assert(seq![i][0] == i);
            }
        } else {
            lemma_present_from_membership(s, g, pool, i + 1, j);
        }
    }
}

/// The number of positions at or after `i` whose letters agree.
pub open spec fn exact_count_from(s: Seq<char>, g: Seq<char>, i: int) -> int
    decreases g.len() - i,
{
    if i < 0 || i >= g.len() {
        0
    } else if s[i] == g[i] {
        1 + exact_count_from(s, g, i + 1)
    } else {
        exact_count_from(s, g, i + 1)
    }
}

proof fn lemma_present_from_len(s: Seq<char>, g: Seq<char>, pool: Seq<char>, i: int)
    requires
        0 <= i <= g.len(),
    ensures
        present_from(s, g, pool, i).len() + exact_count_from(s, g, i) <= g.len() - i,
    decreases g.len() - i,
{
    if i < g.len() {
        if s[i] != g[i] && pool.contains(g[i]) {
            lemma_present_from_len(s, g, pool.remove_value(g[i]), i + 1);
        } else {
            lemma_present_from_len(s, g, pool, i + 1);
        }
    }
}

proof fn lemma_exact_prefix_counts(s: Seq<char>, g: Seq<char>, i: int)
    requires
        s.len() == g.len(),
        0 <= i <= g.len(),
    ensures
        exact_indices(s, g).len() == exact_prefix(s, g, i).len() + exact_count_from(s, g, i),
    decreases g.len() - i,
{
    if i < g.len() {
        lemma_exact_prefix_counts(s, g, i + 1);
    }
}

/// The classification is sound: exact and present matches are disjoint sets
/// of in-range positions, and together they never outnumber the word's
/// letters.
pub proof fn lemma_classification_sound(s: Seq<char>, g: Seq<char>)
    requires
        s.len() == g.len(),
    ensures
        forall|j: int|
            !(exact_indices(s, g).contains(j) && present_indices(s, g).contains(j)),
        forall|j: int|
            #![trigger exact_indices(s, g).contains(j)]
            exact_indices(s, g).contains(j) <==> (0 <= j < g.len() && s[j] == g[j]),
        forall|j: int|
            #![trigger present_indices(s, g).contains(j)]
            present_indices(s, g).contains(j) ==> (0 <= j < g.len() && s[j] != g[j]),
        exact_indices(s, g).len() + present_indices(s, g).len() <= g.len(),
{
    assert forall|j: int|
        !(exact_indices(s, g).contains(j) && present_indices(s, g).contains(j)) by {
        lemma_exact_prefix_membership(s, g, s.len() as int, j);
        lemma_present_from_membership(s, g, match_pool(s, g), 0, j);
    }
    assert forall|j: int|
        #![trigger exact_indices(s, g).contains(j)]
        exact_indices(s, g).contains(j) <==> (0 <= j < g.len() && s[j] == g[j]) by {
        lemma_exact_prefix_membership(s, g, s.len() as int, j);
    }
    assert forall|j: int|
        #![trigger present_indices(s, g).contains(j)]
        present_indices(s, g).contains(j) ==> (0 <= j < g.len() && s[j] != g[j]) by {
        lemma_present_from_membership(s, g, match_pool(s, g), 0, j);
    }
    lemma_present_from_len(s, g, match_pool(s, g), 0);
    lemma_exact_prefix_counts(s, g, 0);
}

proof fn lemma_exact_prefix_all(s: Seq<char>, n: int)
    requires
        n <= s.len(),
    ensures
        exact_prefix(s, s, n) =~= Seq::new(if n < 0 { 0nat } else { n as nat }, |i: int| i),
    decreases n,
{
    if n > 0 {
        lemma_exact_prefix_all(s, n - 1);
    }
}

proof fn lemma_present_from_self(s: Seq<char>, pool: Seq<char>, i: int)
    ensures
        present_from(s, s, pool, i) =~= Seq::empty(),
    decreases s.len() - i,
{
    if 0 <= i < s.len() {
        lemma_present_from_self(s, pool, i + 1);
    }
}

/// Guessing the solution itself marks every position exact and none present.
pub proof fn lemma_guess_equals_solution(s: Seq<char>, g: Seq<char>)
    requires
        g == s,
    ensures
        exact_indices(s, g) =~= Seq::new(s.len(), |i: int| i),
        present_indices(s, g) =~= Seq::<int>::empty(),
{
    lemma_exact_prefix_all(s, s.len() as int);
    lemma_present_from_self(s, match_pool(s, s), 0);
}

proof fn lemma_exact_prefix_len(s: Seq<char>, g: Seq<char>, n: int)
    requires
        0 <= n,
    ensures
        exact_prefix(s, g, n).len() <= n,
        exact_prefix(s, g, n).len() == n ==> forall|j: int| 0 <= j < n ==> s[j] == g[j],
    decreases n,
{
    if n > 0 {
        lemma_exact_prefix_len(s, g, n - 1);
    }
}

/// The exact matches cover the whole word precisely when the guess is the
/// solution.
pub proof fn lemma_all_exact_iff_won(s: Seq<char>, g: Seq<char>)
    requires
        s.len() == g.len(),
    ensures
        exact_indices(s, g).len() == g.len() <==> g == s,
{
    lemma_exact_prefix_len(s, g, s.len() as int);
    if exact_indices(s, g).len() == g.len() {
        assert(g =~= s);
    }
    if g == s {
        lemma_exact_prefix_all(s, s.len() as int);
    }
}

/// Evaluation is a function of the solution and the guess alone: any two
/// classifications of the same pair agree.
pub proof fn lemma_evaluation_deterministic(
    s: Seq<char>,
    g: Seq<char>,
    e1: Seq<usize>,
    p1: Seq<usize>,
    e2: Seq<usize>,
    p2: Seq<usize>,
)
    requires
        e1.map_values(|x: usize| x as int) == exact_indices(s, g),
        p1.map_values(|x: usize| x as int) == present_indices(s, g),
        e2.map_values(|x: usize| x as int) == exact_indices(s, g),
        p2.map_values(|x: usize| x as int) == present_indices(s, g),
    ensures
        e1 == e2,
        p1 == p2,
{
    assert(e1.len() == e1.map_values(|x: usize| x as int).len());
    assert(e2.len() == e2.map_values(|x: usize| x as int).len());
    assert(p1.len() == p1.map_values(|x: usize| x as int).len());
    assert(p2.len() == p2.map_values(|x: usize| x as int).len());
    assert forall|i: int| 0 <= i < e1.len() implies e1[i] == e2[i] by {
        assert(e1.map_values(|x: usize| x as int)[i] == e1[i] as int);
        assert(e2.map_values(|x: usize| x as int)[i] == e2[i] as int);
    }
    assert forall|i: int| 0 <= i < p1.len() implies p1[i] == p2[i] by {
        assert(p1.map_values(|x: usize| x as int)[i] == p1[i] as int);
        assert(p2.map_values(|x: usize| x as int)[i] == p2[i] as int);
    }
    assert(e1 =~= e2);
    assert(p1 =~= p2);
}

} // verus!

