//! The letter pool: the alphabet letters not yet proven absent from the
//! solution. After each evaluated guess, every guessed letter that occurs
//! nowhere in the solution leaves the pool; letters of the solution never
//! leave, even when their guessed occurrence earned no mark.

use vstd::prelude::*;

verus! {

/// The twenty-six upper-case letters, each once.
pub open spec fn alphabet() -> Seq<char> {
    seq![
        'A', 'B', 'C', 'D', 'E', 'F', 'G', 'H', 'I', 'J', 'K', 'L', 'M', 'N', 'O', 'P', 'Q', 'R',
        'S', 'T', 'U', 'V', 'W', 'X', 'Y', 'Z',
    ]
}

/// Whether a pool letter survives a guess: a letter of the solution always
/// stays, and a letter the guess never tried stays too.
pub open spec fn keeps_letter(sol: Seq<char>, g: Seq<char>, c: char) -> bool {
    sol.contains(c) || !g.contains(c)
}

/// The letter pool after one evaluated guess: only the letters the guess
/// proved absent from the solution are taken out.
pub open spec fn pool_update(pool: Seq<char>, sol: Seq<char>, g: Seq<char>) -> Seq<char> {
    pool.filter(|c: char| keeps_letter(sol, g, c))
}

/// A letter is in the updated pool exactly when it was in the pool before
/// and the guess did not prove it absent.
pub proof fn lemma_pool_update_membership(pool: Seq<char>, sol: Seq<char>, g: Seq<char>, c: char)
    ensures
        pool_update(pool, sol, g).contains(c) <==> (pool.contains(c) && keeps_letter(sol, g, c)),
{
    let pred = |x: char| keeps_letter(sol, g, x);
    if pool.contains(c) && pred(c) {
        let i = choose|i: int| 0 <= i < pool.len() && pool[i] == c;
        pool.lemma_filter_contains(pred, i);
    }
    if pool_update(pool, sol, g).contains(c) {
        let i = choose|i: int| 0 <= i < pool.filter(pred).len() && pool.filter(pred)[i] == c;
        pool.lemma_filter_pred(pred, i);
        pool.lemma_filter_contains_rev(pred, c);
    }
}

proof fn lemma_filter_idempotent<A>(s: Seq<A>, pred: spec_fn(A) -> bool)
    ensures
        s.filter(pred).filter(pred) == s.filter(pred),
    decreases s.len(),
{
    reveal(Seq::filter);
    if s.len() == 0 {
    } else {
        let d = s.drop_last();
        lemma_filter_idempotent(d, pred);
        assert(d.push(s.last()) =~= s);
        Seq::lemma_filter_push(d, s.last(), pred);
        if pred(s.last()) {
            Seq::lemma_filter_push(d.filter(pred), s.last(), pred);
        }
    }
}

/// Whether every letter stands in the pool at most once, as it does in the
/// alphabet the pool starts from.
pub open spec fn distinct(pool: Seq<char>) -> bool {
    forall|i: int, j: int| 0 <= i < j < pool.len() ==> pool[i] != pool[j]
}

/// The alphabet holds each letter once.
pub proof fn lemma_alphabet_distinct()
    ensures
        distinct(alphabet()),
{
    assert forall|i: int, j: int| 0 <= i < j < alphabet().len() implies alphabet()[i]
        != alphabet()[j] by {
        assert(alphabet()[i] as u32 == 'A' as u32 + i) by {
            assert(0 <= i < 26);
        }
        assert(alphabet()[j] as u32 == 'A' as u32 + j) by {
            assert(0 < j < 26);
        }
    }
}

/// A pool of distinct letters stays distinct, so removing a letter is
/// removing its single occurrence.
pub proof fn lemma_pool_update_keeps_distinct(pool: Seq<char>, sol: Seq<char>, g: Seq<char>)
    requires
        distinct(pool),
    ensures
        distinct(pool_update(pool, sol, g)),
{
    lemma_filter_distinct(pool, |c: char| keeps_letter(sol, g, c));
}

proof fn lemma_filter_distinct<A>(s: Seq<A>, pred: spec_fn(A) -> bool)
    requires
        forall|i: int, j: int| 0 <= i < j < s.len() ==> s[i] != s[j],
    ensures
        forall|i: int, j: int|
            0 <= i < j < s.filter(pred).len() ==> s.filter(pred)[i] != s.filter(pred)[j],
    decreases s.len(),
{
    reveal(Seq::filter);
    if s.len() > 0 {
        let d = s.drop_last();
        let l = s.last();
        lemma_filter_distinct(d, pred);
        assert(d.push(l) =~= s);
        Seq::lemma_filter_push(d, l, pred);
        if pred(l) {
            assert(!d.filter(pred).contains(l)) by {
                if d.filter(pred).contains(l) {
                    d.lemma_filter_contains_rev(pred, l);
                    let i = choose|i: int| 0 <= i < d.len() && d[i] == l;
                    assert(s[i] == s[s.len() - 1]);
                }
            }
            let f = d.filter(pred);
            assert forall|i: int, j: int|
                0 <= i < j < f.push(l).len() implies f.push(l)[i] != f.push(l)[j] by {
                if j < f.len() {
                } else {
                    assert(f.push(l)[j] == l);
                    assert(f.contains(f[i]));
                }
            }
        }
    }
}

/// Updating the pool twice for the same guess changes nothing the second
/// time: removal is idempotent, and an already-removed letter is simply
/// skipped.
pub proof fn lemma_pool_update_idempotent(pool: Seq<char>, sol: Seq<char>, g: Seq<char>)
    ensures
        pool_update(pool_update(pool, sol, g), sol, g) == pool_update(pool, sol, g),
{
    lemma_filter_idempotent(pool, |c: char| keeps_letter(sol, g, c));
}

} // verus!
