//! What filtering does to a sequence.

use vstd::prelude::*;

verus! {

/// What is left is what was there and passes, as often as it was there.
pub proof fn lemma_filter_keeps<A>(s: Seq<A>, p: spec_fn(A) -> bool)
    ensures
        forall|x: A| #[trigger] s.filter(p).contains(x) <==> s.contains(x) && p(x),
        s.filter(p).len() <= s.len(),
        s.no_duplicates() ==> s.filter(p).no_duplicates(),
    decreases s.len(),
{
    reveal(Seq::filter);
    if s.len() > 0 {
        let rest = s.drop_last();
        let last = s.last();
        lemma_filter_keeps(rest, p);
        assert(s =~= rest.push(last));
        let f = rest.filter(p);
        assert(s.filter(p) == if p(last) {
            f.push(last)
        } else {
            f
        });
        assert forall|x: A| #[trigger] s.filter(p).contains(x) <==> s.contains(x) && p(x) by {
            assert(f.contains(x) <==> rest.contains(x) && p(x));
            if rest.contains(x) {
                let i = choose|i: int| 0 <= i < rest.len() && rest[i] == x;
                assert(s[i] == x);
            }
            if s.contains(x) && x != last {
                let i = choose|i: int| 0 <= i < s.len() && s[i] == x;
                assert(rest[i] == x);
            }
            if s.filter(p).contains(x) && x != last {
                let i = choose|i: int| 0 <= i < s.filter(p).len() && s.filter(p)[i] == x;
                assert(f[i] == x);
            }
            if f.contains(x) {
                let i = choose|i: int| 0 <= i < f.len() && f[i] == x;
                assert(s.filter(p)[i] == x);
            }
            if x == last {
                assert(s[s.len() - 1] == x);
                if p(x) {
                    assert(s.filter(p)[f.len() as int] == x);
                }
            }
        }
        if s.no_duplicates() {
            assert(rest.no_duplicates());
            assert(!rest.contains(last));
            assert(!f.contains(last));
        }
    }
}

/// What is left keeps its order: of two, the earlier one stood before the later
/// one.
pub proof fn lemma_filter_order<A>(s: Seq<A>, p: spec_fn(A) -> bool, i: int, j: int)
    requires
        0 <= i < j < s.filter(p).len(),
    ensures
        exists|a: int, b: int|
            0 <= a < b < s.len() && #[trigger] s[a] == s.filter(p)[i] && #[trigger] s[b] == s.filter(
                p,
            )[j],
    decreases s.len(),
{
    reveal(Seq::filter);
    let rest = s.drop_last();
    let f = rest.filter(p);
    assert(s.filter(p) == if p(s.last()) {
        f.push(s.last())
    } else {
        f
    });
    lemma_filter_keeps(rest, p);
    if j < f.len() {
        lemma_filter_order(rest, p, i, j);
        let (a, b) = choose|a: int, b: int|
            0 <= a < b < rest.len() && #[trigger] rest[a] == f[i] && #[trigger] rest[b] == f[j];
        assert(s[a] == s.filter(p)[i] && s[b] == s.filter(p)[j]);
    } else {
        assert(f.contains(f[i]));
        let a = choose|a: int| 0 <= a < rest.len() && rest[a] == f[i];
        assert(s[a] == s.filter(p)[i] && s[s.len() - 1] == s.filter(p)[j]);
    }
}

/// What is left and what is left out make up the whole.
pub proof fn lemma_filter_split<A>(s: Seq<A>, p: spec_fn(A) -> bool)
    ensures
        s.filter(p).len() + s.filter(|x: A| !p(x)).len() == s.len(),
    decreases s.len(),
{
    reveal(Seq::filter);
    if s.len() > 0 {
        lemma_filter_split(s.drop_last(), p);
    }
}

} // verus!
