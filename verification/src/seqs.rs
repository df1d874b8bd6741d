//! General facts about sequences.

use vstd::prelude::*;

verus! {

/// Filtering keeps elements in their original relative order.
pub proof fn lemma_filter_subsequence<A>(s: Seq<A>, pred: spec_fn(A) -> bool)
    ensures
        forall|a: int| 0 <= a < s.filter(pred).len() ==>
            exists|x: int| 0 <= x < s.len() && s[x] == #[trigger] s.filter(pred)[a],
        forall|a: int, b: int| 0 <= a < b < s.filter(pred).len() ==>
            exists|x: int, y: int| 0 <= x < y < s.len() && s[x] == #[trigger] s.filter(pred)[a] && s[y] == #[trigger] s.filter(pred)[b],
    decreases s.len(),
{
    reveal_with_fuel(Seq::<_>::filter, 1);
    if s.len() > 0 {
        let t = s.drop_last();
        lemma_filter_subsequence(t, pred);
        let ft = t.filter(pred);
        let fs = s.filter(pred);
        if pred(s.last()) {
            assert(fs =~= ft.push(s.last()));
        } else {
            assert(fs =~= ft);
        }
        assert forall|a: int| 0 <= a < fs.len() implies
            exists|x: int| 0 <= x < s.len() && s[x] == #[trigger] fs[a] by {
            if a < ft.len() {
                assert(fs[a] == ft[a]);
                let x = choose|x: int| 0 <= x < t.len() && t[x] == ft[a];
                assert(s[x] == t[x]);
            } else {
                assert(s[s.len() - 1] == fs[a]);
            }
        }
        assert forall|a: int, b: int| 0 <= a < b < fs.len() implies
            exists|x: int, y: int| 0 <= x < y < s.len() && s[x] == #[trigger] fs[a] && s[y] == #[trigger] fs[b] by {
            if b < ft.len() {
                assert(fs[a] == ft[a] && fs[b] == ft[b]);
                let (x, y) = choose|x: int, y: int| 0 <= x < y < t.len() && t[x] == ft[a] && t[y] == ft[b];
                assert(s[x] == t[x] && s[y] == t[y]);
            } else {
                assert(fs[a] == ft[a]);
                let x = choose|x: int| 0 <= x < t.len() && t[x] == ft[a];
                assert(s[x] == t[x]);
                assert(s[s.len() - 1] == fs[b]);
            }
        }
    }
}


/// Filtering out an element that fails the predicate makes the sequence strictly shorter.
pub proof fn lemma_filter_drops<A>(s: Seq<A>, pred: spec_fn(A) -> bool, i: int)
    requires
        0 <= i < s.len(),
        !pred(s[i]),
    ensures
        s.filter(pred).len() < s.len(),
    decreases s.len(),
{
    reveal_with_fuel(Seq::<_>::filter, 1);
    let t = s.drop_last();
    t.lemma_filter_len(pred);
    if i < s.len() - 1 {
        assert(t[i] == s[i]);
        lemma_filter_drops(t, pred, i);
    }
}

} // verus!
