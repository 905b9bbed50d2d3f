//! Removing entries from the game's lists: swap-removal by positions, and
//! order-keeping removal by a keep mask.
use vstd::prelude::*;
use vstd::multiset::Multiset;

verus! {

/// One `swap_remove` at position `j`: the last entry takes the place of
/// entry `j`, and the list loses its last slot.
pub open spec fn swap_remove_seq<T>(s: Seq<T>, j: int) -> Seq<T> {
    s.update(j, s.last()).drop_last()
}

/// The list after swap-removing the positions of `js`, the last entry of
/// `js` first, then the one before it, and so on down to `js[0]`.
pub open spec fn swap_remove_each<T>(s: Seq<T>, js: Seq<usize>) -> Seq<T>
    decreases js.len(),
{
    if js.len() == 0 {
        s
    } else {
        swap_remove_each(swap_remove_seq(s, js.last() as int), js.drop_last())
    }
}

/// Every removal of `swap_remove_each` on a list of length `len` names a
/// position that the list still has when its turn comes.
pub open spec fn swap_removes_fit(len: nat, js: Seq<usize>) -> bool
    decreases js.len(),
{
    js.len() == 0 || (js.last() < len && swap_removes_fit((len - 1) as nat, js.drop_last()))
}

/// Each position is smaller than the one after it.
pub open spec fn strictly_increasing(js: Seq<usize>) -> bool {
    forall|a: int, b: int| 0 <= a < b < js.len() ==> js[a] < js[b]
}

/// Every position is below `len`.
pub open spec fn all_below(js: Seq<usize>, len: nat) -> bool {
    forall|a: int| 0 <= a < js.len() ==> js[a] < len
}

/// The entries of `s` at the positions `js`.
pub open spec fn picked<T>(s: Seq<T>, js: Seq<usize>) -> Seq<T> {
    js.map_values(|j: usize| s[j as int])
}

/// The positions whose mark is set, in increasing order.
pub open spec fn marked_positions(marks: Seq<bool>) -> Seq<usize>
    decreases marks.len(),
{
    if marks.len() == 0 {
        Seq::empty()
    } else if marks.last() {
        marked_positions(marks.drop_last()).push((marks.len() - 1) as usize)
    } else {
        marked_positions(marks.drop_last())
    }
}

/// The entries of `s` whose keep flag is set, in their order.
pub open spec fn kept<T>(s: Seq<T>, keep: Seq<bool>) -> Seq<T>
    decreases s.len(),
{
    if s.len() == 0 {
        Seq::empty()
    } else if keep[0] {
        seq![s[0]] + kept(s.drop_first(), keep.drop_first())
    } else {
        kept(s.drop_first(), keep.drop_first())
    }
}

proof fn lemma_swap_remove_seq_multiset<T>(s: Seq<T>, k: int)
    requires
        0 <= k < s.len(),
    ensures
        swap_remove_seq(s, k).len() == s.len() - 1,
        swap_remove_seq(s, k).to_multiset().insert(s[k]) == s.to_multiset(),
        forall|j: int| 0 <= j < k ==> #[trigger] swap_remove_seq(s, k)[j] == s[j],
{
    broadcast use vstd::seq_lib::group_to_multiset_ensures;
    broadcast use vstd::multiset::group_multiset_axioms;

    let u = s.update(k, s.last());
    let t = swap_remove_seq(s, k);
    assert(u =~= t.push(s.last()));
    assert(u.to_multiset() == s.to_multiset().insert(s.last()).remove(s[k]));
    assert(u.to_multiset() == t.to_multiset().insert(s.last()));
    assert(s.to_multiset().insert(s.last()).count(s[k]) > 0);
    assert forall|x: T| #[trigger] t.to_multiset().insert(s[k]).count(x) == s.to_multiset().count(
        x,
    ) by {
        assert(t.to_multiset().insert(s.last()).count(x) == s.to_multiset().insert(
            s.last(),
        ).remove(s[k]).count(x));
    }
    assert(t.to_multiset().insert(s[k]) =~= s.to_multiset());
}

/// Swap-removing distinct positions, taken in increasing order, keeps
/// every other entry: what remains and what was removed make up the
/// original list exactly.
pub proof fn law_swap_remove_each_keeps_the_rest<T>(s: Seq<T>, js: Seq<usize>)
    requires
        strictly_increasing(js),
        all_below(js, s.len()),
    ensures
        swap_removes_fit(s.len(), js),
        swap_remove_each(s, js).len() == s.len() - js.len(),
        swap_remove_each(s, js).to_multiset().add(picked(s, js).to_multiset()) == s.to_multiset(),
    decreases js.len(),
{
    broadcast use vstd::seq_lib::group_to_multiset_ensures;
    broadcast use vstd::multiset::group_multiset_axioms;

    if js.len() == 0 {
        assert(picked(s, js) =~= Seq::<T>::empty());
        assert(picked(s, js).to_multiset() =~= Multiset::<T>::empty());
        assert(swap_remove_each(s, js).to_multiset().add(picked(s, js).to_multiset())
            =~= s.to_multiset());
    } else {
        let k = js.last() as int;
        let rest = js.drop_last();
        let t = swap_remove_seq(s, k);
        assert(0 <= k < s.len());
        lemma_swap_remove_seq_multiset(s, k);
        assert forall|a: int| 0 <= a < rest.len() implies rest[a] < t.len() by {
            assert(js[a] < js[js.len() - 1]);
        }
        assert(strictly_increasing(rest));
        law_swap_remove_each_keeps_the_rest(t, rest);
        assert forall|a: int| 0 <= a < rest.len() implies #[trigger] picked(t, rest)[a] == picked(
            s,
            rest,
        )[a] by {
            assert(js[a] < js[js.len() - 1]);
            assert(t[rest[a] as int] == s[rest[a] as int]);
        }
        assert(picked(t, rest) =~= picked(s, rest));
        assert(picked(s, js) =~= picked(s, rest).push(s[k]));
        let r = swap_remove_each(t, rest);
        assert(swap_remove_each(s, js) == r);
        assert(picked(s, js).to_multiset() == picked(s, rest).to_multiset().insert(s[k]));
        assert(r.to_multiset().add(picked(s, js).to_multiset()) =~= r.to_multiset().add(
            picked(t, rest).to_multiset(),
        ).insert(s[k]));
    }
}

/// Swap-removes the positions `js` from `v`, the last entry of `js` first.
pub fn swap_remove_all<T>(v: &mut Vec<T>, js: &Vec<usize>)
    requires
        swap_removes_fit(old(v)@.len(), js@),
    ensures
        final(v)@ == swap_remove_each(old(v)@, js@),
{
    let mut k: usize = js.len();
    assert(js@.take(k as int) =~= js@);
    while k > 0
        invariant
            k <= js@.len(),
            swap_removes_fit(v@.len(), js@.take(k as int)),
            swap_remove_each(v@, js@.take(k as int)) == swap_remove_each(old(v)@, js@),
        decreases k,
    {
        let ghost before = v@;
        let ghost prefix = js@.take(k as int);
        k = k - 1;
        assert(prefix.drop_last() =~= js@.take(k as int));
        assert(prefix.last() == js@[k as int]);
        let j: usize = js[k];
        v.swap_remove(j);
        assert(v@ == swap_remove_seq(before, j as int));
    }
}

proof fn lemma_marked_positions<T>(marks: Seq<bool>)
    requires
        marks.len() <= usize::MAX,
    ensures
        strictly_increasing(marked_positions(marks)),
        all_below(marked_positions(marks), marks.len()),
        forall|i: int|
            0 <= i < marks.len() ==> (marks[i] <==> marked_positions(marks).contains(i as usize)),
    decreases marks.len(),
{
    if marks.len() > 0 {
        let front = marks.drop_last();
        lemma_marked_positions::<T>(front);
        let m = marked_positions(front);
        assert forall|i: int| 0 <= i < marks.len() implies (marks[i]
            <==> marked_positions(marks).contains(i as usize)) by {
            if i < marks.len() - 1 {
                assert(front[i] == marks[i]);
                if marks.last() {
                    assert(m.push((marks.len() - 1) as usize)[m.len() as int] != i as usize);
                    if m.contains(i as usize) {
                        let a = choose|a: int| 0 <= a < m.len() && m[a] == i as usize;
                        assert(marked_positions(marks)[a] == i as usize);
                    }
                    if marked_positions(marks).contains(i as usize) {
                        let a = choose|a: int|
                            0 <= a < marked_positions(marks).len() && marked_positions(marks)[a]
                                == i as usize;
                        assert(m[a] == i as usize);
                    }
                }
            } else {
                if marks.last() {
                    assert(marked_positions(marks)[m.len() as int] == i as usize);
                } else {
                    if m.contains(i as usize) {
                        let a = choose|a: int| 0 <= a < m.len() && m[a] == i as usize;
                        assert(m[a] < front.len());
                    }
                }
            }
        }
    }
}

/// The positions whose mark is set, in increasing order.
pub fn marked(marks: &Vec<bool>) -> (js: Vec<usize>)
    ensures
        js@ == marked_positions(marks@),
        strictly_increasing(js@),
        all_below(js@, marks@.len()),
        forall|i: int| 0 <= i < marks@.len() ==> (marks@[i] <==> js@.contains(i as usize)),
{
    let mut js: Vec<usize> = Vec::new();
    let n: usize = marks.len();
    let mut i: usize = 0;
    while i < n
        invariant
            n == marks@.len(),
            i <= n,
            js@ == marked_positions(marks@.take(i as int)),
        decreases n - i,
    {
        assert(marks@.take(i as int + 1).drop_last() =~= marks@.take(i as int));
        if marks[i] {
            js.push(i);
        }
        i = i + 1;
    }
    assert(marks@.take(n as int) =~= marks@);
    proof {
        lemma_marked_positions::<bool>(marks@);
    }
    js
}

/// Removes from `v` the entries whose keep flag is unset; the others stay
/// in their order.
pub fn retain_kept<T>(v: &mut Vec<T>, keep: &Vec<bool>)
    requires
        keep@.len() == old(v)@.len(),
    ensures
        final(v)@ == kept(old(v)@, keep@),
{
    let ghost s = v@;
    let mut i: usize = v.len();
    assert(s.skip(i as int) =~= Seq::<T>::empty());
    assert(s.take(i as int) =~= s);
    assert(v@ =~= s.take(i as int) + kept(s.skip(i as int), keep@.skip(i as int)));
    while i > 0
        invariant
            i <= s.len(),
            keep@.len() == s.len(),
            v@ == s.take(i as int) + kept(s.skip(i as int), keep@.skip(i as int)),
        decreases i,
    {
        i = i - 1;
        let ghost tail = kept(s.skip(i as int + 1), keep@.skip(i as int + 1));
        assert(s.skip(i as int).drop_first() =~= s.skip(i as int + 1));
        assert(keep@.skip(i as int).drop_first() =~= keep@.skip(i as int + 1));
        assert(s.skip(i as int)[0] == s[i as int]);
        assert(keep@.skip(i as int)[0] == keep@[i as int]);
        if keep[i] {
            assert(kept(s.skip(i as int), keep@.skip(i as int)) == seq![s[i as int]] + tail);
            assert(s.take(i as int + 1) =~= s.take(i as int) + seq![s[i as int]]);
            assert(v@ =~= s.take(i as int) + kept(s.skip(i as int), keep@.skip(i as int)));
        } else {
            assert(kept(s.skip(i as int), keep@.skip(i as int)) == tail);
            v.remove(i);
            assert(v@ =~= s.take(i as int) + kept(s.skip(i as int), keep@.skip(i as int)));
        }
    }
    assert(s.take(0) =~= Seq::<T>::empty());
    assert(s.skip(0) =~= s);
    assert(keep@.skip(0) =~= keep@);
    assert(v@ =~= kept(s, keep@));
}


/// Whether the swap-removals of `js`, last entry first, all find their
/// position in a list of length `len`.
pub fn removals_fit(len: usize, js: &Vec<usize>) -> (r: bool)
    ensures
        r == swap_removes_fit(len as nat, js@),
{
    let n: usize = js.len();
    let mut k: usize = n;
    let mut l: usize = len;
    assert(js@.take(n as int) =~= js@);
    while k > 0
        invariant
            k <= n,
            n == js@.len(),
            swap_removes_fit(len as nat, js@) == swap_removes_fit(l as nat, js@.take(k as int)),
        decreases k,
    {
        let ghost prefix = js@.take(k as int);
        assert(prefix.drop_last() =~= js@.take(k as int - 1));
        assert(prefix.last() == js@[k as int - 1]);
        let j: usize = js[k - 1];
        if j >= l {
            return false;
        }
        l = l - 1;
        k = k - 1;
    }
    true
}


/// With every keep flag set, nothing is dropped; with none set, everything is.
pub proof fn law_kept_all_or_none<T>(s: Seq<T>, keep: Seq<bool>)
    requires
        keep.len() == s.len(),
    ensures
        (forall|k: int| 0 <= k < keep.len() ==> #[trigger] keep[k]) ==> kept(s, keep) == s,
        (forall|k: int| 0 <= k < keep.len() ==> !#[trigger] keep[k]) ==> kept(s, keep).len() == 0,
    decreases s.len(),
{
    if s.len() > 0 {
        law_kept_all_or_none(s.drop_first(), keep.drop_first());
        if forall|k: int| 0 <= k < keep.len() ==> #[trigger] keep[k] {
            assert(forall|k: int|
                0 <= k < keep.drop_first().len() ==> #[trigger] keep.drop_first()[k] == keep[k + 1]);
            assert(keep[0]);
            assert(kept(s, keep) =~= s);
        }
        if forall|k: int| 0 <= k < keep.len() ==> !#[trigger] keep[k] {
            assert(forall|k: int|
                0 <= k < keep.drop_first().len() ==> #[trigger] keep.drop_first()[k] == keep[k + 1]);
            assert(!keep[0]);
        }
    }
}


/// Order-keeping removal works piece by piece: on a concatenation it is the
/// concatenation of the results on each piece, a single kept entry stays, and
/// a single dropped entry goes.
pub proof fn law_kept_piecewise<T>(s: Seq<T>, t: Seq<T>, ks: Seq<bool>, kt: Seq<bool>, x: T)
    requires
        ks.len() == s.len(),
        kt.len() == t.len(),
    ensures
        kept(s + t, ks + kt) == kept(s, ks) + kept(t, kt),
        kept(seq![x], seq![true]) == seq![x],
        kept(seq![x], seq![false]) == Seq::<T>::empty(),
    decreases s.len(),
{
    if s.len() == 0 {
        assert(s + t =~= t);
        assert(ks + kt =~= kt);
        assert(kept(s, ks) =~= Seq::<T>::empty());
        assert(kept(s, ks) + kept(t, kt) =~= kept(t, kt));
    } else {
        assert((s + t).drop_first() =~= s.drop_first() + t);
        assert((ks + kt).drop_first() =~= ks.drop_first() + kt);
        assert((s + t)[0] == s[0]);
        assert((ks + kt)[0] == ks[0]);
        law_kept_piecewise(s.drop_first(), t, ks.drop_first(), kt, x);
        if ks[0] {
            assert(seq![s[0]] + (kept(s.drop_first(), ks.drop_first()) + kept(t, kt)) =~= (seq![
                s[0],
            ] + kept(s.drop_first(), ks.drop_first())) + kept(t, kt));
        }
    }
    assert(seq![x].drop_first() =~= Seq::<T>::empty());
    assert(seq![true].drop_first() =~= Seq::<bool>::empty());
    assert(seq![false].drop_first() =~= Seq::<bool>::empty());
    assert(kept(Seq::<T>::empty(), Seq::<bool>::empty()) =~= Seq::<T>::empty());
    assert(seq![x] + Seq::<T>::empty() =~= seq![x]);
}

} // verus!
