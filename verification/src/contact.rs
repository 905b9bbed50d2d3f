//! What a shot touched in one frame, and the removals that follow from it.
use vstd::prelude::*;
use crate::removal::{strictly_increasing, all_below, swap_removes_fit, law_swap_remove_each_keeps_the_rest};

verus! {

/// The touches of one enemy shot in one frame: whether it reached the
/// player, and, for each live blank in order, whether that blank covers it.
pub struct Contact {
    pub player: bool,
    pub blanks: Vec<bool>,
}

/// The number of set flags.
pub open spec fn count_true(s: Seq<bool>) -> nat
    decreases s.len(),
{
    if s.len() == 0 {
        0
    } else {
        count_true(s.drop_last()) + if s.last() {
            1nat
        } else {
            0nat
        }
    }
}

/// How many times a shot is listed for removal: once when it reached the
/// player (the blanks are then not looked at), else once per blank that
/// covers it.
pub open spec fn touches(c: Contact) -> nat {
    if c.player {
        1
    } else {
        count_true(c.blanks@)
    }
}

/// The removal list of one enemy's shots: each shot's position, as many
/// times as it is touched, shots in increasing order.
pub open spec fn removal_positions(cs: Seq<Contact>) -> Seq<usize>
    decreases cs.len(),
{
    if cs.len() == 0 {
        Seq::empty()
    } else {
        removal_positions(cs.drop_last()) + Seq::new(
            touches(cs.last()),
            |k: int| (cs.len() - 1) as usize,
        )
    }
}

/// The number of shots that reached the player.
pub open spec fn player_hits(cs: Seq<Contact>) -> nat
    decreases cs.len(),
{
    if cs.len() == 0 {
        0
    } else {
        player_hits(cs.drop_last()) + if cs.last().player {
            1nat
        } else {
            0nat
        }
    }
}

/// No shot is touched more than once.
pub open spec fn single_touches(cs: Seq<Contact>) -> bool {
    forall|j: int| 0 <= j < cs.len() ==> touches(#[trigger] cs[j]) <= 1
}

/// The number of shots touched at least once.
pub open spec fn touched_count(cs: Seq<Contact>) -> nat
    decreases cs.len(),
{
    if cs.len() == 0 {
        0
    } else {
        touched_count(cs.drop_last()) + if touches(cs.last()) > 0 {
            1nat
        } else {
            0nat
        }
    }
}

proof fn lemma_player_hits_bound(cs: Seq<Contact>)
    ensures
        player_hits(cs) <= cs.len(),
    decreases cs.len(),
{
    if cs.len() > 0 {
        lemma_player_hits_bound(cs.drop_last());
    }
}

/// When no shot of an enemy is touched twice, its removal list names each
/// touched shot once, in increasing order, so the swap-removals all fit.
pub proof fn law_single_touches_give_distinct_removals(cs: Seq<Contact>)
    requires
        single_touches(cs),
        cs.len() <= usize::MAX,
    ensures
        strictly_increasing(removal_positions(cs)),
        all_below(removal_positions(cs), cs.len()),
        removal_positions(cs).len() == touched_count(cs),
        swap_removes_fit(cs.len(), removal_positions(cs)),
    decreases cs.len(),
{
    if cs.len() > 0 {
        let front = cs.drop_last();
        assert forall|j: int| 0 <= j < front.len() implies touches(#[trigger] front[j]) <= 1 by {
            assert(front[j] == cs[j]);
        }
        law_single_touches_give_distinct_removals(front);
        assert(touches(cs[cs.len() - 1]) <= 1);
        let r = removal_positions(cs);
        let f = removal_positions(front);
        assert forall|a: int, b: int| 0 <= a < b < r.len() implies r[a] < r[b] by {
            if b >= f.len() {
                assert(r[b] == (cs.len() - 1) as usize);
                assert(a < f.len());
                assert(r[a] == f[a]);
            } else {
                assert(r[a] == f[a] && r[b] == f[b]);
            }
        }
        assert forall|a: int| 0 <= a < r.len() implies r[a] < cs.len() by {
            if a < f.len() {
                assert(r[a] == f[a]);
            }
        }
        law_swap_remove_each_keeps_the_rest(Seq::new(cs.len(), |k: int| k), r);
    }
}

/// The removal list of one enemy's shots and the number of them that reached
/// the player.
pub fn removals_for(cs: &Vec<Contact>) -> (r: (Vec<usize>, usize))
    ensures
        r.0@ == removal_positions(cs@),
        r.1 == player_hits(cs@),
{
    let mut out: Vec<usize> = Vec::new();
    let mut hits: usize = 0;
    let n: usize = cs.len();
    let mut j: usize = 0;
    while j < n
        invariant
            n == cs@.len(),
            j <= n,
            out@ == removal_positions(cs@.take(j as int)),
            hits == player_hits(cs@.take(j as int)),
        decreases n - j,
    {
        let ghost front = cs@.take(j as int);
        assert(cs@.take(j as int + 1).drop_last() =~= front);
        assert(cs@.take(j as int + 1).last() == cs@[j as int]);
        proof {
            lemma_player_hits_bound(front);
        }
        let c: &Contact = &cs[j];
        if c.player {
            out.push(j);
            hits = hits + 1;
            assert(out@ =~= removal_positions(front) + Seq::new(1, |k: int| j as usize));
        } else {
            let m: usize = c.blanks.len();
            let mut b: usize = 0;
            assert(out@ =~= removal_positions(front) + Seq::new(
                count_true(c.blanks@.take(0)),
                |k: int| j as usize,
            ));
            while b < m
                invariant
                    m == c.blanks@.len(),
                    b <= m,
                    out@ == removal_positions(front) + Seq::new(
                        count_true(c.blanks@.take(b as int)),
                        |k: int| j as usize,
                    ),
                decreases m - b,
            {
                assert(c.blanks@.take(b as int + 1).drop_last() =~= c.blanks@.take(b as int));
                assert(c.blanks@.take(b as int + 1).last() == c.blanks@[b as int]);
                if c.blanks[b] {
                    out.push(j);
                }
                b = b + 1;
                assert(out@ =~= removal_positions(front) + Seq::new(
                    count_true(c.blanks@.take(b as int)),
                    |k: int| j as usize,
                ));
            }
            assert(c.blanks@.take(m as int) =~= c.blanks@);
        }
        j = j + 1;
    }
    assert(cs@.take(n as int) =~= cs@);
    (out, hits)
}


/// Counting set flags adds up over a concatenation, and a single flag counts
/// one exactly when it is set.
pub proof fn law_count_true_adds_up(a: Seq<bool>, b: Seq<bool>, x: bool)
    ensures
        count_true(a + b) == count_true(a) + count_true(b),
        count_true(seq![x]) == if x {
            1nat
        } else {
            0nat
        },
    decreases b.len(),
{
    if b.len() == 0 {
        assert(a + b =~= a);
    } else {
        assert((a + b).drop_last() =~= a + b.drop_last());
        assert((a + b).last() == b.last());
        law_count_true_adds_up(a, b.drop_last(), x);
    }
    assert(seq![x].drop_last() =~= Seq::<bool>::empty());
    assert(count_true(Seq::<bool>::empty()) == 0);
}

proof fn lemma_constant_seq_count(n: nat, v: usize, w: usize)
    ensures
        Seq::new(n, |k: int| v).to_multiset().count(w) == if w == v {
            n
        } else {
            0
        },
    decreases n,
{
    broadcast use vstd::seq_lib::group_to_multiset_ensures;

    if n > 0 {
        lemma_constant_seq_count((n - 1) as nat, v, w);
        assert(Seq::new(n, |k: int| v) =~= Seq::new((n - 1) as nat, |k: int| v).push(v));
    } else {
        assert(Seq::new(n, |k: int| v) =~= Seq::<usize>::empty());
    }
}

/// Each shot's position appears in the removal list exactly as many times
/// as the shot is touched: once when it reached the player, else once per
/// covering blank; no other position appears.
pub proof fn law_removal_counts(cs: Seq<Contact>, j: int)
    requires
        cs.len() <= usize::MAX,
    ensures
        0 <= j < cs.len() ==> removal_positions(cs).to_multiset().count(j as usize) == if cs[j].player {
            1nat
        } else {
            count_true(cs[j].blanks@)
        },
        forall|a: int| 0 <= a < removal_positions(cs).len() ==> #[trigger] removal_positions(cs)[a] < cs.len(),
    decreases cs.len(),
{
    if cs.len() > 0 {
        let front = cs.drop_last();
        law_removal_counts(front, j);
        let tail = Seq::new(touches(cs.last()), |k: int| (cs.len() - 1) as usize);
        vstd::seq_lib::lemma_multiset_commutative(removal_positions(front), tail);
        if 0 <= j < cs.len() {
            lemma_constant_seq_count(touches(cs.last()), (cs.len() - 1) as usize, j as usize);
            if j < cs.len() - 1 {
                assert(front[j] == cs[j]);
            } else {
                broadcast use vstd::seq_lib::group_to_multiset_ensures;
                if removal_positions(front).to_multiset().count(j as usize) > 0 {
                    assert(removal_positions(front).contains(j as usize));
                    let a = choose|a: int|
                        0 <= a < removal_positions(front).len() && removal_positions(front)[a]
                            == j as usize;
                    assert(removal_positions(front)[a] < front.len());
                }
            }
        }
        let r = removal_positions(cs);
        let f = removal_positions(front);
        assert forall|a: int| 0 <= a < r.len() implies #[trigger] r[a] < cs.len() by {
            if a < f.len() {
                assert(r[a] == f[a]);
            }
        }
    } else {
        assert(removal_positions(cs).to_multiset() =~= vstd::multiset::Multiset::<usize>::empty())
            by {
            broadcast use vstd::seq_lib::group_to_multiset_ensures;

        }
    }
}

} // verus!
