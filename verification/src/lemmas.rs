//! Supporting proofs about the model: characterizations of the
//! first-occurrence searches and the algebra of the piece-counting
//! functions.

use vstd::prelude::*;
use crate::logic::Id;
use crate::model::{
    HomeWorldView, StarView, empty_lists, first_home_claim, first_index_of, first_star_entry,
    home_count, homes_count, id_count, lists_count, lists_ids, star_count, stars_count,
};

verus! {

/// What `first_index_of` returns: the position of the first occurrence
/// of `x`, or `None` exactly when `x` does not occur.
pub proof fn lemma_first_index_of(s: Seq<Id>, x: Id)
    ensures
        match first_index_of(s, x) {
            None => !s.contains(x),
            Some(i) => 0 <= i < s.len() && s[i] == x && forall|j: int| 0 <= j < i ==> s[j] != x,
        },
    decreases s.len(),
{
    if s.len() == 0 {
    } else if s[0] == x {
    } else {
        lemma_first_index_of(s.drop_first(), x);
        match first_index_of(s.drop_first(), x) {
            None => {
                assert forall|j: int| 0 <= j < s.len() implies s[j] != x by {
                    if j > 0 {
                        assert(s.drop_first()[j - 1] == s[j]);
                        assert(!s.drop_first().contains(s.drop_first()[j - 1]) ==> s.drop_first()[j
                            - 1] != x) by {
                            if s.drop_first()[j - 1] == x {
                                assert(s.drop_first().contains(x));
                            }
                        }
                    }
                }
                if s.contains(x) {
                    let j = choose|j: int| 0 <= j < s.len() && s[j] == x;
                    assert(s[j] != x);
                }
            },
            Some(i) => {
                assert(s.drop_first()[i] == s[i + 1]);
                assert forall|j: int| 0 <= j < i + 1 implies s[j] != x by {
                    if j > 0 {
                        assert(s.drop_first()[j - 1] == s[j]);
                    }
                }
            },
        }
    }
}

/// What `first_home_claim` returns: the first homeworld whose controlled
/// stars contain `x`, or `None` exactly when no homeworld claims `x`.
pub proof fn lemma_first_home_claim(hws: Seq<HomeWorldView>, x: Id)
    ensures
        match first_home_claim(hws, x) {
            None => forall|i: int| 0 <= i < hws.len() ==> !(#[trigger] hws[i].stars).contains(x),
            Some(i) => 0 <= i < hws.len() && hws[i].stars.contains(x) && forall|j: int|
                0 <= j < i ==> !(#[trigger] hws[j].stars).contains(x),
        },
    decreases hws.len(),
{
    if hws.len() == 0 {
    } else if hws[0].stars.contains(x) {
    } else {
        lemma_first_home_claim(hws.drop_first(), x);
        match first_home_claim(hws.drop_first(), x) {
            None => {
                assert forall|i: int| 0 <= i < hws.len() implies !(#[trigger] hws[i].stars).contains(
                    x,
                ) by {
                    if i > 0 {
                        assert(hws.drop_first()[i - 1] == hws[i]);
                    }
                }
            },
            Some(i) => {
                assert(hws.drop_first()[i] == hws[i + 1]);
                assert forall|j: int| 0 <= j < i + 1 implies !(#[trigger] hws[j].stars).contains(
                    x,
                ) by {
                    if j > 0 {
                        assert(hws.drop_first()[j - 1] == hws[j]);
                    }
                }
            },
        }
    }
}

/// What `first_star_entry` returns: the first standalone star whose
/// identity is `x`, or `None` exactly when no entry carries it.
pub proof fn lemma_first_star_entry(ss: Seq<StarView>, x: Id)
    ensures
        match first_star_entry(ss, x) {
            None => forall|i: int| 0 <= i < ss.len() ==> (#[trigger] ss[i].star) != x,
            Some(i) => 0 <= i < ss.len() && ss[i].star == x && forall|j: int|
                0 <= j < i ==> (#[trigger] ss[j].star) != x,
        },
    decreases ss.len(),
{
    if ss.len() == 0 {
    } else if ss[0].star == x {
    } else {
        lemma_first_star_entry(ss.drop_first(), x);
        match first_star_entry(ss.drop_first(), x) {
            None => {
                assert forall|i: int| 0 <= i < ss.len() implies (#[trigger] ss[i].star) != x by {
                    if i > 0 {
                        assert(ss.drop_first()[i - 1] == ss[i]);
                    }
                }
            },
            Some(i) => {
                assert(ss.drop_first()[i] == ss[i + 1]);
                assert forall|j: int| 0 <= j < i + 1 implies (#[trigger] ss[j].star) != x by {
                    if j > 0 {
                        assert(ss.drop_first()[j - 1] == ss[j]);
                    }
                }
            },
        }
    }
}

/// Resolution searches depend only on the star identities of the board,
/// not on the ship lists: equal homeworld star lists give equal claims.
pub proof fn lemma_first_home_claim_congruent(a: Seq<HomeWorldView>, b: Seq<HomeWorldView>, x: Id)
    requires
        a.len() == b.len(),
        forall|i: int| 0 <= i < a.len() ==> (#[trigger] a[i].stars) == b[i].stars,
    ensures
        first_home_claim(a, x) == first_home_claim(b, x),
    decreases a.len(),
{
    if a.len() > 0 {
        assert(a[0].stars == b[0].stars);
        assert forall|i: int|
            0 <= i < a.drop_first().len() implies (#[trigger] a.drop_first()[i].stars)
            == b.drop_first()[i].stars by {
            assert(a.drop_first()[i] == a[i + 1]);
            assert(b.drop_first()[i] == b[i + 1]);
        }
        lemma_first_home_claim_congruent(a.drop_first(), b.drop_first(), x);
    }
}

/// The standalone-star search depends only on the star identities.
pub proof fn lemma_first_star_entry_congruent(a: Seq<StarView>, b: Seq<StarView>, x: Id)
    requires
        a.len() == b.len(),
        forall|i: int| 0 <= i < a.len() ==> (#[trigger] a[i].star) == b[i].star,
    ensures
        first_star_entry(a, x) == first_star_entry(b, x),
    decreases a.len(),
{
    if a.len() > 0 {
        assert(a[0].star == b[0].star);
        assert forall|i: int|
            0 <= i < a.drop_first().len() implies (#[trigger] a.drop_first()[i].star)
            == b.drop_first()[i].star by {
            assert(a.drop_first()[i] == a[i + 1]);
            assert(b.drop_first()[i] == b[i + 1]);
        }
        lemma_first_star_entry_congruent(a.drop_first(), b.drop_first(), x);
    }
}

/// Occurrence counts are never negative.
pub proof fn lemma_id_count_nonneg(s: Seq<Id>, x: Id)
    ensures
        id_count(s, x) >= 0,
    decreases s.len(),
{
    if s.len() > 0 {
        lemma_id_count_nonneg(s.drop_last(), x);
    }
}

/// A list contains `x` exactly when its occurrence count is positive.
pub proof fn lemma_id_count_contains(s: Seq<Id>, x: Id)
    ensures
        s.contains(x) <==> id_count(s, x) >= 1,
    decreases s.len(),
{
    lemma_id_count_nonneg(s, x);
    if s.len() > 0 {
        lemma_id_count_contains(s.drop_last(), x);
        lemma_id_count_nonneg(s.drop_last(), x);
        if s.last() == x {
            assert(s.contains(x));
        } else if s.drop_last().contains(x) {
            let j = choose|j: int| 0 <= j < s.drop_last().len() && s.drop_last()[j] == x;
            assert(s[j] == x);
        } else if s.contains(x) {
            let j = choose|j: int| 0 <= j < s.len() && s[j] == x;
            assert(s.drop_last()[j] == x);
        }
    }
}

/// Appending an element adds one occurrence of it and none of others.
pub proof fn lemma_id_count_push(s: Seq<Id>, y: Id, x: Id)
    ensures
        id_count(s.push(y), x) == id_count(s, x) + if y == x {
            1int
        } else {
            0
        },
{
    assert(s.push(y).drop_last() =~= s);
    assert(s.push(y).last() == y);
}

/// Removing the element at `i` subtracts one occurrence of it and none
/// of others.
pub proof fn lemma_id_count_remove(s: Seq<Id>, i: int, x: Id)
    requires
        0 <= i < s.len(),
    ensures
        id_count(s.remove(i), x) == id_count(s, x) - if s[i] == x {
            1int
        } else {
            0
        },
    decreases s.len(),
{
    s.remove_ensures(i);
    if i == s.len() - 1 {
        assert(s.remove(i) =~= s.drop_last());
    } else {
        assert(s.remove(i).drop_last() =~= s.drop_last().remove(i));
        assert(s.remove(i).last() == s.last());
        lemma_id_count_remove(s.drop_last(), i, x);
    }
}

/// Counts over a group of ship lists are never negative.
pub proof fn lemma_lists_count_nonneg(ls: Seq<Seq<Id>>, x: Id)
    ensures
        lists_count(ls, x) >= 0,
    decreases ls.len(),
{
    if ls.len() > 0 {
        lemma_lists_count_nonneg(ls.drop_last(), x);
        lemma_id_count_nonneg(ls.last(), x);
    }
}

/// A group's count is at least the count of any one of its lists.
pub proof fn lemma_lists_count_member(ls: Seq<Seq<Id>>, i: int, x: Id)
    requires
        0 <= i < ls.len(),
    ensures
        id_count(ls[i], x) <= lists_count(ls, x),
        id_count(ls[i], x) >= 0,
    decreases ls.len(),
{
    lemma_id_count_nonneg(ls[i], x);
    lemma_lists_count_nonneg(ls.drop_last(), x);
    lemma_id_count_nonneg(ls.last(), x);
    if i == ls.len() - 1 {
        assert(ls.last() == ls[i]);
    } else {
        assert(ls.drop_last()[i] == ls[i]);
        lemma_lists_count_member(ls.drop_last(), i, x);
    }
}

/// Replacing the list at `i` shifts the group count by the difference of
/// the two lists' counts.
pub proof fn lemma_lists_count_update(ls: Seq<Seq<Id>>, i: int, v: Seq<Id>, x: Id)
    requires
        0 <= i < ls.len(),
    ensures
        lists_count(ls.update(i, v), x) == lists_count(ls, x) - id_count(ls[i], x) + id_count(
            v,
            x,
        ),
    decreases ls.len(),
{
    let lu = ls.update(i, v);
    if i == ls.len() - 1 {
        assert(lu.drop_last() =~= ls.drop_last());
        assert(lu.last() == v);
    } else {
        assert(lu.drop_last() =~= ls.drop_last().update(i, v));
        assert(lu.last() == ls.last());
        assert(ls.drop_last()[i] == ls[i]);
        lemma_lists_count_update(ls.drop_last(), i, v, x);
    }
}

/// A group of empty ship lists holds no pieces at all.
pub proof fn lemma_lists_count_empty(n: int, x: Id)
    requires
        n >= 0,
    ensures
        lists_count(empty_lists(n), x) == 0,
    decreases n,
{
    if n == 0 {
        assert(empty_lists(n).len() == 0);
    } else {
        assert(empty_lists(n).drop_last() =~= empty_lists(n - 1));
        assert(empty_lists(n).last() =~= Seq::<Id>::empty());
        assert(id_count(empty_lists(n).last(), x) == 0);
        lemma_lists_count_empty(n - 1, x);
    }
}

/// The set of pieces held in a group of lists contains `x` exactly when
/// the group's occurrence count is positive.
pub proof fn lemma_lists_ids_count(ls: Seq<Seq<Id>>, x: Id)
    ensures
        lists_ids(ls).contains(x) <==> lists_count(ls, x) >= 1,
    decreases ls.len(),
{
    lemma_lists_count_nonneg(ls, x);
    if ls.len() == 0 {
        assert(!lists_ids(ls).contains(x));
    } else {
        lemma_lists_ids_count(ls.drop_last(), x);
        lemma_lists_count_nonneg(ls.drop_last(), x);
        lemma_id_count_contains(ls.last(), x);
        lemma_id_count_nonneg(ls.last(), x);
        assert(lists_count(ls, x) == lists_count(ls.drop_last(), x) + id_count(ls.last(), x));
        assert(lists_ids(ls).contains(x) == (lists_ids(ls.drop_last()).contains(x)
            || ls.last().to_set().contains(x)));
        assert(ls.last().to_set().contains(x) == ls.last().contains(x));
    }
}

/// Appending a fresh element to a duplicate-free list keeps it
/// duplicate-free and inserts the element into the list's set of values.
pub proof fn lemma_push_fresh(s: Seq<Id>, x: Id)
    requires
        s.no_duplicates(),
        !s.contains(x),
    ensures
        s.push(x).no_duplicates(),
        s.push(x).to_set() == s.to_set().insert(x),
{
    assert forall|y: Id|
        s.push(x).to_set().contains(y) == s.to_set().insert(x).contains(y) by {
        if s.push(x).contains(y) {
            let k = choose|k: int| 0 <= k < s.push(x).len() && s.push(x)[k] == y;
            if k < s.len() {
                assert(s[k] == y);
            }
        }
        if s.contains(y) {
            let k = choose|k: int| 0 <= k < s.len() && s[k] == y;
            assert(s.push(x)[k] == y);
        }
        if y == x {
            assert(s.push(x)[s.len() as int] == y);
        }
    }
    assert(s.push(x).to_set() =~= s.to_set().insert(x));
}

/// Removing position `i` from a duplicate-free list keeps it
/// duplicate-free and removes exactly that value from its set of values.
pub proof fn lemma_remove_id(s: Seq<Id>, i: int)
    requires
        0 <= i < s.len(),
        s.no_duplicates(),
    ensures
        s.remove(i).no_duplicates(),
        s.remove(i).to_set() == s.to_set().remove(s[i]),
{
    s.remove_ensures(i);
    let r = s.remove(i);
    assert forall|p: int, q: int|
        0 <= p < r.len() && 0 <= q < r.len() && p != q implies r[p] != r[q] by {
        let p0: int = if p < i { p } else { p + 1 };
        let q0: int = if q < i { q } else { q + 1 };
        assert(r[p] == s[p0]);
        assert(r[q] == s[q0]);
    }
    assert forall|y: Id| r.to_set().contains(y) == s.to_set().remove(s[i]).contains(y) by {
        if r.contains(y) {
            let k = choose|k: int| 0 <= k < r.len() && r[k] == y;
            let k0: int = if k < i { k } else { k + 1 };
            assert(s[k0] == y);
            assert(s.contains(y));
            assert(y != s[i]);
        }
        if s.contains(y) && y != s[i] {
            let k = choose|k: int| 0 <= k < s.len() && s[k] == y;
            if k < i {
                assert(r[k] == y);
            } else {
                assert(r[k - 1] == y);
            }
            assert(r.contains(y));
        }
    }
    assert(r.to_set() =~= s.to_set().remove(s[i]));
}

/// Extending a prefix of a list by one position inserts that position's
/// value into the prefix's set of values.
pub proof fn lemma_take_to_set_step(s: Seq<Id>, m: int)
    requires
        0 <= m < s.len(),
    ensures
        s.take(m + 1).to_set() == s.take(m).to_set().insert(s[m]),
{
    let t = s.take(m + 1);
    assert forall|y: Id|
        s.take(m + 1).to_set().contains(y) == s.take(m).to_set().insert(s[m]).contains(y) by {
        if s.take(m + 1).contains(y) {
            let k = choose|k: int| 0 <= k < t.len() && t[k] == y;
            assert(s.take(m + 1)[k] == y);
            if k < m {
                assert(s.take(m)[k] == y);
            } else {
                assert(y == s[m]);
            }
        }
        if s.take(m).contains(y) {
            let k = choose|k: int| 0 <= k < s.take(m).len() && s.take(m)[k] == y;
            assert(s.take(m + 1)[k] == y);
        }
        if y == s[m] {
            assert(s.take(m + 1)[m] == y);
        }
    }
    assert(s.take(m + 1).to_set() =~= s.take(m).to_set().insert(s[m]));
}

/// Extending a prefix of a group of lists by one list unions in that
/// list's set of values.
pub proof fn lemma_lists_ids_take_step(ls: Seq<Seq<Id>>, k: int)
    requires
        0 <= k < ls.len(),
    ensures
        lists_ids(ls.take(k + 1)) == lists_ids(ls.take(k)).union(ls[k].to_set()),
{
    assert(ls.take(k + 1).drop_last() =~= ls.take(k));
    assert(ls.take(k + 1).last() == ls[k]);
}

/// Counts over the standalone star collection are never negative.
pub proof fn lemma_stars_count_nonneg(ss: Seq<StarView>, x: Id)
    ensures
        stars_count(ss, x) >= 0,
    decreases ss.len(),
{
    if ss.len() > 0 {
        lemma_stars_count_nonneg(ss.drop_last(), x);
        lemma_lists_count_nonneg(ss.last().ships, x);
    }
}

/// The collection's count is at least the count of any one star.
pub proof fn lemma_stars_count_member(ss: Seq<StarView>, i: int, x: Id)
    requires
        0 <= i < ss.len(),
    ensures
        star_count(ss[i], x) <= stars_count(ss, x),
        star_count(ss[i], x) >= 0,
    decreases ss.len(),
{
    lemma_lists_count_nonneg(ss[i].ships, x);
    lemma_stars_count_nonneg(ss.drop_last(), x);
    lemma_lists_count_nonneg(ss.last().ships, x);
    if i == ss.len() - 1 {
        assert(ss.last() == ss[i]);
    } else {
        assert(ss.drop_last()[i] == ss[i]);
        lemma_stars_count_member(ss.drop_last(), i, x);
    }
}

/// Replacing the star at `i` shifts the collection count by the
/// difference of the two stars' counts.
pub proof fn lemma_stars_count_update(ss: Seq<StarView>, i: int, st: StarView, x: Id)
    requires
        0 <= i < ss.len(),
    ensures
        stars_count(ss.update(i, st), x) == stars_count(ss, x) - star_count(ss[i], x) + star_count(
            st,
            x,
        ),
    decreases ss.len(),
{
    let su = ss.update(i, st);
    if i == ss.len() - 1 {
        assert(su.drop_last() =~= ss.drop_last());
        assert(su.last() == st);
    } else {
        assert(su.drop_last() =~= ss.drop_last().update(i, st));
        assert(su.last() == ss.last());
        assert(ss.drop_last()[i] == ss[i]);
        lemma_stars_count_update(ss.drop_last(), i, st, x);
    }
}

/// Appending a star adds exactly that star's count.
pub proof fn lemma_stars_count_push(ss: Seq<StarView>, st: StarView, x: Id)
    ensures
        stars_count(ss.push(st), x) == stars_count(ss, x) + star_count(st, x),
{
    assert(ss.push(st).drop_last() =~= ss);
    assert(ss.push(st).last() == st);
}

/// Removing the star at `i` subtracts exactly that star's count.
pub proof fn lemma_stars_count_remove(ss: Seq<StarView>, i: int, x: Id)
    requires
        0 <= i < ss.len(),
    ensures
        stars_count(ss.remove(i), x) == stars_count(ss, x) - star_count(ss[i], x),
    decreases ss.len(),
{
    ss.remove_ensures(i);
    if i == ss.len() - 1 {
        assert(ss.remove(i) =~= ss.drop_last());
    } else {
        assert(ss.remove(i).drop_last() =~= ss.drop_last().remove(i));
        assert(ss.remove(i).last() == ss.last());
        assert(ss.drop_last()[i] == ss[i]);
        lemma_stars_count_remove(ss.drop_last(), i, x);
    }
}

/// Counts over the homeworld array are never negative.
pub proof fn lemma_homes_count_nonneg(hws: Seq<HomeWorldView>, x: Id)
    ensures
        homes_count(hws, x) >= 0,
    decreases hws.len(),
{
    if hws.len() > 0 {
        lemma_homes_count_nonneg(hws.drop_last(), x);
        lemma_id_count_nonneg(hws.last().stars, x);
        lemma_lists_count_nonneg(hws.last().ships, x);
    }
}

/// The array's count is at least the count of any one home system.
pub proof fn lemma_homes_count_member(hws: Seq<HomeWorldView>, i: int, x: Id)
    requires
        0 <= i < hws.len(),
    ensures
        home_count(hws[i], x) <= homes_count(hws, x),
        home_count(hws[i], x) >= 0,
    decreases hws.len(),
{
    lemma_id_count_nonneg(hws[i].stars, x);
    lemma_lists_count_nonneg(hws[i].ships, x);
    lemma_homes_count_nonneg(hws.drop_last(), x);
    lemma_id_count_nonneg(hws.last().stars, x);
    lemma_lists_count_nonneg(hws.last().ships, x);
    if i == hws.len() - 1 {
        assert(hws.last() == hws[i]);
    } else {
        assert(hws.drop_last()[i] == hws[i]);
        lemma_homes_count_member(hws.drop_last(), i, x);
    }
}

/// Replacing the home system at `i` shifts the array count by the
/// difference of the two systems' counts.
pub proof fn lemma_homes_count_update(hws: Seq<HomeWorldView>, i: int, hw: HomeWorldView, x: Id)
    requires
        0 <= i < hws.len(),
    ensures
        homes_count(hws.update(i, hw), x) == homes_count(hws, x) - home_count(hws[i], x)
            + home_count(hw, x),
    decreases hws.len(),
{
    let hu = hws.update(i, hw);
    if i == hws.len() - 1 {
        assert(hu.drop_last() =~= hws.drop_last());
        assert(hu.last() == hw);
    } else {
        assert(hu.drop_last() =~= hws.drop_last().update(i, hw));
        assert(hu.last() == hws.last());
        assert(hws.drop_last()[i] == hws[i]);
        lemma_homes_count_update(hws.drop_last(), i, hw, x);
    }
}

} // verus!
