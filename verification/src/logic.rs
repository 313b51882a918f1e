//! The executable engine: piece identities, the board, and the action
//! applier. Every mutating entry point is specified against the
//! mathematical transition function in [`crate::model`].

use vstd::prelude::*;
use crate::model::{
    BoardView, HomeWorldView, Place, StarView, apply_spec, create_ship_spec, create_star_spec,
    destroy_ship_spec, destroy_star_spec, first_home_claim, first_index_of, first_star_entry,
    lists_ids, resolve, wf,
};
use crate::lemmas::{
    lemma_first_home_claim, lemma_first_index_of, lemma_first_star_entry,
    lemma_lists_ids_take_step, lemma_push_fresh, lemma_remove_id, lemma_take_to_set_step,
};
use crate::laws::{
    lemma_create_ship_conserves, lemma_create_star_conserves, lemma_destroy_ship_conserves,
    lemma_destroy_star_conserves,
};

verus! {

/// Uniquely identifies a piece in the game.
#[derive(Debug, Clone, Copy, PartialEq, Eq, Structural, Hash, PartialOrd, Ord)]
pub struct Id(pub u8);

/// A piece's color classification, fixed at setup. The transition logic
/// never reads it; it is inert data for presentation and future rules.
#[derive(Debug, Clone, Copy)]
pub enum Color {
    Red,
    Green,
    Blue,
    Yellow,
}

/// A piece's size classification, inert like [`Color`].
#[derive(Debug, Clone, Copy)]
pub enum Size {
    Small,
    Medium,
    Large,
}

/// A discrete, possibly failing transition of the board.
///
/// Every action other than `MoveShip` implicitly targets the ship-list
/// slot of `current_player`; no action carries an explicit player field.
#[derive(Debug, Clone, Copy)]
pub enum Action {
    CreateShip { ship: Id, star: Id },
    DestroyShip { ship: Id, star: Id },
    MoveShip { ship: Id, start_star: Id, end_star: Id },
    CreateStar { star: Id },
    DestroyStar { star: Id },
}

/// The result of resolving a star identity: an index handle into either
/// the standalone star collection or the homeworld array. A handle is
/// returned instead of a live reference so that the caller mutates
/// through a second indexed access.
#[derive(Debug, Clone, Copy, PartialEq, Eq, Structural)]
pub enum LocRef {
    StarRef(usize),
    HomeWorldRef(usize),
}

impl View for LocRef {
    type V = Place;

    open spec fn view(&self) -> Place {
        match self {
            LocRef::StarRef(i) => Place::AtStar(*i as int),
            LocRef::HomeWorldRef(i) => Place::AtHome(*i as int),
        }
    }
}

/// An ordinary location: a piece acting as a star, holding one ship
/// list per player slot.
#[derive(Debug, Clone)]
pub struct Star {
    pub star: Id,
    pub ships: Vec<Vec<Id>>,
}

/// A player's home system: the star identities it controls and one ship
/// list per player slot. An empty `stars` vector marks an eliminated
/// player; the entry itself stays in place as a placeholder.
#[derive(Debug, Clone)]
pub struct HomeWorld {
    pub stars: Vec<Id>,
    pub ships: Vec<Vec<Id>>,
}

/// The complete game state: the bank of unused pieces, the standalone
/// star collection, one home system per player slot, and whose turn it
/// is. Turn advancement is the caller's concern.
#[derive(Debug, Clone)]
pub struct Board {
    pub current_player: u8,
    pub player_count: u8,
    pub bank: Vec<Id>,
    pub stars: Vec<Star>,
    pub homeworlds: Vec<HomeWorld>,
}

/// The ship lists of a location, as mathematical sequences.
pub open spec fn lists_view(ls: Seq<Vec<Id>>) -> Seq<Seq<Id>> {
    ls.map_values(|l: Vec<Id>| l@)
}

/// The standalone star collection, as mathematical values.
pub open spec fn stars_view(ss: Seq<Star>) -> Seq<StarView> {
    ss.map_values(|s: Star| s@)
}

/// The homeworld array, as mathematical values.
pub open spec fn homes_view(hs: Seq<HomeWorld>) -> Seq<HomeWorldView> {
    hs.map_values(|h: HomeWorld| h@)
}

impl View for Star {
    type V = StarView;

    open spec fn view(&self) -> StarView {
        StarView { star: self.star, ships: lists_view(self.ships@) }
    }
}

impl View for HomeWorld {
    type V = HomeWorldView;

    open spec fn view(&self) -> HomeWorldView {
        HomeWorldView { stars: self.stars@, ships: lists_view(self.ships@) }
    }
}

impl View for Board {
    type V = BoardView;

    open spec fn view(&self) -> BoardView {
        BoardView {
            current_player: self.current_player as int,
            player_count: self.player_count as int,
            bank: self.bank@.to_set(),
            stars: stars_view(self.stars@),
            homeworlds: homes_view(self.homeworlds@),
        }
    }
}

/// Position of the first occurrence of `x` in `v`, if any.
fn find_id(v: &Vec<Id>, x: Id) -> (r: Option<usize>)
    ensures
        match r {
            None => first_index_of(v@, x) is None,
            Some(i) => i < v.len() && first_index_of(v@, x) == Some(i as int),
        },
{
    let mut i: usize = 0;
    while i < v.len()
        invariant
            i <= v.len(),
            forall|j: int| 0 <= j < i ==> v@[j] != x,
        decreases v.len() - i,
    {
        if v[i] == x {
            proof {
                lemma_first_index_of(v@, x);
                match first_index_of(v@, x) {
                    None => {
                        assert(v@[i as int] == x);
                    },
                    Some(k) => {
                        if k < i as int {
                            assert(v@[k] != x);
                        }
                        if k > i as int {
                            assert(v@[i as int] != x);
                        }
                    },
                }
            }
            return Some(i);
        }
        i += 1;
    }
    proof {
        lemma_first_index_of(v@, x);
    }
    None
}

/// Whether `x` occurs in `v`.
fn contains_id(v: &Vec<Id>, x: Id) -> (r: bool)
    ensures
        r == v@.contains(x),
{
    proof {
        lemma_first_index_of(v@, x);
    }
    match find_id(v, x) {
        Some(_) => true,
        None => false,
    }
}

/// Idempotent set insertion into the bank: never introduces a duplicate.
fn put_id(v: &mut Vec<Id>, x: Id)
    requires
        old(v)@.no_duplicates(),
    ensures
        final(v)@.no_duplicates(),
        final(v)@.to_set() == old(v)@.to_set().insert(x),
{
    let found = contains_id(v, x);
    if !found {
        v.push(x);
        proof {
            lemma_push_fresh(old(v)@, x);
        }
    } else {
        proof {
            assert(old(v)@.to_set().insert(x) =~= old(v)@.to_set());
        }
    }
}

/// Set removal from the bank: takes `x` out if present and reports
/// whether it was there.
fn take_id(v: &mut Vec<Id>, x: Id) -> (r: bool)
    requires
        old(v)@.no_duplicates(),
    ensures
        final(v)@.no_duplicates(),
        r == old(v)@.to_set().contains(x),
        r ==> final(v)@.to_set() == old(v)@.to_set().remove(x),
        !r ==> final(v)@ == old(v)@,
{
    proof {
        lemma_first_index_of(v@, x);
    }
    match find_id(v, x) {
        Some(i) => {
            proof {
                lemma_remove_id(v@, i as int);
            }
            v.remove(i);
            true
        },
        None => false,
    }
}

/// An element-wise copy of a list of piece identities.
fn copy_ids(v: &Vec<Id>) -> (r: Vec<Id>)
    ensures
        r@ == v@,
{
    let mut r: Vec<Id> = Vec::new();
    let mut i: usize = 0;
    while i < v.len()
        invariant
            i <= v.len(),
            r@ == v@.take(i as int),
        decreases v.len() - i,
    {
        r.push(v[i]);
        proof {
            assert(v@.take(i as int).push(v@[i as int]) =~= v@.take(i as int + 1));
        }
        i += 1;
    }
    proof {
        assert(v@.take(v@.len() as int) =~= v@);
    }
    r
}

/// An element-wise copy of a group of ship lists.
fn copy_lists(v: &Vec<Vec<Id>>) -> (r: Vec<Vec<Id>>)
    ensures
        r@.len() == v@.len(),
        lists_view(r@) == lists_view(v@),
{
    let mut r: Vec<Vec<Id>> = Vec::new();
    let mut i: usize = 0;
    while i < v.len()
        invariant
            i <= v.len(),
            r@.len() == i,
            forall|j: int| 0 <= j < i ==> (#[trigger] r@[j])@ == v@[j]@,
        decreases v.len() - i,
    {
        r.push(copy_ids(&v[i]));
        i += 1;
    }
    proof {
        assert(lists_view(r@) =~= lists_view(v@));
    }
    r
}

/// One freshly allocated empty ship list per player slot.
fn empty_ship_lists(n: usize) -> (r: Vec<Vec<Id>>)
    ensures
        lists_view(r@) == crate::model::empty_lists(n as int),
{
    let mut r: Vec<Vec<Id>> = Vec::new();
    let mut i: usize = 0;
    while i < n
        invariant
            i <= n,
            r@.len() == i,
            forall|j: int| 0 <= j < i ==> (#[trigger] r@[j])@.len() == 0,
        decreases n - i,
    {
        r.push(Vec::new());
        i += 1;
    }
    proof {
        assert(lists_view(r@) =~~= crate::model::empty_lists(n as int));
    }
    r
}

/// Returns every piece of one ship list to the bank.
fn put_list(bank: &mut Vec<Id>, l: &Vec<Id>)
    requires
        old(bank)@.no_duplicates(),
    ensures
        final(bank)@.no_duplicates(),
        final(bank)@.to_set() == old(bank)@.to_set().union(l@.to_set()),
{
    proof {
        assert(old(bank)@.to_set().union(l@.take(0).to_set()) =~= old(bank)@.to_set());
    }
    let mut m: usize = 0;
    while m < l.len()
        invariant
            m <= l.len(),
            bank@.no_duplicates(),
            bank@.to_set() == old(bank)@.to_set().union(l@.take(m as int).to_set()),
        decreases l.len() - m,
    {
        put_id(bank, l[m]);
        proof {
            lemma_take_to_set_step(l@, m as int);
            assert(old(bank)@.to_set().union(l@.take(m as int).to_set()).insert(l@[m as int])
                =~= old(bank)@.to_set().union(l@.take(m as int + 1).to_set()));
        }
        m += 1;
    }
    proof {
        assert(l@.take(l@.len() as int) =~= l@);
    }
}

/// Returns every piece of a group of ship lists to the bank.
fn put_all(bank: &mut Vec<Id>, ls: &Vec<Vec<Id>>)
    requires
        old(bank)@.no_duplicates(),
    ensures
        final(bank)@.no_duplicates(),
        final(bank)@.to_set() == old(bank)@.to_set().union(lists_ids(lists_view(ls@))),
{
    let ghost lv = lists_view(ls@);
    proof {
        assert(lv.take(0).len() == 0);
        assert(old(bank)@.to_set().union(lists_ids(lv.take(0))) =~= old(bank)@.to_set());
    }
    let mut k: usize = 0;
    while k < ls.len()
        invariant
            k <= ls.len(),
            lv == lists_view(ls@),
            bank@.no_duplicates(),
            bank@.to_set() == old(bank)@.to_set().union(lists_ids(lv.take(k as int))),
        decreases ls.len() - k,
    {
        put_list(bank, &ls[k]);
        proof {
            lemma_lists_ids_take_step(lv, k as int);
            assert(lv[k as int] == ls@[k as int]@);
            assert(old(bank)@.to_set().union(lists_ids(lv.take(k as int))).union(
                ls@[k as int]@.to_set(),
            ) =~= old(bank)@.to_set().union(lists_ids(lv.take(k as int + 1))));
        }
        k += 1;
    }
    proof {
        assert(lv.take(lv.len() as int) =~= lv);
    }
}

impl Board {
    /// The representation invariant: the bank vector represents a set
    /// (no duplicates) and the board's view is well formed.
    pub open spec fn inv(self) -> bool {
        self.bank@.no_duplicates() && wf(self@)
    }

    /// An independent deep copy of the board, observationally identical.
    /// Callers that must be able to fall back to the pre-action state
    /// keep the original and work on the copy.
    pub fn snapshot(&self) -> (r: Board)
        ensures
            r@ == self@,
            r.bank@ == self.bank@,
    {
        let bank = copy_ids(&self.bank);
        let mut stars: Vec<Star> = Vec::new();
        let mut i: usize = 0;
        while i < self.stars.len()
            invariant
                i <= self.stars.len(),
                stars@.len() == i,
                forall|j: int| 0 <= j < i ==> (#[trigger] stars@[j])@ == self.stars@[j]@,
            decreases self.stars.len() - i,
        {
            let st = &self.stars[i];
            stars.push(Star { star: st.star, ships: copy_lists(&st.ships) });
            i += 1;
        }
        let mut homeworlds: Vec<HomeWorld> = Vec::new();
        let mut k: usize = 0;
        while k < self.homeworlds.len()
            invariant
                k <= self.homeworlds.len(),
                homeworlds@.len() == k,
                forall|j: int| 0 <= j < k ==> (#[trigger] homeworlds@[j])@ == self.homeworlds@[j]@,
            decreases self.homeworlds.len() - k,
        {
            let hw = &self.homeworlds[k];
            homeworlds.push(HomeWorld { stars: copy_ids(&hw.stars), ships: copy_lists(&hw.ships) });
            k += 1;
        }
        let r = Board {
            current_player: self.current_player,
            player_count: self.player_count,
            bank,
            stars,
            homeworlds,
        };
        proof {
            assert(stars_view(r.stars@) =~= stars_view(self.stars@));
            assert(homes_view(r.homeworlds@) =~= homes_view(self.homeworlds@));
            assert(r@ =~= self@);
        }
        r
    }

    /// Resolves a star identity to a location handle. Homeworld
    /// membership is checked first, so a homeworld-controlled star always
    /// shadows an identically named standalone star entry. The standalone
    /// collection is searched by a plain scan and keeps no order
    /// invariant; entries are addressed purely by identity.
    pub fn star_mut(&self, star: Id) -> (r: Option<LocRef>)
        ensures
            match r {
                None => resolve(self@, star) is None,
                Some(l) => resolve(self@, star) == Some(l@),
            },
    {
        let mut i: usize = 0;
        while i < self.homeworlds.len()
            invariant
                i <= self.homeworlds.len(),
                forall|j: int| 0 <= j < i ==> !(#[trigger] self@.homeworlds[j].stars).contains(star),
            decreases self.homeworlds.len() - i,
        {
            let hw = &self.homeworlds[i];
            if contains_id(&hw.stars, star) {
                proof {
                    lemma_first_home_claim(self@.homeworlds, star);
                    assert(self@.homeworlds[i as int].stars.contains(star));
                    match first_home_claim(self@.homeworlds, star) {
                        None => {
                            assert(false);
                        },
                        Some(k) => {
                            if k > i as int {
                                assert(!self@.homeworlds[i as int].stars.contains(star));
                            }
                        },
                    }
                }
                return Some(LocRef::HomeWorldRef(i));
            }
            i += 1;
        }
        proof {
            lemma_first_home_claim(self@.homeworlds, star);
            match first_home_claim(self@.homeworlds, star) {
                None => {
                },
                Some(k) => {
                    assert(!self@.homeworlds[k].stars.contains(star));
                },
            }
        }
        let mut k: usize = 0;
        while k < self.stars.len()
            invariant
                k <= self.stars.len(),
                first_home_claim(self@.homeworlds, star) is None,
                forall|j: int| 0 <= j < k ==> (#[trigger] self@.stars[j].star) != star,
            decreases self.stars.len() - k,
        {
            let st = &self.stars[k];
            if st.star == star {
                proof {
                    lemma_first_star_entry(self@.stars, star);
                    assert(self@.stars[k as int].star == star);
                    match first_star_entry(self@.stars, star) {
                        None => {
                            assert(false);
                        },
                        Some(m) => {
                            if m > k as int {
                                assert(self@.stars[k as int].star != star);
                            }
                        },
                    }
                }
                return Some(LocRef::StarRef(k));
            }
            k += 1;
        }
        proof {
            lemma_first_star_entry(self@.stars, star);
            match first_star_entry(self@.stars, star) {
                None => {
                },
                Some(m) => {
                    assert(self@.stars[m].star != star);
                },
            }
        }
        None
    }

    /// Take `ship` from the bank and append it to the resolved location's
    /// ship list at the current player's slot.
    fn apply_create_ship(&self, ship: Id, star: Id) -> (r: Option<Board>)
        requires
            self.inv(),
        ensures
            match r {
                Some(b2) => create_ship_spec(self@, ship, star) == Some(b2@) && b2.inv()
                    && b2.player_count == self.player_count,
                None => create_ship_spec(self@, ship, star) is None,
            },
    {
        let loc = match self.star_mut(star) {
            None => {
                return None;
            },
            Some(l) => l,
        };
        let mut b = self.snapshot();
        if !take_id(&mut b.bank, ship) {
            return None;
        }
        let p = self.current_player as usize;
        match loc {
            LocRef::HomeWorldRef(i) => {
                proof {
                    lemma_first_home_claim(self@.homeworlds, star);
                    assert(first_home_claim(self@.homeworlds, star) == Some(i as int));
                    assert(homes_view(b.homeworlds@) == self@.homeworlds);
                }
                let ghost hws0 = b.homeworlds@;
                let mut hw = b.homeworlds.remove(i);
                let ghost ships0 = hw.ships@;
                let mut list = hw.ships.remove(p);
                list.push(ship);
                hw.ships.insert(p, list);
                b.homeworlds.insert(i, hw);
                proof {
                    let hv = self@.homeworlds[i as int];
                    assert(hw.ships@ =~= ships0.update(p as int, list));
                    assert(lists_view(hw.ships@) =~= hv.ships.update(
                        p as int,
                        hv.ships[p as int].push(ship),
                    ));
                    assert(hw@ =~= HomeWorldView {
                        ships: hv.ships.update(p as int, hv.ships[p as int].push(ship)),
                        ..hv
                    });
                    assert(b.homeworlds@ =~= hws0.update(i as int, hw));
                    assert(homes_view(b.homeworlds@) =~= self@.homeworlds.update(i as int, hw@));
                    assert(b@ =~= create_ship_spec(self@, ship, star)->0);
                    lemma_create_ship_conserves(self@, ship, star);
                    assert forall|x: Id| crate::model::piece_count(b@, x) <= 1 by {
                        assert(crate::model::piece_count(b@, x) == crate::model::piece_count(
                            self@,
                            x,
                        ));
                    }
                }
                Some(b)
            },
            LocRef::StarRef(i) => {
                proof {
                    lemma_first_home_claim(self@.homeworlds, star);
                    lemma_first_star_entry(self@.stars, star);
                    assert(first_star_entry(self@.stars, star) == Some(i as int));
                    assert(stars_view(b.stars@) == self@.stars);
                }
                let ghost sts0 = b.stars@;
                let mut st = b.stars.remove(i);
                let ghost ships0 = st.ships@;
                let mut list = st.ships.remove(p);
                list.push(ship);
                st.ships.insert(p, list);
                b.stars.insert(i, st);
                proof {
                    let sv = self@.stars[i as int];
                    assert(st.ships@ =~= ships0.update(p as int, list));
                    assert(lists_view(st.ships@) =~= sv.ships.update(
                        p as int,
                        sv.ships[p as int].push(ship),
                    ));
                    assert(st@ =~= StarView {
                        ships: sv.ships.update(p as int, sv.ships[p as int].push(ship)),
                        ..sv
                    });
                    assert(b.stars@ =~= sts0.update(i as int, st));
                    assert(stars_view(b.stars@) =~= self@.stars.update(i as int, st@));
                    assert(b@ =~= create_ship_spec(self@, ship, star)->0);
                    lemma_create_ship_conserves(self@, ship, star);
                    assert forall|x: Id| crate::model::piece_count(b@, x) <= 1 by {
                        assert(crate::model::piece_count(b@, x) == crate::model::piece_count(
                            self@,
                            x,
                        ));
                    }
                }
                Some(b)
            },
        }
    }

    /// Remove the first occurrence of `ship` from the resolved location's
    /// ship list at the current player's slot and return it to the bank.
    fn apply_destroy_ship(&self, ship: Id, star: Id) -> (r: Option<Board>)
        requires
            self.inv(),
        ensures
            match r {
                Some(b2) => destroy_ship_spec(self@, ship, star) == Some(b2@) && b2.inv()
                    && b2.player_count == self.player_count,
                None => destroy_ship_spec(self@, ship, star) is None,
            },
    {
        let loc = match self.star_mut(star) {
            None => {
                return None;
            },
            Some(l) => l,
        };
        let p = self.current_player as usize;
        match loc {
            LocRef::HomeWorldRef(i) => {
                proof {
                    lemma_first_home_claim(self@.homeworlds, star);
                    assert(first_home_claim(self@.homeworlds, star) == Some(i as int));
                }
                let mut b = self.snapshot();
                proof {
                    assert(homes_view(b.homeworlds@) == self@.homeworlds);
                }
                let ghost hws0 = b.homeworlds@;
                let mut hw = b.homeworlds.remove(i);
                let ghost ships0 = hw.ships@;
                let mut list = hw.ships.remove(p);
                proof {
                    assert(list@ == self@.homeworlds[i as int].ships[p as int]);
                }
                let j = match find_id(&list, ship) {
                    None => {
                        return None;
                    },
                    Some(j) => j,
                };
                list.remove(j);
                hw.ships.insert(p, list);
                b.homeworlds.insert(i, hw);
                put_id(&mut b.bank, ship);
                proof {
                    let hv = self@.homeworlds[i as int];
                    let jj = first_index_of(hv.ships[p as int], ship)->0;
                    assert(jj == j as int);
                    assert(hw.ships@ =~= ships0.update(p as int, list));
                    assert(lists_view(hw.ships@) =~= hv.ships.update(
                        p as int,
                        hv.ships[p as int].remove(jj),
                    ));
                    assert(hw@ =~= HomeWorldView {
                        ships: hv.ships.update(p as int, hv.ships[p as int].remove(jj)),
                        ..hv
                    });
                    assert(b.homeworlds@ =~= hws0.update(i as int, hw));
                    assert(homes_view(b.homeworlds@) =~= self@.homeworlds.update(i as int, hw@));
                    assert(b@ =~= destroy_ship_spec(self@, ship, star)->0);
                    lemma_destroy_ship_conserves(self@, ship, star);
                    assert forall|x: Id| crate::model::piece_count(b@, x) <= 1 by {
                        assert(crate::model::piece_count(b@, x) == crate::model::piece_count(
                            self@,
                            x,
                        ));
                    }
                }
                Some(b)
            },
            LocRef::StarRef(i) => {
                proof {
                    lemma_first_home_claim(self@.homeworlds, star);
                    lemma_first_star_entry(self@.stars, star);
                    assert(first_star_entry(self@.stars, star) == Some(i as int));
                }
                let mut b = self.snapshot();
                proof {
                    assert(stars_view(b.stars@) == self@.stars);
                }
                let ghost sts0 = b.stars@;
                let mut st = b.stars.remove(i);
                let ghost ships0 = st.ships@;
                let mut list = st.ships.remove(p);
                proof {
                    assert(list@ == self@.stars[i as int].ships[p as int]);
                }
                let j = match find_id(&list, ship) {
                    None => {
                        return None;
                    },
                    Some(j) => j,
                };
                list.remove(j);
                st.ships.insert(p, list);
                b.stars.insert(i, st);
                put_id(&mut b.bank, ship);
                proof {
                    let sv = self@.stars[i as int];
                    let jj = first_index_of(sv.ships[p as int], ship)->0;
                    assert(jj == j as int);
                    assert(st.ships@ =~= ships0.update(p as int, list));
                    assert(lists_view(st.ships@) =~= sv.ships.update(
                        p as int,
                        sv.ships[p as int].remove(jj),
                    ));
                    assert(st@ =~= StarView {
                        ships: sv.ships.update(p as int, sv.ships[p as int].remove(jj)),
                        ..sv
                    });
                    assert(b.stars@ =~= sts0.update(i as int, st));
                    assert(stars_view(b.stars@) =~= self@.stars.update(i as int, st@));
                    assert(b@ =~= destroy_ship_spec(self@, ship, star)->0);
                    lemma_destroy_ship_conserves(self@, ship, star);
                    assert forall|x: Id| crate::model::piece_count(b@, x) <= 1 by {
                        assert(crate::model::piece_count(b@, x) == crate::model::piece_count(
                            self@,
                            x,
                        ));
                    }
                }
                Some(b)
            },
        }
    }

    /// Take `star` from the bank and append a new standalone star with
    /// that identity and empty ship lists. The new entry is appended at
    /// the end of the collection; lookup never relies on any order.
    fn apply_create_star(&self, star: Id) -> (r: Option<Board>)
        requires
            self.inv(),
        ensures
            match r {
                Some(b2) => create_star_spec(self@, star) == Some(b2@) && b2.inv()
                    && b2.player_count == self.player_count,
                None => create_star_spec(self@, star) is None,
            },
    {
        let mut b = self.snapshot();
        if !take_id(&mut b.bank, star) {
            return None;
        }
        let ships = empty_ship_lists(self.player_count as usize);
        let ghost sts0 = b.stars@;
        b.stars.push(Star { star, ships });
        proof {
            assert(stars_view(b.stars@) =~= self@.stars.push(
                StarView { star, ships: crate::model::empty_lists(self@.player_count) },
            ));
            assert(b@ =~= create_star_spec(self@, star)->0);
            lemma_create_star_conserves(self@, star);
            assert forall|x: Id| crate::model::piece_count(b@, x) <= 1 by {
                assert(crate::model::piece_count(b@, x) == crate::model::piece_count(self@, x));
            }
        }
        Some(b)
    }

    /// Destroy the location `star` resolves to, returning its pieces to
    /// the bank; a homeworld that loses its last controlled star is
    /// eliminated and its ships return to the bank as well.
    fn apply_destroy_star(&self, star: Id) -> (r: Option<Board>)
        requires
            self.inv(),
        ensures
            match r {
                Some(b2) => destroy_star_spec(self@, star) == Some(b2@) && b2.inv()
                    && b2.player_count == self.player_count,
                None => destroy_star_spec(self@, star) is None,
            },
    {
        let loc = match self.star_mut(star) {
            None => {
                return None;
            },
            Some(l) => l,
        };
        let mut b = self.snapshot();
        match loc {
            LocRef::StarRef(i) => {
                proof {
                    lemma_first_home_claim(self@.homeworlds, star);
                    lemma_first_star_entry(self@.stars, star);
                    assert(first_star_entry(self@.stars, star) == Some(i as int));
                    assert(stars_view(b.stars@) == self@.stars);
                }
                let ghost sts0 = b.stars@;
                let st = b.stars.remove(i);
                put_all(&mut b.bank, &st.ships);
                put_id(&mut b.bank, st.star);
                proof {
                    let sv = self@.stars[i as int];
                    assert(st@ == sv);
                    sts0.remove_ensures(i as int);
                    self@.stars.remove_ensures(i as int);
                    assert(stars_view(b.stars@) =~= self@.stars.remove(i as int));
                    assert(b@ =~= destroy_star_spec(self@, star)->0);
                    lemma_destroy_star_conserves(self@, star);
                    assert forall|x: Id| crate::model::piece_count(b@, x) <= 1 by {
                        assert(crate::model::piece_count(b@, x) == crate::model::piece_count(
                            self@,
                            x,
                        ));
                    }
                }
                Some(b)
            },
            LocRef::HomeWorldRef(i) => {
                proof {
                    lemma_first_home_claim(self@.homeworlds, star);
                    assert(first_home_claim(self@.homeworlds, star) == Some(i as int));
                    assert(homes_view(b.homeworlds@) == self@.homeworlds);
                }
                let ghost hws0 = b.homeworlds@;
                let mut hw = b.homeworlds.remove(i);
                let ghost hv = self@.homeworlds[i as int];
                let j = match find_id(&hw.stars, star) {
                    None => {
                        proof {
                            lemma_first_index_of(hv.stars, star);
                            assert(false);
                        }
                        return None;
                    },
                    Some(j) => j,
                };
                hw.stars.remove(j);
                put_id(&mut b.bank, star);
                proof {
                    lemma_first_index_of(hv.stars, star);
                    assert(first_index_of(hv.stars, star) == Some(j as int));
                    assert(hv.stars[j as int] == star);
                }
                let ghost remaining = hv.stars.remove(j as int);
                if hw.stars.is_empty() {
                    put_all(&mut b.bank, &hw.ships);
                    let n = hw.ships.len();
                    hw.ships = empty_ship_lists(n);
                    b.homeworlds.insert(i, hw);
                    proof {
                        assert(remaining.len() == 0);
                        assert(homes_view(b.homeworlds@)[i as int] =~= HomeWorldView {
                            stars: remaining,
                            ships: crate::model::empty_lists(hv.ships.len() as int),
                        });
                        assert(homes_view(b.homeworlds@) =~= self@.homeworlds.update(
                            i as int,
                            HomeWorldView {
                                stars: remaining,
                                ships: crate::model::empty_lists(hv.ships.len() as int),
                            },
                        ));
                        assert(b@ =~= destroy_star_spec(self@, star)->0);
                    }
                } else {
                    b.homeworlds.insert(i, hw);
                    proof {
                        assert(remaining.len() > 0);
                        assert(homes_view(b.homeworlds@)[i as int] =~= HomeWorldView {
                            stars: remaining,
                            ..hv
                        });
                        assert(homes_view(b.homeworlds@) =~= self@.homeworlds.update(
                            i as int,
                            HomeWorldView { stars: remaining, ..hv },
                        ));
                        assert(b@ =~= destroy_star_spec(self@, star)->0);
                    }
                }
                proof {
                    lemma_destroy_star_conserves(self@, star);
                    assert forall|x: Id| crate::model::piece_count(b@, x) <= 1 by {
                        assert(crate::model::piece_count(b@, x) == crate::model::piece_count(
                            self@,
                            x,
                        ));
                    }
                }
                Some(b)
            },
        }
    }

    /// The sole mutating entry point: applies one action and returns the
    /// next board, or `None` when the action is rejected.
    ///
    /// The board is taken by shared reference and never mutated, so on
    /// failure the caller still holds the authoritative pre-action state.
    /// In particular a move whose destroy step succeeds but whose create
    /// step fails produces no board at all: the ship is never left
    /// stranded in the bank. Rule violations are ordinary control flow,
    /// not panics.
    pub fn apply_action(&self, action: Action) -> (r: Option<Board>)
        requires
            self.inv(),
        ensures
            match r {
                Some(b2) => apply_spec(self@, action) == Some(b2@) && b2.inv()
                    && b2.player_count == self.player_count,
                None => apply_spec(self@, action) is None,
            },
    {
        match action {
            Action::CreateShip { ship, star } => self.apply_create_ship(ship, star),
            Action::DestroyShip { ship, star } => self.apply_destroy_ship(ship, star),
            Action::MoveShip { ship, start_star, end_star } => match self.apply_destroy_ship(
                ship,
                start_star,
            ) {
                None => None,
                Some(b1) => b1.apply_create_ship(ship, end_star),
            },
            Action::CreateStar { star } => self.apply_create_star(star),
            Action::DestroyStar { star } => self.apply_destroy_star(star),
        }
    }
}

} // verus!
