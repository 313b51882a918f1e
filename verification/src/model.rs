//! The mathematical model of the engine: spec-level views of the board,
//! location resolution, the transition function, and the piece-counting
//! functions that state the conservation invariant.

use vstd::prelude::*;
use crate::logic::{Action, Id};

verus! {

/// Spec-level view of a standalone star: its own piece identity and one
/// ship list per player slot.
#[verifier::ext_equal]
pub struct StarView {
    pub star: Id,
    pub ships: Seq<Seq<Id>>,
}

/// Spec-level view of a player's home system: the star identities it
/// controls and one ship list per player slot. An empty `stars` sequence
/// marks an eliminated player's home; the entry itself persists.
#[verifier::ext_equal]
pub struct HomeWorldView {
    pub stars: Seq<Id>,
    pub ships: Seq<Seq<Id>>,
}

/// Spec-level view of the whole game state.
#[verifier::ext_equal]
pub struct BoardView {
    pub current_player: int,
    pub player_count: int,
    pub bank: Set<Id>,
    pub stars: Seq<StarView>,
    pub homeworlds: Seq<HomeWorldView>,
}

/// Where a star identity resolved to: a homeworld (by player slot) or a
/// standalone star (by index in the star collection).
pub enum Place {
    AtHome(int),
    AtStar(int),
}

/// Index of the first homeworld whose controlled stars contain `star`,
/// if any.
pub open spec fn first_home_claim(hws: Seq<HomeWorldView>, star: Id) -> Option<int>
    decreases hws.len(),
{
    if hws.len() == 0 {
        None
    } else if hws[0].stars.contains(star) {
        Some(0)
    } else {
        match first_home_claim(hws.drop_first(), star) {
            None => None,
            Some(i) => Some(i + 1),
        }
    }
}

/// Index of the first standalone star whose identity is `star`, if any.
pub open spec fn first_star_entry(stars: Seq<StarView>, star: Id) -> Option<int>
    decreases stars.len(),
{
    if stars.len() == 0 {
        None
    } else if stars[0].star == star {
        Some(0)
    } else {
        match first_star_entry(stars.drop_first(), star) {
            None => None,
            Some(i) => Some(i + 1),
        }
    }
}

/// Index of the first occurrence of `x` in `s`, if any.
pub open spec fn first_index_of(s: Seq<Id>, x: Id) -> Option<int>
    decreases s.len(),
{
    if s.len() == 0 {
        None
    } else if s[0] == x {
        Some(0)
    } else {
        match first_index_of(s.drop_first(), x) {
            None => None,
            Some(i) => Some(i + 1),
        }
    }
}

/// Resolves a star identity to a location. Homeworld membership is
/// checked first: a homeworld-controlled star always shadows an
/// identically named standalone star entry.
pub open spec fn resolve(b: BoardView, star: Id) -> Option<Place> {
    match first_home_claim(b.homeworlds, star) {
        Some(i) => Some(Place::AtHome(i)),
        None => match first_star_entry(b.stars, star) {
            Some(i) => Some(Place::AtStar(i)),
            None => None,
        },
    }
}

/// One empty ship list per player slot.
pub open spec fn empty_lists(n: int) -> Seq<Seq<Id>> {
    Seq::new(n as nat, |i: int| Seq::empty())
}

/// The set of all ship identities held across a group of per-player lists.
pub open spec fn lists_ids(ls: Seq<Seq<Id>>) -> Set<Id>
    decreases ls.len(),
{
    if ls.len() == 0 {
        Set::empty()
    } else {
        lists_ids(ls.drop_last()).union(ls.last().to_set())
    }
}

/// Take `ship` from the bank and append it to the resolved location's
/// ship list at the current player's slot. Fails if the ship is not in
/// the bank or the location does not resolve.
pub open spec fn create_ship_spec(b: BoardView, ship: Id, star: Id) -> Option<BoardView> {
    if !b.bank.contains(ship) {
        None
    } else {
        let p = b.current_player;
        match resolve(b, star) {
            None => None,
            Some(Place::AtHome(i)) => {
                let hw = b.homeworlds[i];
                Some(BoardView {
                    bank: b.bank.remove(ship),
                    homeworlds: b.homeworlds.update(i, HomeWorldView {
                        ships: hw.ships.update(p, hw.ships[p].push(ship)),
                        ..hw
                    }),
                    ..b
                })
            },
            Some(Place::AtStar(i)) => {
                let st = b.stars[i];
                Some(BoardView {
                    bank: b.bank.remove(ship),
                    stars: b.stars.update(i, StarView {
                        ships: st.ships.update(p, st.ships[p].push(ship)),
                        ..st
                    }),
                    ..b
                })
            },
        }
    }
}

/// Remove the first occurrence of `ship` from the resolved location's
/// ship list at the current player's slot and return it to the bank.
/// Fails if the location does not resolve or the ship is not there.
pub open spec fn destroy_ship_spec(b: BoardView, ship: Id, star: Id) -> Option<BoardView> {
    let p = b.current_player;
    match resolve(b, star) {
        None => None,
        Some(Place::AtHome(i)) => {
            let hw = b.homeworlds[i];
            match first_index_of(hw.ships[p], ship) {
                None => None,
                Some(j) => Some(BoardView {
                    bank: b.bank.insert(ship),
                    homeworlds: b.homeworlds.update(i, HomeWorldView {
                        ships: hw.ships.update(p, hw.ships[p].remove(j)),
                        ..hw
                    }),
                    ..b
                }),
            }
        },
        Some(Place::AtStar(i)) => {
            let st = b.stars[i];
            match first_index_of(st.ships[p], ship) {
                None => None,
                Some(j) => Some(BoardView {
                    bank: b.bank.insert(ship),
                    stars: b.stars.update(i, StarView {
                        ships: st.ships.update(p, st.ships[p].remove(j)),
                        ..st
                    }),
                    ..b
                }),
            }
        },
    }
}

/// A move is the destroy step at the start star composed sequentially
/// with the create step at the end star.
pub open spec fn move_ship_spec(b: BoardView, ship: Id, start_star: Id, end_star: Id) -> Option<
    BoardView,
> {
    match destroy_ship_spec(b, ship, start_star) {
        None => None,
        Some(b1) => create_ship_spec(b1, ship, end_star),
    }
}

/// Take `star` from the bank and append a new standalone star with that
/// identity and empty per-player ship lists. Fails if the piece is not
/// in the bank.
pub open spec fn create_star_spec(b: BoardView, star: Id) -> Option<BoardView> {
    if !b.bank.contains(star) {
        None
    } else {
        Some(BoardView {
            bank: b.bank.remove(star),
            stars: b.stars.push(StarView { star, ships: empty_lists(b.player_count) }),
            ..b
        })
    }
}

/// Destroy the location that `star` resolves to. A standalone star is
/// removed whole, its ships and its own identity returned to the bank.
/// A homeworld-controlled star is removed from the homeworld's list and
/// returned to the bank; if the list becomes empty the home system is
/// eliminated and all its ships return to the bank as well.
pub open spec fn destroy_star_spec(b: BoardView, star: Id) -> Option<BoardView> {
    match resolve(b, star) {
        None => None,
        Some(Place::AtStar(i)) => {
            let st = b.stars[i];
            Some(BoardView {
                bank: b.bank.union(lists_ids(st.ships)).insert(st.star),
                stars: b.stars.remove(i),
                ..b
            })
        },
        Some(Place::AtHome(i)) => {
            let hw = b.homeworlds[i];
            match first_index_of(hw.stars, star) {
                None => None,
                Some(j) => {
                    let remaining = hw.stars.remove(j);
                    if remaining.len() == 0 {
                        Some(BoardView {
                            bank: b.bank.insert(star).union(lists_ids(hw.ships)),
                            homeworlds: b.homeworlds.update(i, HomeWorldView {
                                stars: remaining,
                                ships: empty_lists(hw.ships.len() as int),
                            }),
                            ..b
                        })
                    } else {
                        Some(BoardView {
                            bank: b.bank.insert(star),
                            homeworlds: b.homeworlds.update(i, HomeWorldView {
                                stars: remaining,
                                ..hw
                            }),
                            ..b
                        })
                    }
                },
            }
        },
    }
}

/// The transition function: maps a board and an action to the next board,
/// or to `None` when the action is rejected.
pub open spec fn apply_spec(b: BoardView, a: Action) -> Option<BoardView> {
    match a {
        Action::CreateShip { ship, star } => create_ship_spec(b, ship, star),
        Action::DestroyShip { ship, star } => destroy_ship_spec(b, ship, star),
        Action::MoveShip { ship, start_star, end_star } => move_ship_spec(
            b,
            ship,
            start_star,
            end_star,
        ),
        Action::CreateStar { star } => create_star_spec(b, star),
        Action::DestroyStar { star } => destroy_star_spec(b, star),
    }
}

/// Number of occurrences of `x` in one ship list.
pub open spec fn id_count(s: Seq<Id>, x: Id) -> int
    decreases s.len(),
{
    if s.len() == 0 {
        0
    } else {
        id_count(s.drop_last(), x) + if s.last() == x {
            1int
        } else {
            0
        }
    }
}

/// Number of occurrences of `x` across a group of per-player lists.
pub open spec fn lists_count(ls: Seq<Seq<Id>>, x: Id) -> int
    decreases ls.len(),
{
    if ls.len() == 0 {
        0
    } else {
        lists_count(ls.drop_last(), x) + id_count(ls.last(), x)
    }
}

/// Number of occurrences of `x` in one standalone star: its own identity
/// plus its ship lists.
pub open spec fn star_count(st: StarView, x: Id) -> int {
    (if st.star == x {
        1int
    } else {
        0
    }) + lists_count(st.ships, x)
}

/// Number of occurrences of `x` across the standalone star collection.
pub open spec fn stars_count(ss: Seq<StarView>, x: Id) -> int
    decreases ss.len(),
{
    if ss.len() == 0 {
        0
    } else {
        stars_count(ss.drop_last(), x) + star_count(ss.last(), x)
    }
}

/// Number of occurrences of `x` in one home system: its controlled stars
/// plus its ship lists.
pub open spec fn home_count(hw: HomeWorldView, x: Id) -> int {
    id_count(hw.stars, x) + lists_count(hw.ships, x)
}

/// Number of occurrences of `x` across all home systems.
pub open spec fn homes_count(hws: Seq<HomeWorldView>, x: Id) -> int
    decreases hws.len(),
{
    if hws.len() == 0 {
        0
    } else {
        homes_count(hws.drop_last(), x) + home_count(hws.last(), x)
    }
}

/// Number of occurrences of `x` in the bank.
pub open spec fn bank_count(bank: Set<Id>, x: Id) -> int {
    if bank.contains(x) {
        1int
    } else {
        0
    }
}

/// Total number of places on the board holding the piece `x`.
pub open spec fn piece_count(b: BoardView, x: Id) -> int {
    bank_count(b.bank, x) + stars_count(b.stars, x) + homes_count(b.homeworlds, x)
}

/// Closed-universe partition: no piece appears in more than one place.
pub open spec fn all_distinct(b: BoardView) -> bool {
    forall|x: Id| piece_count(b, x) <= 1
}

/// Structural invariants: the current player index is valid, there is one
/// home system per player slot, and every ship-list group is sized
/// exactly to the player count.
pub open spec fn structure_ok(b: BoardView) -> bool {
    &&& 0 <= b.current_player < b.player_count
    &&& b.homeworlds.len() == b.player_count
    &&& forall|i: int|
        0 <= i < b.stars.len() ==> (#[trigger] b.stars[i].ships).len() == b.player_count
    &&& forall|i: int|
        0 <= i < b.homeworlds.len() ==> (#[trigger] b.homeworlds[i].ships).len()
            == b.player_count
}

/// A well-formed board: structurally sound, with every piece in at most
/// one place.
pub open spec fn wf(b: BoardView) -> bool {
    structure_ok(b) && all_distinct(b)
}

} // verus!
