//! The engine's laws, stated and proved at the level of the model:
//! conservation of pieces, the create/destroy round trip, move
//! decomposition, home elimination, rejection of impossible actions, and
//! the homeworld-first resolution tie-break.

use vstd::prelude::*;
use crate::logic::{Action, Id};
use crate::model::{
    BoardView, HomeWorldView, Place, StarView, apply_spec, bank_count, create_ship_spec,
    create_star_spec, destroy_ship_spec, destroy_star_spec, empty_lists, first_home_claim,
    first_index_of, homes_count, id_count, lists_ids, piece_count, resolve, stars_count,
    structure_ok, wf,
};
use crate::lemmas::{
    lemma_first_home_claim, lemma_first_home_claim_congruent, lemma_first_index_of,
    lemma_first_star_entry, lemma_first_star_entry_congruent, lemma_homes_count_member,
    lemma_homes_count_nonneg, lemma_homes_count_update, lemma_id_count_contains,
    lemma_id_count_nonneg, lemma_id_count_push, lemma_id_count_remove, lemma_lists_count_empty,
    lemma_lists_count_member, lemma_lists_count_nonneg, lemma_lists_count_update,
    lemma_lists_ids_count, lemma_stars_count_member, lemma_stars_count_nonneg,
    lemma_stars_count_push, lemma_stars_count_remove, lemma_stars_count_update,
};

verus! {

/// A move is exactly its destroy step at the start star composed with
/// its create step at the end star, in that order.
pub proof fn lemma_move_decomposition(b: BoardView, ship: Id, start_star: Id, end_star: Id)
    ensures
        apply_spec(b, Action::MoveShip { ship, start_star, end_star }) == (match apply_spec(
            b,
            Action::DestroyShip { ship, star: start_star },
        ) {
            None => None,
            Some(b1) => apply_spec(b1, Action::CreateShip { ship, star: end_star }),
        }),
{
}

/// Creating a ship that is not in the bank is rejected, whatever the
/// rest of the board looks like.
pub proof fn lemma_create_ship_requires_bank(b: BoardView, ship: Id, star: Id)
    requires
        !b.bank.contains(ship),
    ensures
        apply_spec(b, Action::CreateShip { ship, star }) is None,
{
}

/// Resolution prefers homeworlds: whenever any homeworld controls `x`,
/// resolution answers with a homeworld, even if a standalone star entry
/// erroneously carries the same identity.
pub proof fn lemma_resolution_tie_break(b: BoardView, x: Id)
    requires
        exists|i: int|
            0 <= i < b.homeworlds.len() && (#[trigger] b.homeworlds[i].stars).contains(x),
    ensures
        resolve(b, x) matches Some(Place::AtHome(i)) && 0 <= i < b.homeworlds.len()
            && b.homeworlds[i].stars.contains(x),
{
    lemma_first_home_claim(b.homeworlds, x);
    match first_home_claim(b.homeworlds, x) {
        None => {
            let i = choose|i: int|
                0 <= i < b.homeworlds.len() && (#[trigger] b.homeworlds[i].stars).contains(x);
            assert(!b.homeworlds[i].stars.contains(x));
        },
        Some(i) => {
        },
    }
}

/// Destroying the last controlled star of a home system eliminates it:
/// the controlled-star list and every ship list empty out, and the star
/// together with all the system's ships return to the bank. The rest of
/// the board is untouched.
pub proof fn lemma_home_elimination(b: BoardView, i: int, h: Id)
    requires
        0 <= i < b.homeworlds.len(),
        resolve(b, h) == Some(Place::AtHome(i)),
        b.homeworlds[i].stars == seq![h],
    ensures
        ({
            let r = destroy_star_spec(b, h);
            let hw = b.homeworlds[i];
            &&& r matches Some(b2)
            &&& b2.homeworlds.len() == b.homeworlds.len()
            &&& b2.homeworlds[i].stars.len() == 0
            &&& b2.homeworlds[i].ships.len() == hw.ships.len()
            &&& forall|p: int|
                0 <= p < b2.homeworlds[i].ships.len() ==> (#[trigger] b2.homeworlds[i].ships[p]).len()
                    == 0
            &&& forall|j: int| 0 <= j < b.homeworlds.len() && j != i ==> b2.homeworlds[j] == b.homeworlds[j]
            &&& b2.bank == b.bank.insert(h).union(lists_ids(hw.ships))
            &&& b2.stars == b.stars
            &&& b2.current_player == b.current_player
            &&& b2.player_count == b.player_count
        }),
{
    let hw = b.homeworlds[i];
    assert(hw.stars[0] == h);
    assert(first_index_of(hw.stars, h) == Some(0int));
    assert(hw.stars.remove(0) =~= Seq::<Id>::empty());
}

/// Creating a ship never creates or destroys pieces: every occurrence
/// count on the board is preserved, as is the board's structure.
pub proof fn lemma_create_ship_conserves(b: BoardView, ship: Id, star: Id)
    requires
        structure_ok(b),
        create_ship_spec(b, ship, star) is Some,
    ensures
        ({
            let b2 = create_ship_spec(b, ship, star)->0;
            &&& structure_ok(b2)
            &&& b2.player_count == b.player_count
            &&& forall|x: Id| #[trigger] piece_count(b2, x) == piece_count(b, x)
        }),
{
    let b2 = create_ship_spec(b, ship, star)->0;
    let p = b.current_player;
    match resolve(b, star) {
        None => {
            assert(false);
        },
        Some(Place::AtHome(i)) => {
            lemma_first_home_claim(b.homeworlds, star);
            let hw = b.homeworlds[i];
            let hw2 = HomeWorldView {
                ships: hw.ships.update(p, hw.ships[p].push(ship)),
                ..hw
            };
            assert forall|x: Id| #[trigger] piece_count(b2, x) == piece_count(b, x) by {
                lemma_homes_count_update(b.homeworlds, i, hw2, x);
                lemma_lists_count_update(hw.ships, p, hw.ships[p].push(ship), x);
                lemma_id_count_push(hw.ships[p], ship, x);
            }
        },
        Some(Place::AtStar(i)) => {
            lemma_first_home_claim(b.homeworlds, star);
            lemma_first_star_entry(b.stars, star);
            let st = b.stars[i];
            let st2 = StarView { ships: st.ships.update(p, st.ships[p].push(ship)), ..st };
            assert forall|x: Id| #[trigger] piece_count(b2, x) == piece_count(b, x) by {
                lemma_stars_count_update(b.stars, i, st2, x);
                lemma_lists_count_update(st.ships, p, st.ships[p].push(ship), x);
                lemma_id_count_push(st.ships[p], ship, x);
            }
        },
    }
}

/// Creating a standalone star moves exactly one piece from the bank to
/// the star collection, preserving every occurrence count.
pub proof fn lemma_create_star_conserves(b: BoardView, star: Id)
    requires
        structure_ok(b),
        create_star_spec(b, star) is Some,
    ensures
        ({
            let b2 = create_star_spec(b, star)->0;
            &&& structure_ok(b2)
            &&& b2.player_count == b.player_count
            &&& forall|x: Id| #[trigger] piece_count(b2, x) == piece_count(b, x)
        }),
{
    let b2 = create_star_spec(b, star)->0;
    let st = StarView { star, ships: empty_lists(b.player_count) };
    assert forall|x: Id| #[trigger] piece_count(b2, x) == piece_count(b, x) by {
        lemma_stars_count_push(b.stars, st, x);
        lemma_lists_count_empty(b.player_count, x);
    }
    assert forall|i: int|
        0 <= i < b2.stars.len() implies (#[trigger] b2.stars[i].ships).len()
        == b2.player_count by {
        if i < b.stars.len() {
            assert(b2.stars[i] == b.stars[i]);
        } else {
            assert(b2.stars[i] == st);
        }
    }
}

/// Destroying a ship moves it from its location's ship list back to the
/// bank, preserving every occurrence count. Distinctness matters here:
/// it guarantees the ship was not already in the bank.
pub proof fn lemma_destroy_ship_conserves(b: BoardView, ship: Id, star: Id)
    requires
        wf(b),
        destroy_ship_spec(b, ship, star) is Some,
    ensures
        ({
            let b2 = destroy_ship_spec(b, ship, star)->0;
            &&& structure_ok(b2)
            &&& b2.player_count == b.player_count
            &&& forall|x: Id| #[trigger] piece_count(b2, x) == piece_count(b, x)
        }),
{
    let b2 = destroy_ship_spec(b, ship, star)->0;
    let p = b.current_player;
    match resolve(b, star) {
        None => {
            assert(false);
        },
        Some(Place::AtHome(i)) => {
            lemma_first_home_claim(b.homeworlds, star);
            let hw = b.homeworlds[i];
            let j = first_index_of(hw.ships[p], ship)->0;
            lemma_first_index_of(hw.ships[p], ship);
            let hw2 = HomeWorldView {
                ships: hw.ships.update(p, hw.ships[p].remove(j)),
                ..hw
            };
            assert forall|x: Id| #[trigger] piece_count(b2, x) == piece_count(b, x) by {
                lemma_homes_count_update(b.homeworlds, i, hw2, x);
                lemma_lists_count_update(hw.ships, p, hw.ships[p].remove(j), x);
                lemma_id_count_remove(hw.ships[p], j, x);
                if x == ship {
                    // The ship sits in a homeworld ship list, so under
                    // distinctness the bank cannot hold it too.
                    lemma_id_count_contains(hw.ships[p], ship);
                    lemma_lists_count_member(hw.ships, p, ship);
                    lemma_id_count_nonneg(hw.stars, ship);
                    lemma_homes_count_member(b.homeworlds, i, ship);
                    lemma_stars_count_nonneg(b.stars, ship);
                    assert(piece_count(b, ship) <= 1);
                    assert(!b.bank.contains(ship));
                }
            }
        },
        Some(Place::AtStar(i)) => {
            lemma_first_home_claim(b.homeworlds, star);
            lemma_first_star_entry(b.stars, star);
            let st = b.stars[i];
            let j = first_index_of(st.ships[p], ship)->0;
            lemma_first_index_of(st.ships[p], ship);
            let st2 = StarView { ships: st.ships.update(p, st.ships[p].remove(j)), ..st };
            assert forall|x: Id| #[trigger] piece_count(b2, x) == piece_count(b, x) by {
                lemma_stars_count_update(b.stars, i, st2, x);
                lemma_lists_count_update(st.ships, p, st.ships[p].remove(j), x);
                lemma_id_count_remove(st.ships[p], j, x);
                if x == ship {
                    lemma_id_count_contains(st.ships[p], ship);
                    lemma_lists_count_member(st.ships, p, ship);
                    lemma_stars_count_member(b.stars, i, ship);
                    lemma_lists_count_nonneg(st.ships, ship);
                    lemma_homes_count_nonneg(b.homeworlds, ship);
                    assert(piece_count(b, ship) <= 1);
                    assert(!b.bank.contains(ship));
                }
            }
        },
    }
}

/// Destroying a star returns its identity, and every ship it held, to
/// the bank, preserving every occurrence count.
pub proof fn lemma_destroy_star_conserves(b: BoardView, star: Id)
    requires
        wf(b),
        destroy_star_spec(b, star) is Some,
    ensures
        ({
            let b2 = destroy_star_spec(b, star)->0;
            &&& structure_ok(b2)
            &&& b2.player_count == b.player_count
            &&& forall|x: Id| #[trigger] piece_count(b2, x) == piece_count(b, x)
        }),
{
    let b2 = destroy_star_spec(b, star)->0;
    match resolve(b, star) {
        None => {
            assert(false);
        },
        Some(Place::AtStar(i)) => {
            lemma_first_home_claim(b.homeworlds, star);
            lemma_first_star_entry(b.stars, star);
            let st = b.stars[i];
            assert forall|x: Id| #[trigger] piece_count(b2, x) == piece_count(b, x) by {
                lemma_stars_count_remove(b.stars, i, x);
                lemma_stars_count_member(b.stars, i, x);
                lemma_stars_count_nonneg(b.stars, x);
                lemma_homes_count_nonneg(b.homeworlds, x);
                lemma_lists_ids_count(st.ships, x);
                lemma_lists_count_nonneg(st.ships, x);
                assert(piece_count(b, x) <= 1);
                assert(b2.bank.contains(x) == (b.bank.contains(x) || lists_ids(st.ships).contains(
                    x,
                ) || x == st.star));
            }
            assert forall|k: int|
                0 <= k < b2.stars.len() implies (#[trigger] b2.stars[k].ships).len()
                == b2.player_count by {
                b.stars.remove_ensures(i);
                if k < i {
                    assert(b2.stars[k] == b.stars[k]);
                } else {
                    assert(b2.stars[k] == b.stars[k + 1]);
                }
            }
        },
        Some(Place::AtHome(i)) => {
            lemma_first_home_claim(b.homeworlds, star);
            let hw = b.homeworlds[i];
            lemma_first_index_of(hw.stars, star);
            let j = first_index_of(hw.stars, star)->0;
            let remaining = hw.stars.remove(j);
            if remaining.len() == 0 {
                let hw2 = HomeWorldView {
                    stars: remaining,
                    ships: empty_lists(hw.ships.len() as int),
                };
                assert forall|x: Id| #[trigger] piece_count(b2, x) == piece_count(b, x) by {
                    lemma_homes_count_update(b.homeworlds, i, hw2, x);
                    lemma_id_count_remove(hw.stars, j, x);
                    lemma_lists_count_empty(hw.ships.len() as int, x);
                    lemma_homes_count_member(b.homeworlds, i, x);
                    lemma_homes_count_nonneg(b.homeworlds, x);
                    lemma_stars_count_nonneg(b.stars, x);
                    lemma_id_count_nonneg(hw.stars, x);
                    lemma_id_count_contains(hw.stars, x);
                    lemma_lists_count_nonneg(hw.ships, x);
                    lemma_lists_ids_count(hw.ships, x);
                    assert(piece_count(b, x) <= 1);
                    assert(id_count(remaining, x) == 0);
                    assert(b2.bank.contains(x) == (b.bank.contains(x) || x == star || lists_ids(
                        hw.ships,
                    ).contains(x)));
                }
            } else {
                let hw2 = HomeWorldView { stars: remaining, ..hw };
                assert forall|x: Id| #[trigger] piece_count(b2, x) == piece_count(b, x) by {
                    lemma_homes_count_update(b.homeworlds, i, hw2, x);
                    lemma_id_count_remove(hw.stars, j, x);
                    lemma_homes_count_member(b.homeworlds, i, x);
                    lemma_homes_count_nonneg(b.homeworlds, x);
                    lemma_stars_count_nonneg(b.stars, x);
                    lemma_id_count_contains(hw.stars, x);
                    lemma_lists_count_nonneg(hw.ships, x);
                    assert(piece_count(b, x) <= 1);
                }
            }
        },
    }
}

/// Round trip: on a well-formed board, creating a ship somewhere and
/// then destroying it at the same location restores the board exactly.
pub proof fn lemma_create_destroy_round_trip(b: BoardView, ship: Id, star: Id)
    requires
        wf(b),
        b.bank.contains(ship),
        resolve(b, star) is Some,
    ensures
        create_ship_spec(b, ship, star) matches Some(b1) && destroy_ship_spec(b1, ship, star)
            == Some(b),
{
    let p = b.current_player;
    let b1 = create_ship_spec(b, ship, star)->0;
    // The ship comes from the bank, so under distinctness no ship list
    // holds it yet.
    assert(bank_count(b.bank, ship) == 1);
    lemma_stars_count_nonneg(b.stars, ship);
    lemma_homes_count_nonneg(b.homeworlds, ship);
    assert(piece_count(b, ship) <= 1);
    assert(stars_count(b.stars, ship) == 0 && homes_count(b.homeworlds, ship) == 0);
    match resolve(b, star) {
        None => {
            assert(false);
        },
        Some(Place::AtHome(i)) => {
            lemma_first_home_claim(b.homeworlds, star);
            let hw = b.homeworlds[i];
            let grown = hw.ships[p].push(ship);
            let hw2 = HomeWorldView { ships: hw.ships.update(p, grown), ..hw };
            assert(b1.homeworlds == b.homeworlds.update(i, hw2));
            // Resolution only reads star identities, which are untouched.
            assert forall|k: int|
                0 <= k < b1.homeworlds.len() implies (#[trigger] b1.homeworlds[k].stars)
                == b.homeworlds[k].stars by {}
            lemma_first_home_claim_congruent(b1.homeworlds, b.homeworlds, star);
            assert(resolve(b1, star) == Some(Place::AtHome(i)));
            // The appended ship is the first (and only) occurrence in the
            // grown list.
            lemma_homes_count_member(b.homeworlds, i, ship);
            lemma_id_count_nonneg(hw.stars, ship);
            lemma_lists_count_member(hw.ships, p, ship);
            lemma_id_count_contains(hw.ships[p], ship);
            assert(!hw.ships[p].contains(ship));
            lemma_first_index_of(grown, ship);
            assert(grown[hw.ships[p].len() as int] == ship);
            match first_index_of(grown, ship) {
                None => {
                    assert(grown.contains(ship));
                    assert(false);
                },
                Some(j) => {
                    if j < hw.ships[p].len() {
                        assert(grown[j] == hw.ships[p][j]);
                        assert(false);
                    }
                    assert(j == hw.ships[p].len());
                    assert(grown.remove(j) =~= hw.ships[p]);
                },
            }
            let back = destroy_ship_spec(b1, ship, star)->0;
            assert(hw2.ships.update(p, grown.remove(hw.ships[p].len() as int)) =~= hw.ships);
            assert(back.homeworlds[i] =~= hw);
            assert(back.homeworlds =~= b.homeworlds);
            assert(back.bank =~= b.bank);
            assert(back =~= b);
        },
        Some(Place::AtStar(i)) => {
            lemma_first_home_claim(b.homeworlds, star);
            lemma_first_star_entry(b.stars, star);
            let st = b.stars[i];
            let grown = st.ships[p].push(ship);
            let st2 = StarView { ships: st.ships.update(p, grown), ..st };
            assert(b1.stars == b.stars.update(i, st2));
            assert(b1.homeworlds == b.homeworlds);
            assert forall|k: int|
                0 <= k < b1.stars.len() implies (#[trigger] b1.stars[k].star)
                == b.stars[k].star by {}
            lemma_first_star_entry_congruent(b1.stars, b.stars, star);
            assert(resolve(b1, star) == Some(Place::AtStar(i)));
            lemma_stars_count_member(b.stars, i, ship);
            lemma_lists_count_member(st.ships, p, ship);
            lemma_id_count_contains(st.ships[p], ship);
            assert(!st.ships[p].contains(ship));
            lemma_first_index_of(grown, ship);
            assert(grown[st.ships[p].len() as int] == ship);
            match first_index_of(grown, ship) {
                None => {
                    assert(grown.contains(ship));
                    assert(false);
                },
                Some(j) => {
                    if j < st.ships[p].len() {
                        assert(grown[j] == st.ships[p][j]);
                        assert(false);
                    }
                    assert(j == st.ships[p].len());
                    assert(grown.remove(j) =~= st.ships[p]);
                },
            }
            let back = destroy_ship_spec(b1, ship, star)->0;
            assert(st2.ships.update(p, grown.remove(st.ships[p].len() as int)) =~= st.ships);
            assert(back.stars[i] =~= st);
            assert(back.stars =~= b.stars);
            assert(back.bank =~= b.bank);
            assert(back =~= b);
        },
    }
}

/// Conservation: a successful transition from a well-formed board yields
/// a well-formed board in which every piece occurs exactly as often as
/// before — pieces are only relocated, never created or destroyed.
pub proof fn lemma_conservation(b: BoardView, a: Action)
    requires
        wf(b),
        apply_spec(b, a) is Some,
    ensures
        ({
            let b2 = apply_spec(b, a)->0;
            &&& wf(b2)
            &&& b2.player_count == b.player_count
            &&& forall|x: Id| #[trigger] piece_count(b2, x) == piece_count(b, x)
        }),
{
    match a {
        Action::CreateShip { ship, star } => {
            lemma_create_ship_conserves(b, ship, star);
        },
        Action::DestroyShip { ship, star } => {
            lemma_destroy_ship_conserves(b, ship, star);
        },
        Action::MoveShip { ship, start_star, end_star } => {
            lemma_destroy_ship_conserves(b, ship, start_star);
            let b1 = destroy_ship_spec(b, ship, start_star)->0;
            lemma_create_ship_conserves(b1, ship, end_star);
        },
        Action::CreateStar { star } => {
            lemma_create_star_conserves(b, star);
        },
        Action::DestroyStar { star } => {
            lemma_destroy_star_conserves(b, star);
        },
    }
}

} // verus!
