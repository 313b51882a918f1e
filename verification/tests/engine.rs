use homeworlds_core::logic::{Action, Board, HomeWorld, Id, LocRef, Star};

fn sorted_bank(b: &Board) -> Vec<Id> {
    let mut v = b.bank.clone();
    v.sort();
    v
}

fn two_player_board(bank: Vec<Id>, stars: Vec<Star>, homeworlds: Vec<HomeWorld>) -> Board {
    Board { current_player: 0, player_count: 2, bank, stars, homeworlds }
}

fn empty_home() -> HomeWorld {
    HomeWorld { stars: vec![], ships: vec![vec![], vec![]] }
}

fn assert_boards_equal(a: &Board, b: &Board) {
    assert_eq!(a.current_player, b.current_player);
    assert_eq!(a.player_count, b.player_count);
    assert_eq!(sorted_bank(a), sorted_bank(b));
    assert_eq!(a.stars.len(), b.stars.len());
    for (x, y) in a.stars.iter().zip(b.stars.iter()) {
        assert_eq!(x.star, y.star);
        assert_eq!(x.ships, y.ships);
    }
    assert_eq!(a.homeworlds.len(), b.homeworlds.len());
    for (x, y) in a.homeworlds.iter().zip(b.homeworlds.iter()) {
        assert_eq!(x.stars, y.stars);
        assert_eq!(x.ships, y.ships);
    }
}

#[test]
fn create_star_create_ship_destroy_star_scenario() {
    let s1 = Id(1);
    let sh1 = Id(2);
    let b = two_player_board(vec![s1, sh1], vec![], vec![empty_home(), empty_home()]);

    let b = b.apply_action(Action::CreateStar { star: s1 }).unwrap();
    assert_eq!(sorted_bank(&b), vec![sh1]);
    assert_eq!(b.stars.len(), 1);
    assert_eq!(b.stars[0].star, s1);
    assert_eq!(b.stars[0].ships, vec![Vec::<Id>::new(), Vec::<Id>::new()]);

    let b = b.apply_action(Action::CreateShip { ship: sh1, star: s1 }).unwrap();
    assert_eq!(sorted_bank(&b), Vec::<Id>::new());
    assert_eq!(b.stars[0].ships, vec![vec![sh1], Vec::<Id>::new()]);

    let b = b.apply_action(Action::DestroyStar { star: s1 }).unwrap();
    assert_eq!(sorted_bank(&b), vec![s1, sh1]);
    assert!(b.stars.is_empty());
}

#[test]
fn create_ship_not_in_bank_fails_and_board_survives() {
    let s1 = Id(1);
    let ghost_ship = Id(9);
    let b = two_player_board(
        vec![],
        vec![Star { star: s1, ships: vec![vec![], vec![]] }],
        vec![empty_home(), empty_home()],
    );
    let r = b.apply_action(Action::CreateShip { ship: ghost_ship, star: s1 });
    assert!(r.is_none());
    // The original board is untouched and still usable.
    assert!(b.bank.is_empty());
    assert_eq!(b.stars.len(), 1);
    assert_eq!(b.stars[0].star, s1);
}

#[test]
fn create_ship_location_not_found_fails() {
    let sh1 = Id(2);
    let b = two_player_board(vec![sh1], vec![], vec![empty_home(), empty_home()]);
    assert!(b.apply_action(Action::CreateShip { ship: sh1, star: Id(7) }).is_none());
}

#[test]
fn destroy_ship_absent_fails() {
    let s1 = Id(1);
    let b = two_player_board(
        vec![],
        vec![Star { star: s1, ships: vec![vec![], vec![]] }],
        vec![empty_home(), empty_home()],
    );
    assert!(b.apply_action(Action::DestroyShip { ship: Id(5), star: s1 }).is_none());
}

#[test]
fn destroy_ship_in_other_players_slot_fails() {
    let s1 = Id(1);
    let sh1 = Id(2);
    // The ship sits in player 1's slot, but player 0 acts.
    let b = two_player_board(
        vec![],
        vec![Star { star: s1, ships: vec![vec![], vec![sh1]] }],
        vec![empty_home(), empty_home()],
    );
    assert!(b.apply_action(Action::DestroyShip { ship: sh1, star: s1 }).is_none());
}

#[test]
fn destroy_star_not_found_fails() {
    let b = two_player_board(vec![Id(1)], vec![], vec![empty_home(), empty_home()]);
    assert!(b.apply_action(Action::DestroyStar { star: Id(3) }).is_none());
}

#[test]
fn round_trip_create_then_destroy_restores_board() {
    let s1 = Id(1);
    let sh1 = Id(2);
    let sh2 = Id(3);
    let b = two_player_board(
        vec![sh1],
        vec![Star { star: s1, ships: vec![vec![sh2], vec![]] }],
        vec![empty_home(), empty_home()],
    );
    let b1 = b.apply_action(Action::CreateShip { ship: sh1, star: s1 }).unwrap();
    let b2 = b1.apply_action(Action::DestroyShip { ship: sh1, star: s1 }).unwrap();
    assert_boards_equal(&b2, &b);
}

#[test]
fn move_ship_between_stars() {
    let s1 = Id(1);
    let s2 = Id(2);
    let sh1 = Id(3);
    let b = two_player_board(
        vec![],
        vec![
            Star { star: s1, ships: vec![vec![sh1], vec![]] },
            Star { star: s2, ships: vec![vec![], vec![]] },
        ],
        vec![empty_home(), empty_home()],
    );
    let b = b
        .apply_action(Action::MoveShip { ship: sh1, start_star: s1, end_star: s2 })
        .unwrap();
    assert_eq!(b.stars[0].ships, vec![Vec::<Id>::new(), Vec::<Id>::new()]);
    assert_eq!(b.stars[1].ships, vec![vec![sh1], Vec::<Id>::new()]);
    assert!(b.bank.is_empty());
}

#[test]
fn move_equals_destroy_then_create() {
    let s1 = Id(1);
    let s2 = Id(2);
    let sh1 = Id(3);
    let b = two_player_board(
        vec![],
        vec![
            Star { star: s1, ships: vec![vec![sh1], vec![]] },
            Star { star: s2, ships: vec![vec![], vec![]] },
        ],
        vec![empty_home(), empty_home()],
    );
    let moved = b
        .apply_action(Action::MoveShip { ship: sh1, start_star: s1, end_star: s2 })
        .unwrap();
    let two_step = b
        .apply_action(Action::DestroyShip { ship: sh1, star: s1 })
        .unwrap()
        .apply_action(Action::CreateShip { ship: sh1, star: s2 })
        .unwrap();
    assert_boards_equal(&moved, &two_step);
}

#[test]
fn move_to_missing_destination_fails_without_stranding_the_ship() {
    let s1 = Id(1);
    let sh1 = Id(3);
    let b = two_player_board(
        vec![],
        vec![Star { star: s1, ships: vec![vec![sh1], vec![]] }],
        vec![empty_home(), empty_home()],
    );
    let r = b.apply_action(Action::MoveShip { ship: sh1, start_star: s1, end_star: Id(9) });
    assert!(r.is_none());
    // The caller's board still has the ship at its origin, not in the bank.
    assert_eq!(b.stars[0].ships[0], vec![sh1]);
    assert!(b.bank.is_empty());
}

#[test]
fn create_ship_on_homeworld() {
    let h = Id(1);
    let sh1 = Id(2);
    let b = two_player_board(
        vec![sh1],
        vec![],
        vec![
            HomeWorld { stars: vec![h], ships: vec![vec![], vec![]] },
            empty_home(),
        ],
    );
    let b = b.apply_action(Action::CreateShip { ship: sh1, star: h }).unwrap();
    assert_eq!(b.homeworlds[0].ships, vec![vec![sh1], Vec::<Id>::new()]);
    assert!(b.bank.is_empty());
}

#[test]
fn create_ship_targets_current_player_slot() {
    let s1 = Id(1);
    let sh1 = Id(2);
    let b = Board {
        current_player: 1,
        player_count: 2,
        bank: vec![sh1],
        stars: vec![Star { star: s1, ships: vec![vec![], vec![]] }],
        homeworlds: vec![empty_home(), empty_home()],
    };
    let b = b.apply_action(Action::CreateShip { ship: sh1, star: s1 }).unwrap();
    assert_eq!(b.stars[0].ships, vec![Vec::<Id>::new(), vec![sh1]]);
}

#[test]
fn destroy_star_of_homeworld_keeps_system_while_stars_remain() {
    let h1 = Id(1);
    let h2 = Id(2);
    let x = Id(3);
    let b = two_player_board(
        vec![],
        vec![],
        vec![
            HomeWorld { stars: vec![h1, h2], ships: vec![vec![x], vec![]] },
            empty_home(),
        ],
    );
    let b = b.apply_action(Action::DestroyStar { star: h1 }).unwrap();
    assert_eq!(b.homeworlds[0].stars, vec![h2]);
    // The system survives, so its ships stay put.
    assert_eq!(b.homeworlds[0].ships, vec![vec![x], Vec::<Id>::new()]);
    assert_eq!(sorted_bank(&b), vec![h1]);
}

#[test]
fn destroying_last_homeworld_star_eliminates_the_system() {
    let h = Id(1);
    let x = Id(2);
    let y = Id(3);
    let b = two_player_board(
        vec![],
        vec![],
        vec![
            HomeWorld { stars: vec![h], ships: vec![vec![x], vec![y]] },
            empty_home(),
        ],
    );
    let b = b.apply_action(Action::DestroyStar { star: h }).unwrap();
    assert!(b.homeworlds[0].stars.is_empty());
    assert_eq!(b.homeworlds[0].ships, vec![Vec::<Id>::new(), Vec::<Id>::new()]);
    assert_eq!(sorted_bank(&b), vec![h, x, y]);
    // The eliminated system persists as an empty placeholder.
    assert_eq!(b.homeworlds.len(), 2);
}

#[test]
fn destroy_standalone_star_returns_all_ships() {
    let s1 = Id(1);
    let a = Id(2);
    let c = Id(3);
    let b = two_player_board(
        vec![],
        vec![Star { star: s1, ships: vec![vec![a], vec![c]] }],
        vec![empty_home(), empty_home()],
    );
    let b = b.apply_action(Action::DestroyStar { star: s1 }).unwrap();
    assert!(b.stars.is_empty());
    assert_eq!(sorted_bank(&b), vec![s1, a, c]);
}

#[test]
fn resolution_prefers_homeworld_over_standalone_star() {
    let shared = Id(1);
    // Defensive situation: the same identity appears both as a
    // homeworld-controlled star and as a standalone star entry.
    let b = two_player_board(
        vec![],
        vec![Star { star: shared, ships: vec![vec![], vec![]] }],
        vec![
            HomeWorld { stars: vec![shared], ships: vec![vec![], vec![]] },
            empty_home(),
        ],
    );
    let r = b.star_mut(shared);
    assert!(matches!(r, Some(LocRef::HomeWorldRef(0))));
}

#[test]
fn resolution_finds_standalone_star() {
    let s1 = Id(1);
    let s2 = Id(2);
    let b = two_player_board(
        vec![],
        vec![
            Star { star: s1, ships: vec![vec![], vec![]] },
            Star { star: s2, ships: vec![vec![], vec![]] },
        ],
        vec![empty_home(), empty_home()],
    );
    assert!(matches!(b.star_mut(s2), Some(LocRef::StarRef(1))));
    assert!(b.star_mut(Id(9)).is_none());
}

#[test]
fn create_star_appends_to_collection() {
    let s1 = Id(1);
    let s2 = Id(2);
    let b = two_player_board(vec![s1, s2], vec![], vec![empty_home(), empty_home()]);
    let b = b.apply_action(Action::CreateStar { star: s1 }).unwrap();
    let b = b.apply_action(Action::CreateStar { star: s2 }).unwrap();
    assert_eq!(b.stars.len(), 2);
    assert_eq!(b.stars[0].star, s1);
    assert_eq!(b.stars[1].star, s2);
    assert!(b.bank.is_empty());
}

#[test]
fn create_star_not_in_bank_fails() {
    let b = two_player_board(vec![Id(1)], vec![], vec![empty_home(), empty_home()]);
    assert!(b.apply_action(Action::CreateStar { star: Id(4) }).is_none());
}

#[test]
fn snapshot_is_observationally_identical() {
    let b = two_player_board(
        vec![Id(5)],
        vec![Star { star: Id(1), ships: vec![vec![Id(2)], vec![]] }],
        vec![
            HomeWorld { stars: vec![Id(3)], ships: vec![vec![], vec![Id(4)]] },
            empty_home(),
        ],
    );
    let c = b.snapshot();
    assert_boards_equal(&c, &b);
}

#[test]
fn conservation_across_a_run_of_actions() {
    let h = Id(1);
    let s1 = Id(2);
    let sh1 = Id(3);
    let sh2 = Id(4);
    let all = vec![h, s1, sh1, sh2];
    let mut b = two_player_board(
        vec![s1, sh1, sh2],
        vec![],
        vec![
            HomeWorld { stars: vec![h], ships: vec![vec![], vec![]] },
            empty_home(),
        ],
    );
    let actions = vec![
        Action::CreateStar { star: s1 },
        Action::CreateShip { ship: sh1, star: s1 },
        Action::CreateShip { ship: sh2, star: h },
        Action::MoveShip { ship: sh1, start_star: s1, end_star: h },
        Action::DestroyStar { star: s1 },
        Action::DestroyStar { star: h },
    ];
    for a in actions {
        b = b.apply_action(a).unwrap();
        // Every piece of the fixed universe is in exactly one place.
        let mut seen = b.bank.clone();
        for st in &b.stars {
            seen.push(st.star);
            for l in &st.ships {
                seen.extend(l.iter().copied());
            }
        }
        for hw in &b.homeworlds {
            seen.extend(hw.stars.iter().copied());
            for l in &hw.ships {
                seen.extend(l.iter().copied());
            }
        }
        seen.sort();
        assert_eq!(seen, all);
    }
}
