use dice_puzzle::animator::{TileAnimator, Motion, MOVE_DURATION_MS};
use dice_puzzle::codec::{board_to_string, string_to_board, BoardString, DecodeError};
use dice_puzzle::game::Game;
use dice_puzzle::grid::{Grid, MoveRejected};
use dice_puzzle::orientation::Orientation;
use dice_puzzle::player::{PlayerInfo, PlayerState};
use dice_puzzle::shuffle::{shuffle, shuffle_from};

fn solved_ids(g: &Grid) -> Vec<Option<u8>> {
    let n = g.size();
    let mut v = Vec::new();
    for z in 0..n {
        for x in 0..n {
            v.push(g.tile_at(x, z));
        }
    }
    v
}

fn tile_order(g: &Grid) -> Vec<u8> {
    solved_ids(g).into_iter().flatten().collect()
}

fn inversions(v: &[u8]) -> usize {
    let mut c = 0;
    for i in 0..v.len() {
        for j in i + 1..v.len() {
            if v[i] > v[j] {
                c += 1;
            }
        }
    }
    c
}

/// The parity criterion of the sliding puzzle: inversions plus, for an even
/// side, the blank's row distance from the bottom, is even.
fn parity_ok(g: &Grid) -> bool {
    let n = g.size();
    let (_, bz) = g.blank();
    (inversions(&tile_order(g)) + (n - 1) * (n - 1 - bz)) % 2 == 0
}

#[test]
fn solved_board_is_row_major() {
    let g = Grid::new(4);
    let cells = solved_ids(&g);
    for i in 0..15 {
        assert_eq!(cells[i], Some((i + 1) as u8));
    }
    assert_eq!(cells[15], None);
    assert_eq!(g.blank(), (3, 3));
    assert!(g.is_solved());
    for k in 1..16 {
        assert_eq!(g.position(k), k - 1);
        assert!(g.orientation(k).is_identity());
    }
}

#[test]
fn slide_into_corner_and_back() {
    let mut game = Game::new(4);
    let g = game.grid();
    assert_eq!(g.tile_at(3, 2), Some(12));
    assert!(game.is_board_clear());
    // From the solved board, (0, 1) points off the board.
    let mut grid = Grid::new(4);
    assert_eq!(grid.apply_move(0, 1), Err(MoveRejected::OutOfBounds));
    assert!(grid.is_solved());
    // The tile at (3, 2) slides into the blank at (3, 3).
    assert_eq!(game.move_block(0, -1, true), Ok(12));
    assert_eq!(game.grid().tile_at(3, 3), Some(12));
    assert_eq!(game.grid().tile_at(3, 2), None);
    assert_eq!(game.grid().blank(), (3, 2));
    assert!(!game.is_board_clear());
    assert_eq!(game.move_block(0, 1, true), Ok(12));
    assert_eq!(game.grid().blank(), (3, 3));
    assert!(game.is_board_clear());
}

#[test]
fn slide_rolls_the_die() {
    let mut g = Grid::new(4);
    assert_eq!(g.apply_move(0, -1), Ok(12));
    let o = g.orientation(12);
    assert_eq!(o, Orientation { x: 1, y: 0, z: 0, w: 1 });
    assert_eq!(o.to_byte(), 0b01_00_00_01);
    assert!(!g.is_solved());
    assert_eq!(g.apply_move(-1, 0), Ok(11));
    assert_eq!(g.orientation(11), Orientation { x: 0, y: 0, z: -1, w: 1 });
    assert_eq!(g.blank(), (2, 2));
}

#[test]
fn off_board_moves_change_nothing() {
    let mut g = Grid::new(3);
    assert_eq!(g.apply_move(1, 0), Err(MoveRejected::OutOfBounds));
    assert_eq!(g.apply_move(0, 1), Err(MoveRejected::OutOfBounds));
    assert!(g.is_solved());
    assert_eq!(g.blank(), (2, 2));
}

#[test]
fn move_then_reverse_restores_positions() {
    let draws: Vec<u32> = (0..15).map(|i| (i * 7 + 3) as u32).collect();
    let mut g = shuffle_from(4, &draws, 1, 2);
    let before = board_to_string(&g);
    for (dx, dz) in [(0, 1), (0, -1), (1, 0), (-1, 0)] {
        if g.apply_move(dx, dz).is_ok() {
            assert!(g.apply_move(-dx, -dz).is_ok());
            let after = board_to_string(&g);
            assert_eq!(after.0, before.0);
        }
    }
}

#[test]
fn shuffled_boards_meet_the_parity_criterion() {
    for seed in 0..40u32 {
        let draws: Vec<u32> = (0..15).map(|i| seed.wrapping_mul(2654435761).wrapping_add(i * 97)).collect();
        let g = shuffle_from(4, &draws, (seed % 4) as usize, ((seed / 4) % 4) as usize);
        assert!(parity_ok(&g));
        assert_eq!(g.blank(), (3 - (seed % 4) as usize, 3 - ((seed / 4) % 4) as usize));
        let mut ids = tile_order(&g);
        ids.sort();
        assert_eq!(ids, (1..16).collect::<Vec<u8>>());
    }
    for seed in 0..10u32 {
        let draws: Vec<u32> = (0..8).map(|i| seed * 31 + i * 5).collect();
        let g = shuffle_from(3, &draws, 2, 1);
        assert!(parity_ok(&g));
    }
}

#[test]
fn parity_fix_swaps_first_two_tiles() {
    // Draws of zero keep every tile in place but for the first exchange of
    // cells 0 and 1 that a draw of one makes: one inversion, fixed back.
    let mut draws = vec![0u32; 15];
    draws[0] = 1;
    let g = shuffle_from(4, &draws, 0, 0);
    assert!(g.is_solved());
    // Three tiles rotated: an even permutation, kept.
    let mut draws = vec![0u32; 8];
    draws[0] = 1;
    draws[1] = 1;
    let g = shuffle_from(3, &draws, 0, 0);
    assert_eq!(tile_order(&g), vec![2, 3, 1, 4, 5, 6, 7, 8]);
}

#[test]
fn random_shuffle_decodes_to_a_solvable_board() {
    for _ in 0..20 {
        let s = shuffle(4).expect("system generator");
        assert_eq!(s.0.len(), 16);
        let mut g = Grid::new(4);
        assert_eq!(string_to_board(&s, &mut g), Ok(()));
        assert!(parity_ok(&g));
    }
}

#[test]
fn solved_board_string() {
    let g = Grid::new(4);
    let s = board_to_string(&g);
    assert_eq!(s.0[0], (16, 0));
    for k in 1..16 {
        assert_eq!(s.0[k], (k as u8, 1));
    }
}

#[test]
fn encode_decode_round_trip() {
    let draws: Vec<u32> = (0..24).map(|i| i * 13 + 1).collect();
    let mut g = shuffle_from(5, &draws, 3, 1);
    let _ = g.apply_move(1, 0);
    let _ = g.apply_move(0, 1);
    let s = board_to_string(&g);
    let mut h = Grid::new(5);
    assert_eq!(string_to_board(&s, &mut h), Ok(()));
    assert_eq!(board_to_string(&h).0, s.0);
    for k in 0..25 {
        assert_eq!(h.position(k), g.position(k));
    }
    for k in 1..25 {
        assert_eq!(h.orientation(k), g.orientation(k));
    }
    assert_eq!(solved_ids(&h), solved_ids(&g));
}

#[test]
fn decode_rejects_bad_strings() {
    let good = board_to_string(&Grid::new(3));
    let mut g = Grid::new(3);
    let _ = g.apply_move(-1, 0);
    let before = board_to_string(&g);

    let short = BoardString(good.0[..8].to_vec());
    assert_eq!(string_to_board(&short, &mut g), Err(DecodeError::WrongLength));

    let mut dup = good.0.clone();
    dup[2].0 = dup[3].0;
    assert_eq!(string_to_board(&BoardString(dup), &mut g), Err(DecodeError::BadPosition));

    let mut zero = good.0.clone();
    zero[4].0 = 0;
    assert_eq!(string_to_board(&BoardString(zero), &mut g), Err(DecodeError::BadPosition));

    let mut high = good.0.clone();
    high[4].0 = 10;
    assert_eq!(string_to_board(&BoardString(high), &mut g), Err(DecodeError::BadPosition));

    let mut field_two = good.0.clone();
    field_two[1].1 = 0b10_00_00_01;
    assert_eq!(string_to_board(&BoardString(field_two), &mut g), Err(DecodeError::BadOrientation));

    let mut three = good.0.clone();
    three[1].1 = 0b01_01_01_00;
    assert_eq!(string_to_board(&BoardString(three), &mut g), Err(DecodeError::BadOrientation));

    let mut blank_byte = good.0.clone();
    blank_byte[0].1 = 1;
    assert_eq!(string_to_board(&BoardString(blank_byte), &mut g), Err(DecodeError::BadOrientation));

    assert_eq!(board_to_string(&g).0, before.0);
}

#[test]
fn orientation_bytes_round_trip() {
    let mut valid = 0;
    for b in 0..=255u8 {
        if let Some(o) = Orientation::from_byte(b) {
            valid += 1;
            assert_eq!(o.to_byte(), b);
        }
    }
    // Each of the 24 rotations, with both signs of its quaternion.
    assert_eq!(valid, 48);
    assert_eq!(Orientation::from_byte(0), None);
    assert_eq!(Orientation::identity().to_byte(), 1);
}

#[test]
fn rolls_stay_rotations_and_undo() {
    let turns = [(0, 1), (0, -1), (1, 0), (-1, 0)];
    for b in 0..=255u8 {
        if let Some(o) = Orientation::from_byte(b) {
            for (dx, dz) in turns {
                let r = o.rolled(dx, dz);
                assert!(Orientation::from_byte(r.to_byte()).is_some());
                assert_eq!(r.rolled(-dx, -dz), o);
            }
        }
    }
    // Four quarter turns about one axis give the negated quaternion: the same rotation.
    let mut o = Orientation::identity();
    for _ in 0..4 {
        o = o.rolled(1, 0);
    }
    assert!(o.is_identity());
}

#[test]
fn keys_are_deterministic_and_sensitive() {
    let s = board_to_string(&Grid::new(4));
    let k1 = s.into_key();
    let k2 = BoardString(s.0.clone()).into_key();
    assert_eq!(k1, k2);
    assert_eq!(k1.chars().count(), 6);
    let corpus = "abcdefghijklmnopqrstuvwxyzABCDEFGHIJKLMNOPQRSTUVWXYZ0123456789!#";
    assert!(k1.chars().all(|c| corpus.contains(c)));
    let mut t = s.0.clone();
    t[5].1 = 0b01_00_00_01;
    let k3 = BoardString(t).into_key();
    assert_ne!(k1, k3);
}

#[test]
fn retry_appends_one_key_character() {
    assert_eq!(BoardString::retry_into_key_with("abc".to_string(), 0), "abca");
    assert_eq!(BoardString::retry_into_key_with("abc".to_string(), 26), "abcA");
    assert_eq!(BoardString::retry_into_key_with("abc".to_string(), 52), "abc0");
    assert_eq!(BoardString::retry_into_key_with("abc".to_string(), 62), "abc!");
    assert_eq!(BoardString::retry_into_key_with("abc".to_string(), 127), "abc#");
    let r = BoardString::retry_into_key("xyz".to_string()).expect("system generator");
    assert_eq!(r.chars().count(), 4);
    assert!(r.starts_with("xyz"));
}

#[test]
fn byte_array_round_trip() {
    let s = board_to_string(&Grid::new(2));
    let a = s.to_arr();
    assert_eq!(a, vec![4, 0, 1, 1, 2, 1, 3, 1]);
    assert_eq!(BoardString::from_arr(&a).0, s.0);
    assert_eq!(BoardString::from_arr(&vec![1, 2, 3]).0, vec![(1, 2)]);
    assert_eq!(BoardString::new(3).0, vec![(0, 0); 9]);
}

#[test]
fn animator_settles_after_the_move_time() {
    let mut a = TileAnimator::new();
    assert!(!a.is_moving());
    let o = Orientation::identity();
    let m = Motion { tile: 3, from: 2, to: 3, start: o, end: o.rolled(1, 0) };
    a.begin(m);
    assert!(a.is_moving());
    assert!(!a.tick(100));
    assert_eq!(a.progress_permille(), 333);
    assert_eq!(a.motion(), Some(m));
    assert!(a.tick(MOVE_DURATION_MS - 100));
    assert!(!a.is_moving());
    assert_eq!(a.progress_permille(), 1000);
    assert!(!a.tick(10));
}

#[test]
fn animated_move_blocks_the_next_input() {
    let mut game = Game::new(4);
    assert_eq!(game.direction(0, -1, false), Ok(()));
    assert_eq!(game.direction(1, 0, false), Ok(()));
    game.update(0, false);
    assert_eq!(game.grid().blank(), (3, 2));
    assert!(game.animator().is_moving());
    game.update(100, false);
    assert_eq!(game.grid().blank(), (3, 2));
    assert_eq!(game.input_buffer().len(), 1);
    game.update(200, false);
    assert!(!game.animator().is_moving());
    // The slide by (1, 0) points off the board: taken from the queue, not played.
    game.update(0, false);
    assert_eq!(game.input_buffer().len(), 0);
    assert_eq!(game.grid().blank(), (3, 2));
}

#[test]
fn player_state_follows_the_game() {
    let mut game = Game::new(2);
    let draws = vec![1u32, 0, 0];
    game.shuffle_with(&draws, 0, 0);
    assert_eq!(game.state(), PlayerState::Shuffled);
    // Tiles 2, 1, 3 with the blank last: the parity fix puts them back.
    assert!(game.is_board_clear());
    game.reset();
    assert_eq!(game.state(), PlayerState::Idle);
    let draws = vec![1u32, 1, 0];
    game.shuffle_with(&draws, 0, 0);
    assert_eq!(game.state(), PlayerState::Shuffled);
    let order: Vec<u8> = (0..3).map(|c| game.grid().tile_at(c % 2, c / 2).unwrap()).collect();
    assert_eq!(order, vec![2, 3, 1]);
    // Take the blank round the board.
    let path = [(-1, 0), (0, -1), (1, 0), (0, 1)];
    let mut steps = 0;
    while !game.grid().is_solved() && steps < 48 {
        let (dx, dz) = path[steps % 4];
        assert_eq!(game.direction(dx, dz, false), Ok(()));
        game.update(0, true);
        game.update(40, true);
        steps += 1;
    }
    assert_eq!(game.state(), PlayerState::Solving);
    assert_eq!(game.player_info().get_player_info().1, steps);
    game.check_clear();
    assert_eq!(game.state(), if game.is_board_clear() { PlayerState::Clear } else { PlayerState::Solving });
}

#[test]
fn player_info_counts_moves_and_time() {
    let mut p = PlayerInfo::new();
    p.add_move_count();
    p.tick(500);
    assert_eq!(p.get_player_info(), (0, 1));
    p.start_timer();
    p.tick(500);
    p.add_move_count();
    assert_eq!(p.get_player_info(), (500, 2));
    p.stop_timer();
    p.tick(500);
    assert_eq!(p.get_player_info(), (500, 2));
    p.reset();
    assert_eq!(p.get_player_info(), (0, 0));
}

#[test]
fn snapshot_waits_for_the_slide() {
    let mut game = Game::new(3);
    assert!(game.snapshot().is_some());
    assert_eq!(game.move_block(-1, 0, false), Ok(8));
    assert!(game.snapshot().is_none());
    game.update(MOVE_DURATION_MS, false);
    let s = game.snapshot().unwrap();
    let mut other = Game::new(3);
    assert_eq!(other.load(&s), Ok(()));
    assert_eq!(other.snapshot().unwrap().0, s.0);
}

#[test]
fn reset_puts_every_tile_back() {
    let draws: Vec<u32> = (0..35).map(|i| i * 17 + 9).collect();
    let mut g = shuffle_from(6, &draws, 4, 2);
    for (dx, dz) in [(1, 0), (0, 1), (-1, 0), (-1, 0), (0, -1)] {
        let _ = g.apply_move(dx, dz);
    }
    assert!(!g.is_solved());
    let goals = g.reset();
    assert_eq!(goals.len(), 35);
    for (i, &(id, cell)) in goals.iter().enumerate() {
        assert_eq!((id as usize, cell), (i + 1, i));
    }
    assert!(g.is_solved());
    assert_eq!(g.reset(), goals);
    assert_eq!(g.blank(), (5, 5));
    assert_eq!(board_to_string(&g).0, board_to_string(&Grid::new(6)).0);
}
