use ascii_cube::cube::{
    candidate_count, facelet_descriptors, facelet_index, scramble_choice, Axis, Cube, Face,
    FaceColor, LatticePoint, Move,
};
use rand::SeedableRng;

#[test]
fn inverse_moves_restore_state() {
    let mut cube = Cube::new();
    cube.apply_move(Move::R);
    cube.apply_move(Move::RPrime);
    assert!(cube.is_solved());
}

#[test]
fn double_turn_equivalence() {
    let mut cube = Cube::new();
    cube.apply_move(Move::U2);
    let mut other = Cube::new();
    other.apply_move(Move::U);
    other.apply_move(Move::U);
    assert_eq!(cube.face_colors(), other.face_colors());
}

#[test]
fn scramble_changes_state() {
    let mut cube = Cube::new();
    let mut rng = rand::rngs::StdRng::seed_from_u64(42);
    cube.scramble(20, &mut rng);
    assert!(!cube.is_solved());
}

fn mixed_cube() -> Cube {
    let mut cube = Cube::new();
    for mv in [Move::R, Move::U, Move::FPrime, Move::L2, Move::D, Move::B] {
        cube.apply_move(mv);
    }
    cube
}

#[test]
fn every_move_is_undone_by_its_inverse() {
    for mv in Move::all() {
        let mut cube = mixed_cube();
        let before = cube.face_colors().to_vec();
        cube.apply_move(mv);
        assert_ne!(cube.face_colors(), &before[..]);
        cube.apply_move(mv.inverse());
        assert_eq!(cube.face_colors(), &before[..]);
    }
}

#[test]
fn quarter_turns_have_order_four() {
    for mv in [Move::U, Move::UPrime, Move::D, Move::R, Move::LPrime, Move::F, Move::B] {
        let mut cube = mixed_cube();
        let before = cube.face_colors().to_vec();
        for _ in 0..4 {
            cube.apply_move(mv);
        }
        assert_eq!(cube.face_colors(), &before[..]);
    }
}

#[test]
fn half_turn_is_two_quarter_turns_for_every_face() {
    let pairs = [
        (Move::U, Move::U2),
        (Move::D, Move::D2),
        (Move::R, Move::R2),
        (Move::L, Move::L2),
        (Move::F, Move::F2),
        (Move::B, Move::B2),
    ];
    for (quarter, half) in pairs {
        let mut a = mixed_cube();
        a.apply_move(half);
        let mut b = mixed_cube();
        b.apply_move(quarter);
        b.apply_move(quarter);
        assert_eq!(a.face_colors(), b.face_colors());
    }
}

#[test]
fn facelet_index_is_a_bijection() {
    let table = facelet_descriptors();
    assert_eq!(table.len(), 54);
    let mut seen = vec![false; 54];
    for (i, desc) in table.iter().enumerate() {
        let idx = facelet_index(desc.coord, desc.face);
        assert_eq!(idx, i);
        assert!(!seen[idx]);
        seen[idx] = true;
    }
    assert!(seen.iter().all(|s| *s));
}

#[test]
fn facelet_table_layout() {
    let table = facelet_descriptors();
    let first = table[0];
    assert_eq!(first.face, Face::Up);
    assert_eq!(first.coord, LatticePoint::new(-1, 1, -1));
    assert_eq!((first.row, first.col), (0, 0));
    let last = table[53];
    assert_eq!(last.face, Face::Back);
    assert_eq!(last.coord, LatticePoint::new(-1, -1, -1));
    assert_eq!(facelet_index(LatticePoint::new(0, 0, 1), Face::Front), 40);
}

#[test]
fn colors_are_conserved_by_moves() {
    let mut cube = Cube::new();
    let mut rng = rand::rngs::StdRng::seed_from_u64(7);
    cube.scramble(30, &mut rng);
    for mv in [Move::L, Move::F2, Move::BPrime] {
        cube.apply_move(mv);
    }
    let colors = [
        FaceColor::White,
        FaceColor::Yellow,
        FaceColor::Red,
        FaceColor::Orange,
        FaceColor::Blue,
        FaceColor::Green,
    ];
    for c in colors {
        assert_eq!(cube.face_colors().iter().filter(|x| **x == c).count(), 9);
    }
}

#[test]
fn new_cube_is_solved_with_canonical_colors() {
    let cube = Cube::new();
    assert!(cube.is_solved());
    let table = facelet_descriptors();
    for (i, desc) in table.iter().enumerate() {
        assert_eq!(cube.face_colors()[i], desc.face.default_color());
    }
    assert_eq!(cube.face_colors()[0], FaceColor::White);
    assert_eq!(cube.face_colors()[53], FaceColor::Blue);
}

#[test]
fn reset_restores_solved() {
    let mut cube = mixed_cube();
    assert!(!cube.is_solved());
    cube.reset();
    assert!(cube.is_solved());
}

#[test]
fn scramble_of_length_zero_keeps_cube() {
    let mut cube = Cube::new();
    let mut rng = rand::rngs::StdRng::seed_from_u64(1);
    cube.scramble(0, &mut rng);
    assert!(cube.is_solved());
}

#[test]
fn scramble_candidates_skip_previous_axis() {
    assert_eq!(candidate_count(None), 18);
    assert_eq!(candidate_count(Some(Axis::Y)), 12);
    assert_eq!(scramble_choice(None, 0), Move::U);
    assert_eq!(scramble_choice(None, 17), Move::B2);
    assert_eq!(scramble_choice(Some(Axis::Y), 0), Move::R);
    assert_eq!(scramble_choice(Some(Axis::X), 6), Move::F);
    assert_eq!(scramble_choice(Some(Axis::Z), 11), Move::L2);
}

#[test]
fn u_turn_moves_front_row_to_right() {
    let mut cube = Cube::new();
    cube.apply_move(Move::U);
    let front_top = facelet_index(LatticePoint::new(0, 1, 1), Face::Front);
    let right_top = facelet_index(LatticePoint::new(1, 1, 0), Face::Right);
    let front_bottom = facelet_index(LatticePoint::new(0, -1, 1), Face::Front);
    assert_eq!(cube.face_colors()[front_top], FaceColor::Orange);
    assert_eq!(cube.face_colors()[right_top], FaceColor::Green);
    assert_eq!(cube.face_colors()[front_bottom], FaceColor::Green);
}

#[test]
fn lattice_point_components() {
    let mut p = LatticePoint::zero();
    p.set_component(Axis::Y, 1);
    p.add_component(Axis::Z, -1);
    p.add_component(Axis::Z, -1);
    assert_eq!(p, LatticePoint::new(0, 1, -2));
    assert_eq!(p.component(Axis::Z), -2);
    assert_eq!(Face::Right.spec().normal.axis, Axis::X);
    assert_eq!(Face::Back.spec().right.dir, -1);
    assert_eq!(Face::all().len(), 6);
}

#[test]
fn any_single_move_unsolves() {
    for mv in Move::all() {
        let mut cube = Cube::new();
        cube.apply_move(mv);
        assert!(!cube.is_solved());
    }
}
