use norcina::cube3::algs;
use norcina::cube3::coord::{
    corner_orientation_from_index, corner_orientation_index, edge_orientation_from_index,
    edge_orientation_index,
};
use norcina::cube3::coordinate::{
    corner_permutation_from_index, corner_permutation_index, g1_moves,
    slice_permutation_from_index, slice_permutation_index, ud_permutation_from_index,
    ud_permutation_index, Coord,
};
use norcina::cube3::cube::Cube;
use norcina::cube3::fill::generate_buffer;
use norcina::cube3::lehmer::{arrangement_of, rank_of};
use norcina::cube3::placement::{slice_placement_from_index, slice_placement_index};
use norcina::cube_n::moves::{F, R, U};

#[test]
fn fn_index_fn_from_index_is_identity_co() {
    for index in 0..2187 {
        assert_eq!(corner_orientation_index(&corner_orientation_from_index(index)), index);
    }
}

#[test]
fn fn_index_fn_from_index_id_identity_eo() {
    for index in 0..2048 {
        assert_eq!(edge_orientation_index(&edge_orientation_from_index(index)), index);
    }
}

#[test]
fn fn_index_fn_from_index_id_identity_yslice() {
    for index in 0..495 {
        let edges = slice_placement_from_index(index);
        assert_eq!(slice_placement_index(&edges), index);
        let in_slice = edges.iter().filter(|e| e.position().normal().u8() == 1).count();
        assert_eq!(in_slice, 4);
    }
}

#[test]
fn fn_index_fn_from_index_id_identity_pc() {
    for index in (0..40320).step_by(7) {
        assert_eq!(corner_permutation_index(&corner_permutation_from_index(index)), index);
    }
    assert_eq!(corner_permutation_index(&corner_permutation_from_index(40319)), 40319);
}

#[test]
fn fn_index_fn_from_index_id_identity_pye() {
    for index in (0..40320).step_by(11) {
        assert_eq!(ud_permutation_index(&ud_permutation_from_index(index)), index);
    }
}

#[test]
fn fn_index_fn_from_index_id_identity_pnye() {
    for index in 0..24 {
        assert_eq!(slice_permutation_index(&slice_permutation_from_index(index)), index);
    }
}

#[test]
fn exact_coordinates() {
    let solved = Cube::solved();
    assert_eq!(Coord::CornerOrientation.index(&solved), 0);
    assert_eq!(Coord::EdgeOrientation.index(&solved), 0);
    assert_eq!(Coord::SlicePlacement.index(&solved), 69);
    assert_eq!(Coord::CornerPermutation.index(&solved), 0);
    assert_eq!(Coord::UdPermutation.index(&solved), 0);
    assert_eq!(Coord::SlicePermutation.index(&solved), 0);
    for coord in Coord::ALL {
        assert_eq!(coord.start(), coord.index(&solved));
    }
    // After R the corners are twisted 2 . 1 . 1 . 2 ., of which the first seven count.
    let cube = solved.mov_single(R());
    assert_eq!(Coord::CornerOrientation.index(&cube), 2 * 729 + 81 + 9 + 2);
    assert_eq!(Coord::EdgeOrientation.index(&cube), 0);
    // After F the edges 0, 1, 4 and 6 are flipped.
    let cube = solved.mov_single(F());
    assert_eq!(Coord::EdgeOrientation.index(&cube), 1024 + 512 + 64 + 16);
    // The arrangement 1 0 2 3 has one inversion, at the first entry.
    assert_eq!(rank_of(&[1, 0, 2, 3]), 6);
    assert_eq!(rank_of(&[3, 2, 1, 0]), 23);
    assert_eq!(arrangement_of(6, 4), [1, 0, 2, 3]);
    assert_eq!(arrangement_of(23, 4), [3, 2, 1, 0]);
    assert_eq!(arrangement_of(0, 8), [0, 1, 2, 3, 4, 5, 6, 7]);
    assert_eq!(Coord::CornerOrientation.max(), 2187);
    assert_eq!(Coord::EdgeOrientation.max(), 2048);
    assert_eq!(Coord::SlicePlacement.max(), 495);
    assert_eq!(Coord::CornerPermutation.max(), 40320);
    assert_eq!(Coord::UdPermutation.max(), 40320);
    assert_eq!(Coord::SlicePermutation.max(), 24);
    assert!(Coord::SlicePlacement.phase1() && !Coord::SlicePermutation.phase1());
    assert_eq!(Coord::CornerOrientation.moves().len(), 18);
    assert_eq!(Coord::CornerPermutation.moves(), g1_moves());
}

#[test]
fn coordinates_follow_the_cube() {
    // The coordinate of a moved cube is the neighbour of the coordinate of the cube.
    let start = Cube::solved().mov(&algs::T()).mov(&[F(), R(), U()]);
    for coord in [Coord::CornerOrientation, Coord::EdgeOrientation, Coord::SlicePlacement] {
        for mov in coord.moves() {
            let moved = start.mov_single(mov);
            assert_eq!(coord.neighbor(coord.index(&start), mov), coord.index(&moved));
        }
    }
    let in_g1 = Cube::solved().mov(&algs::CHECKER()).mov(&[U()]);
    for coord in [Coord::CornerPermutation, Coord::UdPermutation, Coord::SlicePermutation] {
        for mov in coord.moves() {
            let moved = in_g1.mov_single(mov);
            assert_eq!(coord.neighbor(coord.index(&in_g1), mov), coord.index(&moved));
        }
    }
}

#[test]
fn small_tables_are_distance_tables() {
    for coord in [
        Coord::CornerOrientation,
        Coord::EdgeOrientation,
        Coord::SlicePlacement,
        Coord::SlicePermutation,
    ] {
        let table = generate_buffer(coord);
        assert_eq!(table.len(), coord.max());
        assert_eq!(table[coord.start()], 0);
        assert_eq!(table.iter().filter(|&&entry| entry == 0).count(), 1);
        assert!(table.iter().all(|&entry| entry < 255));
        for index in 0..coord.max() {
            for mov in coord.moves() {
                let next = coord.neighbor(index, mov);
                let gap = (table[next] as i32 - table[index] as i32).abs();
                assert!(gap <= 1);
            }
        }
    }
    let table = generate_buffer(Coord::CornerOrientation);
    assert_eq!(*table.iter().max().unwrap(), 6);
    let table = generate_buffer(Coord::EdgeOrientation);
    assert_eq!(*table.iter().max().unwrap(), 7);
    let table = generate_buffer(Coord::SlicePermutation);
    assert_eq!(*table.iter().max().unwrap(), 4);
}

#[test]
fn solved_cube_has_the_first_coordinates() {
    let solved = Cube::solved();
    // The slice edges of the solved cube are in the slots 4 to 7.
    assert_eq!(slice_placement_index(&solved.edge_pieces()), 69);
    assert_eq!(corner_orientation_index(&solved.corner_pieces()), 0);
    assert_eq!(corner_permutation_index(&solved.corner_pieces()), 0);
    assert_eq!(edge_orientation_index(&solved.edge_pieces()), 0);
    assert_eq!(ud_permutation_index(&solved.edge_pieces()), 0);
    assert_eq!(slice_permutation_index(&solved.edge_pieces()), 0);
}

#[test]
fn corner_coordinates_come_back() {
    for i in 0..2187 {
        assert_eq!(i, corner_orientation_index(&corner_orientation_from_index(i)))
    }
    for i in 0..40320 {
        assert_eq!(i, corner_permutation_index(&corner_permutation_from_index(i)))
    }
}

#[test]
fn edge_coordinates_come_back() {
    for i in 0..2048 {
        assert_eq!(i, edge_orientation_index(&edge_orientation_from_index(i)))
    }
    for i in 0..495 {
        assert_eq!(i, slice_placement_index(&slice_placement_from_index(i)))
    }
    for i in 0..40320 {
        assert_eq!(i, ud_permutation_index(&ud_permutation_from_index(i)))
    }
    for i in 0..24 {
        assert_eq!(i, slice_permutation_index(&slice_permutation_from_index(i)))
    }
}
