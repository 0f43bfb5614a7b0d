use norcina::cube3::cube::Cube;
use norcina::cube_n::corner::{self, Corner, CornerPosition};
use norcina::cube_n::edge::{self, Edge, EdgePosition};
use norcina::cube_n::face::Face;
use norcina::cube_n::moves::{F, R, U};
use norcina::math::{binomial_coefficient, fac};
use norcina::types::{Axis, Direction, Orientation3};

#[test]
fn no_swaps_makes_fn_count_swaps_return_0() {
    assert_eq!(Corner::count_swaps(Corner::all_solved()), 0)
}

#[test]
fn swapping_corners_changes_the_parity_of_fn_count_swaps() {
    let mut corners = Corner::all_solved();
    corners.swap(0, 5);
    assert_eq!(Corner::count_swaps(corners), 1);
    corners.swap(2, 3);
    assert_eq!(Corner::count_swaps(corners), 2);
    corners.swap(3, 5);
    // Now 0 -> 5 -> 3 -> 2 is one cycle of four.
    assert_eq!(Corner::count_swaps(corners), 3);
    let mut edges = Edge::all_solved();
    assert_eq!(Edge::count_swaps(edges), 0);
    edges.swap(11, 0);
    assert_eq!(Edge::count_swaps(edges), 1);
    // A quarter turn is a cycle of four corners and one of four edges.
    let cube = Cube::solved().mov_single(R());
    assert_eq!(Corner::count_swaps(cube.corner_pieces()), 3);
    assert_eq!(Edge::count_swaps(cube.edge_pieces()), 3);
}

#[test]
fn other_axis_is_always_different_axis() {
    for a in Axis::ALL {
        for b in Axis::ALL {
            if a != b {
                let other = Axis::other(a, b);
                assert!(other != a && other != b);
            }
        }
    }
    assert_eq!(Axis::other(Axis::X, Axis::Y), Axis::Z);
    assert_eq!(Axis::X.next(), Axis::Y);
    assert_eq!(Axis::X.prev(), Axis::Z);
    assert_eq!(Axis::from_i8_mod3(-1), Axis::Z);
    assert_eq!(Axis::from_i8_mod3(-128), Axis::Y);
    assert_eq!(Axis::from_u8_mod3(5), Axis::Z);
    assert_eq!(Axis::Z.bit(), 4);
}

#[test]
fn fn_axis_u8_is_always_between_0_and_2() {
    for x in Axis::ALL {
        assert!(x.u8() < 3);
        assert_eq!(Axis::from_u8(x.u8()), x);
    }
}

#[test]
fn fn_face_u8_has_always_direction_in_bit_3_and_axis_in_1_and_2() {
    for axis in Axis::ALL {
        for direction in [Direction::Positive, Direction::Negative] {
            let face = Face::new(axis, direction);
            assert_eq!((face.u8() & 0b100) >> 2, direction.u8());
            assert_eq!(face.u8() & 0b11, axis.u8());
            assert_eq!(face.axis(), axis);
            assert_eq!(face.direction(), direction);
            assert_eq!(Face::from_u8(face.u8()), face);
            assert_eq!(face.opposite().opposite(), face);
            assert_eq!(face.opposite().u8(), face.u8() ^ 0b100);
        }
    }
}

#[test]
fn cross_product_follows_right_hand_rule() {
    assert_eq!(Face::R.cross(Face::U), Face::F);
    assert_eq!(Face::U.cross(Face::F), Face::R);
    assert_eq!(Face::F.cross(Face::R), Face::U);
    assert_eq!(Face::U.cross(Face::R), Face::B);
    assert_eq!(Face::L.cross(Face::U), Face::B);
    assert_eq!(Face::L.cross(Face::D), Face::F);
    for a in Face::iter() {
        for b in Face::iter() {
            if a.axis() != b.axis() {
                assert_eq!(b.cross(a), a.cross(b).opposite());
            }
        }
    }
}

#[test]
fn directions() {
    assert_eq!(Direction::from_bool(true), Direction::Negative);
    assert!(!Direction::Positive.bool());
    assert_eq!(Direction::from_u8_any(4), Direction::Negative);
    assert_eq!(Direction::from_u8_any(0), Direction::Positive);
    assert_eq!(Direction::from_u8_mod2(6), Direction::Positive);
    assert_eq!(Direction::from_u8(1), Direction::Negative);
    assert_eq!(Direction::Negative.flip(), Direction::Positive);
    assert_eq!(Direction::Negative.xor(Direction::Negative), Direction::Positive);
    assert!(Direction::Positive.is_positive() && Direction::Negative.is_negative());
}

#[test]
fn orientations() {
    assert_eq!(Orientation3::from_u8_mod3(5), Orientation3::two());
    assert_eq!(Orientation3::from_i8_mod3(-1), Orientation3::two());
    assert_eq!(Orientation3::from_u8(1), Orientation3::one());
    assert_eq!(Orientation3::one().neg(), Orientation3::two());
    assert_eq!(Orientation3::zero().neg(), Orientation3::zero());
    assert!(Orientation3::zero().is_oriented());
    assert_eq!(Orientation3::two().u8(), 2);
}

#[test]
fn from_faces_produces_corner_with_those_faces() {
    for d1 in [Direction::Positive, Direction::Negative] {
        for d2 in [Direction::Positive, Direction::Negative] {
            for d3 in [Direction::Positive, Direction::Negative] {
                let faces =
                    [Face::new(Axis::X, d1), Face::new(Axis::Y, d2), Face::new(Axis::Z, d3)];
                assert_eq!(CornerPosition::from_faces(faces).faces(), faces);
                let turned = [faces[2], faces[0], faces[1]];
                assert_eq!(CornerPosition::from_faces(turned).faces(), faces);
            }
        }
    }
    assert_eq!(CornerPosition::from_faces([Face::L, Face::U, Face::B]).u8(), 0b101);
}

#[test]
fn corner_turn_distnace_distribution_is_1_6_1() {
    for position in CornerPosition::all() {
        let mut bins = [0, 0, 0];
        for other in CornerPosition::all() {
            bins[position.turn_distance(other) as usize] += 1;
        }
        assert_eq!(bins, [1, 6, 1]);
    }
}

#[test]
fn from_faces_produces_edge_with_those_faces() {
    for f1 in Face::iter() {
        for f2 in Face::iter() {
            if f1.axis() != f2.axis() {
                let position = EdgePosition::from_faces([f1, f2]);
                let faces = position.faces();
                assert!(faces == [f1, f2] || faces == [f2, f1]);
                assert!(position.contains_face(f1) && position.contains_face(f2));
            }
        }
    }
    assert_eq!(EdgePosition::from_faces([Face::R, Face::U]).index(), 0b1000);
    assert_eq!(EdgePosition::from_faces([Face::R, Face::B]).index(), 0b0101);
}

#[test]
fn edge_turn_distnace_distribution_is_1_6_5() {
    for position in EdgePosition::all() {
        let mut bins = [0, 0, 0];
        for other in EdgePosition::all() {
            bins[position.turn_distance(other) as usize] += 1;
        }
        assert_eq!(bins, [1, 6, 5]);
    }
}

#[test]
fn corner_accessors() {
    let mut corner = Corner::solved(5);
    assert_eq!(corner.x(), Direction::Negative);
    assert_eq!(corner.y(), Direction::Positive);
    assert_eq!(corner.z(), Direction::Negative);
    assert!(corner.is_oriented());
    assert_eq!(corner.faces(), [Face::L, Face::U, Face::B]);
    assert!(corner.on_face(Face::L) && !corner.on_face(Face::R));
    corner.set_orientation(Orientation3::two());
    assert_eq!(corner.orientation(), Orientation3::two());
    assert_eq!(corner.position(), CornerPosition::from_index(5));
    assert_eq!(corner, CornerPosition::from_index(5).with_orientation(Orientation3::two()));
    assert_eq!(corner.direction_on_axis(Axis::Y), Direction::Positive);
    let position = CornerPosition::from_index(6);
    assert_eq!((position.x(), position.y(), position.z()),
        (Direction::Positive, Direction::Negative, Direction::Negative));
    assert_eq!(position.parity(), 0);
    assert_eq!(CornerPosition::from_index(7).parity(), 1);
    assert!(position.contains_face(Face::D));
    assert_eq!(position.pick(Corner::all_solved()), Corner::solved(6));
    assert_eq!(Corner::ORIENTATION_AXIS, Axis::Y);
}

#[test]
fn edge_accessors() {
    let mut edge = Edge::solved(9);
    assert_eq!(edge.a(), Direction::Negative);
    assert_eq!(edge.b(), Direction::Positive);
    assert_eq!(edge.normal(), Axis::Z);
    assert_eq!(edge.orientation(), Direction::Positive);
    assert!(edge.is_oriented());
    edge.set_oriented(false);
    assert_eq!(edge.orientation(), Direction::Negative);
    assert_eq!(edge.position(), EdgePosition::from_index(9));
    assert_eq!(edge, EdgePosition::from_index(9).with_orientation(Direction::Negative));
    assert_eq!(edge.faces(), [Face::L, Face::U]);
    assert_eq!(Edge::solved(3).current(&Edge::all_solved()), Edge::solved(3));
    let position = EdgePosition::from_index(4);
    assert_eq!(position.normal(), Axis::Y);
    assert_eq!(position.faces(), [Face::F, Face::R]);
    assert_eq!(position.orientation_axis(), Axis::Z);
    assert_eq!(position.non_orientation_axis(), Axis::X);
    assert_eq!(position.orientation_face(), Face::F);
    assert_eq!(position.other_face(), Face::R);
    assert_eq!(position.direction_on_axis(Axis::X), Direction::Positive);
    assert_eq!(position.face_on_axis(Axis::Z), Face::F);
    assert_eq!((position.a(), position.b()), (Direction::Positive, Direction::Positive));
    assert_eq!(EdgePosition::from_index(0).orientation_axis(), Axis::Y);
    assert_eq!(position.pick(&Edge::all_solved()), Edge::solved(4));
}

#[test]
fn stickers_of_a_solved_cube_are_the_faces() {
    let cube = Cube::solved();
    for face in Face::iter() {
        for up in Face::iter() {
            if up.axis() != face.axis() {
                for col in 0..3 {
                    for row in 0..3 {
                        assert_eq!(cube.sticker_at(face, up, col, row), face);
                    }
                }
            }
        }
    }
}

#[test]
fn stickers_after_moves() {
    // After U, the upper row of the front shows the right face's colour.
    let cube = Cube::solved().mov_single(U());
    for col in 0..3 {
        assert_eq!(cube.sticker_at(Face::F, Face::U, col, 0), Face::R);
        assert_eq!(cube.sticker_at(Face::F, Face::U, col, 1), Face::F);
        assert_eq!(cube.sticker_at(Face::R, Face::U, col, 0), Face::B);
        assert_eq!(cube.sticker_at(Face::U, Face::B, col, 2), Face::U);
    }
    // After R, the right column of the front shows the lower face's colour.
    let cube = Cube::solved().mov_single(R());
    for row in 0..3 {
        assert_eq!(cube.sticker_at(Face::F, Face::U, 2, row), Face::D);
        assert_eq!(cube.sticker_at(Face::U, Face::B, 2, row), Face::F);
        assert_eq!(cube.sticker_at(Face::F, Face::U, 0, row), Face::F);
    }
    // After F, the lower row of the upper face shows the left face's colour.
    let cube = Cube::solved().mov_single(F());
    for col in 0..3 {
        assert_eq!(cube.sticker_at(Face::U, Face::B, col, 2), Face::L);
        assert_eq!(cube.sticker_at(Face::F, Face::U, col, 0), Face::F);
    }
    let corners = Cube::solved().corner_pieces();
    assert_eq!(corner::sticker(corners[3], CornerPosition::from_index(3), Face::L), Face::L);
    let edges = Cube::solved().edge_pieces();
    assert_eq!(edge::sticker(edges[8], EdgePosition::from_index(8), Face::U), Face::U);
}

#[test]
fn factorials_and_binomials() {
    assert_eq!(fac(0), 1);
    assert_eq!(fac(4), 24);
    assert_eq!(fac(8), 40320);
    assert_eq!(fac(12), 479001600);
    assert_eq!(binomial_coefficient(12, 4), 495);
    assert_eq!(binomial_coefficient(11, 4), 330);
    assert_eq!(binomial_coefficient(4, 0), 1);
    assert_eq!(binomial_coefficient(3, 4), 0);
    assert_eq!(binomial_coefficient(30, 15), 155117520);
}
