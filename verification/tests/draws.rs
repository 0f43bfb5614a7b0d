use norcina::cube3::cube::Cube;
use norcina::cube3::random::{corners_from_draws, edges_from_draws};
use norcina::cube_n::corner::{Corner, CornerPosition};
use norcina::cube_n::edge::{Edge, EdgePosition};
use norcina::types::{Direction, Orientation3};

fn corner(home: u8, twist: u8) -> Corner {
    CornerPosition::from_index(home).with_orientation(Orientation3::from_u8(twist))
}

fn edge(home: u8, flipped: bool) -> Edge {
    EdgePosition::from_index(home).with_orientation(Direction::from_bool(flipped))
}

#[test]
fn corners_are_made_of_their_draws() {
    let homes = [3u8, 7, 0, 5, 1, 6, 2, 4];
    let twists = [1u8, 2, 0, 1, 2, 0, 1];
    let corners = corners_from_draws(&homes, &twists);
    for k in 0..7 {
        assert_eq!(corners[k], corner(homes[k], twists[k]));
    }
    // The drawn twists add up to 7: two more make a multiple of 3.
    assert_eq!(corners[7], corner(4, 2));
}

#[test]
fn the_last_corner_closes_the_twists() {
    let homes = [0u8, 1, 2, 3, 4, 5, 6, 7];
    assert_eq!(corners_from_draws(&homes, &[0, 0, 0, 0, 0, 0, 0]), Corner::all_solved());
    assert_eq!(corners_from_draws(&homes, &[2, 2, 2, 0, 0, 0, 0])[7], corner(7, 0));
    assert_eq!(corners_from_draws(&homes, &[1, 0, 0, 0, 0, 0, 0])[7], corner(7, 2));
    assert_eq!(corners_from_draws(&homes, &[2, 0, 0, 0, 0, 0, 0])[7], corner(7, 1));
    assert_eq!(corners_from_draws(&homes, &[2, 2, 2, 2, 2, 2, 2])[7], corner(7, 1));
}

#[test]
fn edges_are_made_of_their_draws() {
    let homes = [11u8, 4, 0, 9, 1, 6, 2, 8, 3, 10, 5, 7];
    let flips = [true, false, false, true, false, false, true, false, false, false, false];
    let edges = edges_from_draws(&homes, &flips);
    for k in 0..11 {
        assert_eq!(edges[k], edge(homes[k], flips[k]));
    }
    // Three edges are flipped: the last one makes them four.
    assert_eq!(edges[11], edge(7, true));
}

#[test]
fn the_last_edge_closes_the_flips() {
    let homes = [0u8, 1, 2, 3, 4, 5, 6, 7, 8, 9, 10, 11];
    assert_eq!(edges_from_draws(&homes, &[false; 11]), Edge::all_solved());
    assert_eq!(edges_from_draws(&homes, &[true; 11])[11], edge(11, true));
    let mut flips = [false; 11];
    flips[4] = true;
    flips[9] = true;
    assert_eq!(edges_from_draws(&homes, &flips)[11], edge(11, false));
}

#[test]
fn matching_parities_leave_the_pieces() {
    let scrambled = Cube::solved().mov(&norcina::cube3::algs::T());
    for swap_corners in [false, true] {
        for first in 0..8 {
            for drawn in 0..7 {
                let cube = Cube::with_matching_parity(
                    scrambled.corner_pieces(),
                    scrambled.edge_pieces(),
                    swap_corners,
                    first,
                    drawn,
                );
                assert_eq!(cube, scrambled);
            }
        }
    }
}

#[test]
fn other_parities_swap_the_drawn_pieces() {
    // Two corners have traded places: the corners are in an odd arrangement.
    let mut corners = Corner::all_solved();
    corners.swap(0, 1);
    let edges = Edge::all_solved();

    // The draw 0 among the slots other than 0 is the slot 1.
    assert_eq!(Cube::with_matching_parity(corners, edges, true, 0, 0), Cube::solved());
    // The draw 2 among the slots other than 5 is the slot 2.
    let mut expected = corners;
    expected.swap(5, 2);
    assert_eq!(
        Cube::with_matching_parity(corners, edges, true, 5, 2),
        Cube::from_pieces(expected, edges).unwrap()
    );
    // The draw 6 among the slots other than 3 is the slot 7.
    let mut expected = corners;
    expected.swap(3, 7);
    assert_eq!(
        Cube::with_matching_parity(corners, edges, true, 3, 6),
        Cube::from_pieces(expected, edges).unwrap()
    );
    // The draw 3 among the slots other than 3 is the slot 4, of the edges.
    let mut expected = edges;
    expected.swap(3, 4);
    assert_eq!(
        Cube::with_matching_parity(corners, edges, false, 3, 3),
        Cube::from_pieces(corners, expected).unwrap()
    );
    // The draw 10 among the slots other than 0 is the slot 11.
    let mut expected = edges;
    expected.swap(0, 11);
    assert_eq!(
        Cube::with_matching_parity(corners, edges, false, 0, 10),
        Cube::from_pieces(corners, expected).unwrap()
    );
}
