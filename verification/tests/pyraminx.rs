use norcina::pyraminx::center::Centers;
use norcina::pyraminx::edge::{move_pieces, move_pieces_in_place, Edge};
use norcina::pyraminx::mov::{Amount, CoreMove, Move};
use norcina::pyraminx::piece::{Face, Vertex};
use norcina::pyraminx::puzzle::{CorePyraminx, Pyraminx};
use norcina::pyraminx::tip::Tips;
use norcina::types::{Axis, Direction, Orientation3};

#[test]
fn fn_vertex_x_logic_is_correct() {
    for (input, output) in [(0b00, 0), (0b01, 1), (0b10, 1), (0b11, 0)] {
        assert_eq!(Vertex::from_u8(input).x().u8(), output)
    }
}

#[test]
fn fn_offset_has_correct_results_for_every_input() {
    let r = Vertex::R();
    let l = Vertex::L();
    let u = Vertex::U();
    let b = Vertex::B();

    for (anchor, cycle) in [(u, [r, l, b]), (r, [l, u, b]), (l, [u, r, b]), (b, [r, u, l])] {
        for start in 0..3 {
            for i in 0..3 {
                let orientation = Orientation3::from_u8(i as u8);
                assert_eq!(
                    anchor.offset(cycle[start], orientation),
                    cycle[(start + i) % 3],
                    "Expected anchor {anchor:?} with face {2:?} offseted by {orientation:?} to result in {1:?} (from cycle {cycle:?}), but it resulted in {0:?}",
                    anchor.offset(cycle[start], orientation),
                    cycle[(start + i) % 3],
                    cycle[start],
                );
            }
        }
    }
}

#[test]
fn rotating_either_of_a_pair_of_vertices_around_the_other_results_in_the_same_vertex() {
    for v1 in [Vertex::R(), Vertex::L(), Vertex::U(), Vertex::B()] {
        for v2 in [Vertex::R(), Vertex::L(), Vertex::U(), Vertex::B()] {
            if v1 == v2 {
                continue;
            }

            for offset in [Orientation3::one(), Orientation3::two()] {
                assert_eq!(v1.offset(v2, offset), v2.offset(v1, offset.neg()))
            }
        }
    }
}

#[test]
fn snapshot_solved_pyraminx() {
    let solved = Pyraminx::solved();
    for (face, base) in [
        (Face::R(), Vertex::L()),
        (Face::B(), Vertex::U()),
        (Face::L(), Vertex::R()),
        (Face::U(), Vertex::B()),
    ] {
        for row in 0..3u8 {
            for index in 0..=2 * row {
                assert_eq!(solved.sticker_at(face, base, row, index), face);
            }
        }
    }
}

#[test]
fn snapshot_every_move() {
    for vertex in Vertex::all() {
        for amount in [Amount::Single, Amount::Reverse] {
            for tip in [false, true] {
                let mov = Move::new(vertex, amount, tip);
                let once = Pyraminx::solved().mov(&[mov]);
                assert_ne!(once, Pyraminx::solved());
                assert_eq!(once.inner == CorePyraminx::solved(), tip);
                assert_eq!(once.mov(&[mov, mov]), Pyraminx::solved());
                let back = Move::new(
                    vertex,
                    if amount == Amount::Single { Amount::Reverse } else { Amount::Single },
                    tip,
                );
                assert_eq!(once.mov_single(back), Pyraminx::solved());
            }
        }
    }
}

#[test]
fn pyraminx_moves() {
    assert_eq!(Move::R().core_move(), CoreMove::new(Vertex::R(), Amount::Single));
    assert_eq!(Move::UP().core_move().amount(), Amount::Reverse);
    assert_eq!(Move::L().core_move().vertex(), Vertex::L());
    assert!(!Move::B().is_tip_move());
    assert!(Move::B().toggle_tip().is_tip_move());
    assert_eq!(Move::B().toggle_tip().toggle_tip(), Move::B());
    assert_eq!(Move::BP().notation(), ('B', '\''));
    assert_eq!(Move::LP().toggle_tip().notation(), ('l', '\''));
    assert_eq!(Move::U().notation(), ('U', ' '));
    assert_eq!(Move::RP(), Move::new(Vertex::R(), Amount::Reverse, false));
    assert_eq!(Amount::from_u8(1), Amount::Reverse);
    assert_eq!(Amount::from_u8_mod2(2), Amount::Single);
    assert_eq!(Amount::Reverse.u8(), 1);
    assert_eq!(CoreMove::all()[0], CoreMove::new(Vertex::R(), Amount::Single));
    assert_eq!(CoreMove::all()[7], CoreMove::new(Vertex::B(), Amount::Reverse));
}

#[test]
fn pyraminx_vertices() {
    assert_eq!(Vertex::U().u8(), 0);
    assert_eq!(Vertex::from_u8_mod4(7), Vertex::R());
    assert_eq!(Vertex::R().y(), Direction::Negative);
    assert_eq!(Vertex::B().z(), Direction::Negative);
    assert_eq!(Vertex::L().z(), Direction::Positive);
    assert_eq!(Vertex::L().direction_on_axis(Axis::X), Direction::Negative);
    assert_eq!(Vertex::R().orientation_direction(), Direction::Positive);
    assert_eq!(Vertex::R().offset_face(Face::U(), Orientation3::one()), Face::B());
    assert_eq!(Face::new(Vertex::L()), Face::L());
}

#[test]
fn pyraminx_centers_and_tips() {
    let moved = Centers::solved().mov(CoreMove::new(Vertex::B(), Amount::Single));
    assert_eq!(moved.orientation_of(Vertex::B()), Orientation3::one());
    assert_eq!(moved.orientation_of(Vertex::U()), Orientation3::zero());
    let again = moved.mov(CoreMove::new(Vertex::U(), Amount::Reverse));
    assert_eq!(again.orientation_of(Vertex::U()), Orientation3::two());
    assert_eq!(again.orientation_of(Vertex::B()), Orientation3::one());
    let tips = Tips::solved().mov(CoreMove::new(Vertex::R(), Amount::Reverse));
    assert_eq!(tips.orientation_of(Vertex::R()), Orientation3::two());
    assert_eq!(tips.as_centers().orientation_of(Vertex::L()), Orientation3::zero());
}

#[test]
fn pyraminx_edges() {
    assert_eq!(Edge::solved(Axis::Z, Direction::Negative), Edge::from_index(5));
    let edge = Edge::from_index(3);
    assert_eq!(edge.u8(), 3);
    assert_eq!(edge.axis(), Axis::Y);
    assert_eq!(edge.axis_direction(), Direction::Negative);
    assert!(edge.is_oriented() && edge.is_on_orientation_face());
    assert_eq!(edge.vertices(), [Vertex::L(), Vertex::R()]);
    assert_eq!(edge.faces(), [Face::U(), Face::B()]);
    assert_eq!(edge.orientation_face(), Face::U());
    assert_eq!(edge.non_orientation_face(), Face::B());
    assert_eq!(Edge::from_index(0).orientation_face(), Face::B());
    assert_eq!(Edge::from_index(0).non_orientation_face(), Face::L());
    for v1 in Vertex::all() {
        for v2 in Vertex::all() {
            if v1 != v2 {
                let faces = Edge::position_from_faces([Face::new(v1), Face::new(v2)]).faces();
                assert!(faces.contains(&Face::new(v1)) && faces.contains(&Face::new(v2)));
            }
        }
    }
    let turn = CoreMove::new(Vertex::L(), Amount::Single);
    let moved = move_pieces(Edge::all_solved(), turn);
    assert_ne!(moved, Edge::all_solved());
    let mut thrice = moved;
    move_pieces_in_place(&mut thrice, turn);
    move_pieces_in_place(&mut thrice, turn);
    assert_eq!(thrice, Edge::all_solved());
    assert_eq!(CorePyraminx::solved().mov(turn).edges, moved);
}
