use norcina::alg::Alg;
use norcina::cube3::algs;
use norcina::cube3::cube::Cube;
use norcina::cube_n::corner::Corner;
use norcina::cube_n::edge::Edge;
use norcina::cube_n::face::Face;
use norcina::cube_n::mov::{Amount, Move};
use norcina::cube_n::moves::{B2, D, D2, F, F2, FP, L, L2, R, R2, RP, U, U2, UP};
use norcina::mov::InvertibleMove;
use rand::rngs::SmallRng;
use rand::SeedableRng;

/// A few cubes to try things on: the solved one, scrambled ones, random ones.
fn samples() -> Vec<Cube> {
    let mut cubes = vec![
        Cube::solved(),
        Cube::solved().mov(&algs::T()),
        Cube::solved().mov(&algs::SEXY()),
        Cube::solved().mov(&[R(), U(), D(), F2(), R(), L(), D2()]),
    ];
    let mut rng = SmallRng::seed_from_u64(12300);
    for _ in 0..20 {
        cubes.push(Cube::random_with_rng(&mut rng));
    }
    cubes
}

#[test]
fn mod_instance_all_basic_moves() {
    for mov in Move::iter() {
        println!("Move is {:?}", mov);
        let moved = Cube::solved().mov_single(mov);
        assert!(!moved.is_solved());
        assert_eq!(moved.mov_single(mov.inverse()), Cube::solved());
    }
}

#[test]
fn mov_instance_all_basic_moves() {
    let mut seen: Vec<Cube> = Vec::new();
    for mov in Move::iter() {
        let moved = Cube::solved().mov_single(mov);
        assert!(!seen.contains(&moved));
        seen.push(moved);
    }
    assert_eq!(seen.len(), 18);
}

#[test]
fn mod_ua_ub_cancel() {
    assert!(Cube::solved().mov(&algs::U_A()).mov(&algs::U_B()).is_solved())
}

#[test]
fn mov_ua_ub_cancel() {
    assert!(Cube::solved().mov(&algs::U_A()).mov(&algs::U_B()).is_solved())
}

#[test]
fn move_and_reverse_identity() {
    for cube in samples() {
        for mov in Move::iter() {
            assert_eq!(cube.mov_single(mov).mov_single(mov.inverse()), cube);
        }
    }
}

#[test]
fn fn_move_constructor_and_accessors_maintain_values() {
    for face in Face::iter() {
        for amount in Amount::iter() {
            let mov = Move::new(face, amount);
            assert_eq!(mov.face(), face);
            assert_eq!(mov.amount(), amount);
            assert_eq!(mov.axis(), face.axis());
            assert_eq!(mov.inverse(), Move::new(face, amount.reverse()));
        }
    }
}

#[test]
fn fn_double_double_identity() {
    for cube in samples() {
        for face in Face::iter() {
            let mov = Move::new(face, Amount::Double);
            assert_eq!(cube.mov(&[mov, mov]), cube);
        }
    }
}

#[test]
fn four_quarter_turns_are_identity() {
    for cube in samples() {
        for face in Face::iter() {
            let single = Move::new(face, Amount::Single);
            assert_eq!(cube.mov(&[single, single, single, single]), cube);
            let reverse = Move::new(face, Amount::Reverse);
            assert_eq!(cube.mov(&[reverse, reverse, reverse, reverse]), cube);
        }
    }
}

#[test]
fn fn_rrp_identity() {
    for cube in samples() {
        assert_eq!(cube.mov(&[R(), RP()]), cube);
    }
}

#[test]
fn fn_single_double_equals_reverse() {
    for cube in samples() {
        assert_eq!(cube.mov(&[R(), R2()]), cube.mov(&[RP()]));
        for face in Face::iter() {
            let moves = [Move::new(face, Amount::Single), Move::new(face, Amount::Double)];
            assert_eq!(cube.mov(&moves), cube.mov_single(Move::new(face, Amount::Reverse)));
        }
    }
}

#[test]
fn moves_keep_the_cube_well_formed() {
    for cube in samples() {
        for mov in Move::iter() {
            let moved = cube.mov_single(mov);
            let rebuilt = Cube::from_pieces(moved.corner_pieces(), moved.edge_pieces());
            assert_eq!(rebuilt, Some(moved));
        }
    }
}

#[test]
fn from_pieces_refuses_what_no_cube_has() {
    let solved = Cube::solved();
    // One corner twisted.
    let mut corners = solved.corner_pieces();
    corners[0] = corners[0].position().with_orientation(norcina::types::Orientation3::one());
    assert_eq!(Cube::from_pieces(corners, solved.edge_pieces()), None);
    // One edge flipped.
    let mut edges = solved.edge_pieces();
    edges[3] = edges[3].position().with_orientation(norcina::types::Direction::Negative);
    assert_eq!(Cube::from_pieces(solved.corner_pieces(), edges), None);
    // Two corners swapped.
    let mut corners = solved.corner_pieces();
    corners.swap(0, 1);
    assert_eq!(Cube::from_pieces(corners, solved.edge_pieces()), None);
    // The same corner twice.
    let mut corners = solved.corner_pieces();
    corners[1] = corners[0];
    assert_eq!(Cube::from_pieces(corners, solved.edge_pieces()), None);
    // Two corners and two edges swapped.
    let mut corners = solved.corner_pieces();
    corners.swap(0, 1);
    let mut edges = solved.edge_pieces();
    edges.swap(4, 9);
    assert!(Cube::from_pieces(corners, edges).is_some());
    assert_eq!(Cube::from_pieces(Corner::all_solved(), Edge::all_solved()), Some(solved));
}

#[test]
fn sexy_move_has_order_six() {
    let mut cube = Cube::solved();
    for round in 0..6 {
        assert_eq!(cube.is_solved(), round == 0);
        cube = cube.mov(&algs::SEXY());
    }
    assert!(cube.is_solved());
    assert_eq!(algs::SEXY(), [R(), U(), RP(), UP()]);
}

#[test]
fn checkerboard_twice_is_solved() {
    let once = Cube::solved().mov(&algs::CHECKER());
    assert!(!once.is_solved());
    assert!(once.mov(&algs::CHECKER()).is_solved());
    assert_eq!(algs::CHECKER(), [R2(), L2(), U2(), D2(), F2(), B2()]);
}

#[test]
fn t_perm_twice_is_solved() {
    let t = [R(), U(), RP(), UP(), RP(), F(), R2(), UP(), RP(), UP(), R(), U(), RP(), FP()];
    assert_eq!(algs::T(), t);
    let once = Cube::solved().mov(&t);
    assert!(!once.is_solved());
    assert!(once.mov(&t).is_solved());
}

#[test]
fn exact_pieces_after_r() {
    // R passes the corners 0, 4, 6, 2 and the edges 4, 8, 5, 10 round.
    let cube = Cube::solved().mov_single(R());
    let corners: Vec<(u8, u8)> = cube
        .corner_pieces()
        .iter()
        .map(|corner| (corner.position().u8(), corner.orientation().u8()))
        .collect();
    assert_eq!(
        corners,
        [(2, 2), (1, 0), (6, 1), (3, 0), (0, 1), (5, 0), (4, 2), (7, 0)]
    );
    let edges: Vec<(u8, bool)> = cube
        .edge_pieces()
        .iter()
        .map(|edge| (edge.position().index(), edge.is_oriented()))
        .collect();
    assert_eq!(
        edges,
        [
            (0, true),
            (1, true),
            (2, true),
            (3, true),
            (10, true),
            (8, true),
            (6, true),
            (7, true),
            (4, true),
            (9, true),
            (5, true),
            (11, true)
        ]
    );
    // F flips the four edges that it moves.
    let cube = Cube::solved().mov_single(F());
    let flipped: Vec<usize> = (0..12).filter(|&i| !cube.edge_pieces()[i].is_oriented()).collect();
    assert_eq!(flipped, [0, 1, 4, 6]);
}

#[test]
fn reversed_algorithm_undoes_it() {
    for cube in samples() {
        let alg = Alg { moves: algs::J().to_vec() };
        let there = cube.mov(&alg.moves);
        let back = there.mov(&alg.clone().reversed().moves);
        assert_eq!(back, cube);
    }
    let mut alg = Alg { moves: vec![R(), U2(), FP()] };
    alg.reverse();
    assert_eq!(alg.moves, [F(), U2(), RP()]);
    assert_eq!(alg.len(), 3);
}

#[test]
fn neighbors_are_the_eighteen_moves() {
    let cube = Cube::solved().mov(&algs::SLEDGEHAMMER());
    let neighbors = cube.neighbors();
    assert_eq!(neighbors.len(), 18);
    for (k, (mov, next)) in neighbors.into_iter().enumerate() {
        assert_eq!(mov, Move::iter()[k]);
        assert_eq!(next, cube.mov_single(mov));
    }
    assert_eq!(Move::iter(), Move::all());
    assert_eq!(Move::iter()[0], R());
    assert_eq!(Move::iter()[4], U2());
    assert_eq!(Move::iter()[17], Move::new(Face::B, Amount::Reverse));
}

#[test]
fn random_cubes_are_reproducible() {
    let mut first = SmallRng::seed_from_u64(7);
    let mut second = SmallRng::seed_from_u64(7);
    for _ in 0..10 {
        assert_eq!(Cube::random_with_rng(&mut first), Cube::random_with_rng(&mut second));
    }
}

#[test]
fn random_pieces_are_shuffled() {
    let mut rng = SmallRng::seed_from_u64(99);
    let mut moved = false;
    for _ in 0..10 {
        let corners = Corner::random(&mut rng);
        let mut homes: Vec<u8> = corners.iter().map(|c| c.position().u8()).collect();
        moved |= homes != [0, 1, 2, 3, 4, 5, 6, 7];
        homes.sort();
        assert_eq!(homes, [0, 1, 2, 3, 4, 5, 6, 7]);
        let twists: u32 = corners.iter().map(|c| c.orientation().u8() as u32).sum();
        assert_eq!(twists % 3, 0);
        let edges = Edge::random(&mut rng);
        let mut homes: Vec<u8> = edges.iter().map(|e| e.position().index()).collect();
        moved |= homes != [0, 1, 2, 3, 4, 5, 6, 7, 8, 9, 10, 11];
        homes.sort();
        assert_eq!(homes, [0, 1, 2, 3, 4, 5, 6, 7, 8, 9, 10, 11]);
        let flips = edges.iter().filter(|e| !e.is_oriented()).count();
        assert_eq!(flips % 2, 0);
    }
    assert!(moved);
}

#[test]
fn move_notation() {
    assert_eq!(R().notation(), ('R', ' '));
    assert_eq!(U2().notation(), ('U', '2'));
    assert_eq!(FP().notation(), ('F', '\''));
    assert_eq!(Move::parse('R', None), Some(R()));
    assert_eq!(Move::parse('R', Some(' ')), Some(R()));
    assert_eq!(Move::parse('L', Some('2')), Some(L2()));
    assert_eq!(Move::parse('F', Some('\'')), Some(FP()));
    assert_eq!(Move::parse('X', None), None);
    assert_eq!(Move::parse('R', Some('3')), None);
    for mov in Move::iter() {
        let (letter, suffix) = mov.notation();
        assert_eq!(Move::parse(letter, Some(suffix)), Some(mov));
    }
    assert_eq!(L().face().char(), 'L');
}
