use norcina::alg::Alg;
use norcina::cube3::algs;
use norcina::cube3::cube::Cube;
use norcina::cube_n::corner::Corner;
use norcina::cube_n::mov::Move;
use norcina::cube_n::moves::{F2, R, RP, U, UP};
use norcina::cube_n::notation::{parse_alg, write_alg};
use norcina::event::Event;
use norcina::scramble::{gen_scramble, DynMove, RandomMove};
use rand::rngs::SmallRng;
use rand::SeedableRng;

#[test]
fn algorithms_are_written_as_text() {
    assert_eq!(write_alg(&[R(), U(), RP(), UP()]), b"R U R' U'");
    assert_eq!(write_alg(&[F2()]), b"F2");
    assert_eq!(write_alg(&[]), b"");
    assert_eq!(write_alg(&algs::T()), b"R U R' U' R' F R2 U' R' U' R U R' F'");
    assert_eq!(write_alg(&algs::CHECKER()), b"R2 L2 U2 D2 F2 B2");
}

#[test]
fn algorithms_are_read_from_text() {
    assert_eq!(parse_alg(b"R U R' U'"), Some(vec![R(), U(), RP(), UP()]));
    assert_eq!(parse_alg(b""), Some(vec![]));
    assert_eq!(parse_alg(b"   "), Some(vec![]));
    assert_eq!(parse_alg(b" R   U2 "), Some(vec![R(), norcina::cube_n::moves::U2()]));
    assert_eq!(parse_alg(b"R U D F2 R L D2").map(|moves| moves.len()), Some(7));
    assert_eq!(parse_alg(b"RU"), None);
    assert_eq!(parse_alg(b"R3"), None);
    assert_eq!(parse_alg(b"X"), None);
    assert_eq!(parse_alg(b"R''"), None);
    assert_eq!(parse_alg(b"2R"), None);
    assert_eq!(parse_alg(b"r"), None);
    for alg in [algs::T().to_vec(), algs::J().to_vec(), algs::U_A().to_vec(), Move::all().to_vec()] {
        assert_eq!(parse_alg(&write_alg(&alg)), Some(alg));
    }
}

#[test]
fn scenarios_from_text() {
    let sexy = parse_alg(b"R U R' U'").expect("an algorithm");
    let mut cube = Cube::solved();
    for _ in 0..6 {
        cube = cube.mov(&sexy);
    }
    assert!(cube.is_solved());
    let checker = parse_alg(b"R2 L2 U2 D2 F2 B2").expect("an algorithm");
    assert!(Cube::solved().mov(&checker).mov(&checker).is_solved());
    let t = parse_alg(b"R U R' U' R' F R2 U' R' U' R U R' F'").expect("an algorithm");
    assert!(Cube::solved().mov(&t).mov(&t).is_solved());
}

#[test]
fn moves_drawn_at_random() {
    let mut rng = SmallRng::seed_from_u64(5);
    let alg: Alg<Move> = Alg::random(200, &mut rng);
    assert_eq!(alg.len(), 200);
    let all = Move::all();
    assert!(alg.moves.iter().all(|mov| all.contains(mov)));
    // Every move comes up in two hundred draws, so the draw is not always the same.
    assert!(all.iter().all(|mov| alg.moves.contains(mov)));
    let again: Alg<Move> = Alg::random(200, &mut SmallRng::seed_from_u64(5));
    assert_eq!(alg, again);
    assert!(all.contains(&Move::random(&mut rng)));
    for _ in 0..50 {
        let corners = Corner::random(&mut rng);
        assert!(corners.iter().all(|corner| corner.orientation().u8() < 3));
    }
}

#[test]
fn scrambles() {
    let mut rng = SmallRng::seed_from_u64(1);
    let scramble = gen_scramble(Event::Cube3, &mut rng);
    let expected: Vec<DynMove> = algs::T().into_iter().map(DynMove::Cube3).collect();
    assert_eq!(scramble.moves, expected);
    assert!(gen_scramble(Event::Pyraminx, &mut rng).moves.is_empty());
}
