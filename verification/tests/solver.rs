use norcina::cube3::algs;
use norcina::cube3::cube::Cube;
use norcina::cube3::kociemba::{
    is_in_g1, solve, solve_from_g1, solve_to_g1, solve_with_table,
};
use norcina::cube3::coordinate::g1_moves;
use norcina::cube3::prune_table::{PruneTable, TABLE_BYTES};
use norcina::cube3::search::{
    manhattan_distance, search_bfs, search_idastar, solve_bfs, solve_manhattan, Goal, Guide,
    SearchSolution,
};
use norcina::cube_n::moves::{D, D2, F2, L, R, R2, U, U2, UP};
use rand::rngs::SmallRng;
use rand::SeedableRng;

#[test]
fn solved_cube_is_in_g1() {
    assert!(is_in_g1(Cube::solved()))
}

#[test]
fn moves_in_g1_stay_in_g1() {
    let moves = g1_moves();
    let mut state = Cube::solved();
    let mut pick: usize = 3;
    for _ in 0..200 {
        pick = (pick * 7 + 5) % 10;
        state = state.mov_single(moves[pick]);
        assert!(is_in_g1(state));
    }
    assert!(!is_in_g1(Cube::solved().mov_single(R())));
    assert!(!is_in_g1(Cube::solved().mov_single(norcina::cube_n::moves::F())));
    assert_eq!(moves, [U(), U2(), UP(), D(), D2(), norcina::cube_n::moves::DP(), R2(),
        norcina::cube_n::moves::L2(), F2(), norcina::cube_n::moves::B2()]);
}

#[test]
fn two_phases_solve_a_scramble() {
    let table = PruneTable::generate();
    let scramble = [R(), U(), D(), F2(), R(), L(), D2()];
    let cube = Cube::solved().mov(&scramble);
    let solution = solve_with_table(cube, &table).expect("a way to the solved cube");
    assert_eq!(solution.initial_state(), cube);
    assert!(solution.final_state().is_solved());
    let states = solution.states().clone();
    let moves = solution.moves();
    assert_eq!(moves.len() + 1, states.len());
    assert!(moves.len() <= 22);
    assert!(cube.mov(&moves).is_solved());
    // The same tables give the same solution.
    let again = solve_with_table(cube, &table).expect("a way to the solved cube");
    assert_eq!(again.moves(), moves);
    // The phases by themselves.
    let first = solve_to_g1(cube, &table).expect("a way into G1");
    assert!(is_in_g1(first.final_state()));
    let second = solve_from_g1(first.final_state(), &table).expect("a way within G1");
    assert!(second.final_state().is_solved());
    assert!(second.states().iter().all(|state| is_in_g1(*state)));
    assert!(second.follows(&Guide::FromG1(&table)));
    let g1 = g1_moves();
    assert!(second.moves().iter().all(|mov| g1.contains(mov)));
    // Bounds of the heuristics.
    assert_eq!(table.phase1_distance_heuristic(Cube::solved()), 0);
    assert_eq!(table.phase2_distance_heuristic(Cube::solved()), 0);
    assert_eq!(table.phase1_distance_heuristic(Cube::solved().mov_single(R())), 1);
    assert_eq!(table.phase2_distance_heuristic(Cube::solved().mov_single(U())), 1);
    assert_eq!(table.phase1_distance_heuristic(Cube::solved().mov_single(U())), 0);
    // A seeded random state, of G1 so that the search is short.
    let mut rng = SmallRng::seed_from_u64(12300);
    let random = Cube::random_with_rng(&mut rng);
    let again = Cube::random_with_rng(&mut SmallRng::seed_from_u64(12300));
    assert_eq!(random, again);
    // The tables as bytes.
    let bytes = table.to_bytes();
    assert_eq!(bytes.len(), TABLE_BYTES);
    assert_eq!(bytes[0], 0);
    assert_eq!(bytes[2187], 0);
    assert_eq!(bytes[4235 + 69], 0);
    assert_eq!(bytes[4730], 0);
    let loaded = PruneTable::from_bytes(&bytes).expect("as many bytes as the tables have");
    assert_eq!(loaded.to_bytes(), bytes);
    assert!(PruneTable::from_bytes(&bytes[1..]).is_none());
    let cached = PruneTable::load_or_generate(Some(&bytes));
    assert_eq!(cached.to_bytes(), bytes);
}

#[test]
fn two_builds_give_the_same_tables() {
    let first = PruneTable::generate().to_bytes();
    let second = PruneTable::load_or_generate(None).to_bytes();
    assert!(first == second);
    assert!(first.iter().all(|&entry| entry < 20));
}

#[test]
fn solve_without_tables_at_hand() {
    let cube = Cube::solved().mov(&[R(), U()]);
    let solution = solve(cube).expect("a way to the solved cube");
    assert_eq!(solution.initial_state(), cube);
    let alg = solution.alg();
    assert!(cube.mov(&alg.moves).is_solved());
    assert!(alg.moves.len() <= 4);
}

#[test]
fn searches_by_other_guides() {
    let cube = Cube::solved().mov(&[R(), U2()]);
    let found = solve_bfs(cube).expect("a way to the solved cube");
    assert_eq!(found.moves(), [U2(), norcina::cube_n::moves::RP()]);
    let found = search_bfs(cube, Goal::G1).expect("a way into G1");
    assert!(is_in_g1(found.final_state()));
    assert_eq!(found.states().len(), 3);
    let found = solve_manhattan(Cube::solved().mov(&[R()])).expect("a way to the solved cube");
    assert!(found.final_state().is_solved());
    let found = search_idastar(cube, &Guide::Manhattan).expect("a way to the solved cube");
    assert!(found.final_state().is_solved());
    assert_eq!(manhattan_distance(Cube::solved()), 0);
    assert_eq!(manhattan_distance(Cube::solved().mov_single(R())), 8);
    assert_eq!(manhattan_distance(Cube::solved().mov_single(R2())), 8);
}

#[test]
fn solutions_are_checked() {
    let solved = Cube::solved();
    let once = solved.mov_single(R());
    let twice = once.mov_single(U());
    assert_eq!(SearchSolution::connect(solved, once), Some(R()));
    assert_eq!(SearchSolution::connect(solved, twice), None);
    assert_eq!(SearchSolution::connect(solved, solved), None);
    let path = SearchSolution::from_states(vec![solved, once, twice]).expect("a path");
    assert_eq!(path.final_state(), twice);
    assert_eq!(path.moves(), [R(), U()]);
    assert!(SearchSolution::from_states(vec![solved, twice]).is_none());
    assert!(SearchSolution::from_states(vec![]).is_none());
    assert!(SearchSolution::checked(None, &solved, Goal::Solved).is_none());
    assert!(SearchSolution::checked(Some(vec![twice, once, solved]), &twice, Goal::Solved).is_some());
    assert!(SearchSolution::checked(Some(vec![twice, once, solved]), &once, Goal::Solved).is_none());
    assert!(SearchSolution::checked(Some(vec![solved, once]), &solved, Goal::Solved).is_none());
    assert!(SearchSolution::checked(Some(vec![once, solved]), &once, Goal::G1).is_some());
    let back = SearchSolution::from_states(vec![twice, once, solved]).expect("a path");
    let there = SearchSolution::from_states(vec![solved, once, twice]).expect("a path");
    let joint = there.concat(back);
    assert_eq!(joint.states().len(), 5);
    assert_eq!(joint.moves(), [R(), U(), UP(), norcina::cube_n::moves::RP()]);
    let t = Cube::solved().mov(&algs::T());
    assert!(Goal::Solved.holds(&solved) && !Goal::Solved.holds(&t));
    assert!(Goal::G1.holds(&solved) && !Goal::G1.holds(&once));
}

#[test]
fn steps_are_held_to_the_moves_of_the_guide() {
    // The steps do not look at what the tables hold.
    let table = PruneTable::from_bytes(&vec![0u8; TABLE_BYTES]).expect("as many bytes as the tables have");
    let within = Guide::FromG1(&table);
    let solved = Cube::solved();
    assert!(within.joins(&solved, &solved.mov_single(U())));
    assert!(within.joins(&solved, &solved.mov_single(norcina::cube_n::moves::R2())));
    assert!(!within.joins(&solved, &solved.mov_single(R())));
    assert!(!within.joins(&solved, &solved));
    assert!(Guide::Manhattan.joins(&solved, &solved.mov_single(R())));
    assert!(Guide::ToG1(&table).joins(&solved, &solved.mov_single(R())));
    assert!(!Guide::Manhattan.joins(&solved, &solved.mov(&[R(), U()])));

    let states = vec![solved, solved.mov_single(U()), solved.mov(&[U(), R()])];
    let path = SearchSolution::from_states(states).expect("a path");
    assert!(path.follows(&Guide::Manhattan));
    assert!(!path.follows(&within));
    let states = vec![solved, solved.mov_single(U()), solved.mov(&[U(), norcina::cube_n::moves::R2()])];
    let path = SearchSolution::from_states(states).expect("a path");
    assert!(path.follows(&within));
}
