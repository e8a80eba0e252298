use tictactoe::board::{evaluate_board, generate_moves};
use tictactoe::get_best_move;
use tictactoe::search::{minimax, NO_MOVE, SEARCH_DEPTH, WIN_SCORE};

fn exhaustive(agent_x: u16, agent_o: u16, depth: i32, maximizing: bool) -> (i32, u16) {
    let score = evaluate_board(agent_x, agent_o);
    if score > 0 {
        return (10 - (9 - depth), 0);
    }
    if score < 0 {
        return ((9 - depth) - 10, 0);
    }
    let moves = generate_moves(agent_x | agent_o);
    if depth == 0 || moves.is_empty() {
        return (0, 0);
    }
    let mut best: Option<(i32, u16)> = None;
    for pos in moves {
        let (value, _) = if maximizing {
            exhaustive(agent_x | pos, agent_o, depth - 1, false)
        } else {
            exhaustive(agent_x, agent_o | pos, depth - 1, true)
        };
        let better = match best {
            None => true,
            Some((held, _)) => {
                if maximizing {
                    value > held
                } else {
                    value < held
                }
            }
        };
        if better {
            best = Some((value, pos));
        }
    }
    best.unwrap()
}

fn reachable_positions() -> Vec<(u16, u16, bool)> {
    let mut seen = vec![false; 1 << 19];
    let mut found: Vec<(u16, u16, bool)> = Vec::new();
    let mut stack: Vec<(u16, u16, bool)> = vec![(0, 0, true), (0, 0, false)];
    while let Some((agent_x, agent_o, turn)) = stack.pop() {
        let key = ((agent_x as usize) << 10) | ((agent_o as usize) << 1) | (turn as usize);
        if seen[key] {
            continue;
        }
        seen[key] = true;
        found.push((agent_x, agent_o, turn));
        if evaluate_board(agent_x, agent_o) != 0 {
            continue;
        }
        for pos in generate_moves(agent_x | agent_o) {
            if turn {
                stack.push((agent_x | pos, agent_o, false));
            } else {
                stack.push((agent_x, agent_o | pos, true));
            }
        }
    }
    found
}

#[test]
fn legal_play_reaches_5478_positions_for_each_opening_side() {
    let positions = reachable_positions();
    let x_opens = positions
        .iter()
        .filter(|(x, o, turn)| {
            let (nx, no) = (x.count_ones(), o.count_ones());
            (nx == no && *turn) || (nx == no + 1 && !*turn)
        })
        .count();
    let o_opens = positions
        .iter()
        .filter(|(x, o, turn)| {
            let (nx, no) = (x.count_ones(), o.count_ones());
            (nx == no && !*turn) || (no == nx + 1 && *turn)
        })
        .count();
    assert_eq!(x_opens, 5478);
    assert_eq!(o_opens, 5478);
}

#[test]
fn no_reachable_position_has_two_winners() {
    let lines: [u16; 8] = [0o700, 0o070, 0o007, 0o444, 0o222, 0o111, 0o421, 0o124];
    for (agent_x, agent_o, turn) in reachable_positions() {
        assert_eq!(agent_x & agent_o, 0);
        assert!(agent_x | agent_o <= 511);
        let x_wins = lines.iter().any(|l| agent_x & l == *l);
        let o_wins = lines.iter().any(|l| agent_o & l == *l);
        assert!(!(x_wins && o_wins));
        if x_wins {
            assert!(!turn);
            assert_eq!(evaluate_board(agent_x, agent_o), 10);
        }
        if o_wins {
            assert!(turn);
            assert_eq!(evaluate_board(agent_x, agent_o), -10);
        }
    }
}

#[test]
fn pruned_search_equals_exhaustive_search_on_every_reachable_position() {
    for (agent_x, agent_o, turn) in reachable_positions() {
        let played = (agent_x | agent_o).count_ones() as i32;
        if played < 2 {
            continue;
        }
        let expected = exhaustive(agent_x, agent_o, 9, turn);
        assert_eq!(minimax(agent_x, agent_o, i32::MIN, i32::MAX, 9, turn), expected);
        assert_eq!(get_best_move(agent_x, agent_o, turn), expected.1);
        let remaining = 9 - played;
        let bounded = exhaustive(agent_x, agent_o, remaining, turn);
        assert_eq!(minimax(agent_x, agent_o, i32::MIN, i32::MAX, remaining, turn), bounded);
        assert_eq!(bounded.1, expected.1);
    }
}

#[test]
fn pruned_search_equals_exhaustive_search_near_the_empty_board() {
    for turn in [true, false] {
        let expected = exhaustive(0, 0, 9, turn);
        assert_eq!(minimax(0, 0, i32::MIN, i32::MAX, 9, turn), expected);
        assert_eq!(expected, (0, 1));
    }
    for cell in 0..9 {
        let pos = 1u16 << cell;
        assert_eq!(minimax(pos, 0, i32::MIN, i32::MAX, 9, false), exhaustive(pos, 0, 9, false));
        assert_eq!(minimax(0, pos, i32::MIN, i32::MAX, 8, true), exhaustive(0, pos, 8, true));
    }
}

#[test]
fn pruned_search_equals_exhaustive_search_at_shallow_depths() {
    for (agent_x, agent_o, turn) in reachable_positions() {
        for depth in 0..4 {
            assert_eq!(
                minimax(agent_x, agent_o, i32::MIN, i32::MAX, depth, turn),
                exhaustive(agent_x, agent_o, depth, turn)
            );
        }
    }
}

#[test]
fn search_on_a_narrow_window_bounds_the_exact_score() {
    for (agent_x, agent_o, turn) in reachable_positions() {
        if (agent_x | agent_o).count_ones() < 3 {
            continue;
        }
        let exact = exhaustive(agent_x, agent_o, 9, turn);
        for (alpha, beta) in [(-1, 1), (0, 10), (-10, 0), (3, 5), (-6, -2)] {
            let found = minimax(agent_x, agent_o, alpha, beta, 9, turn);
            if alpha < exact.0 && exact.0 < beta {
                assert_eq!(found, exact);
            } else if exact.0 <= alpha {
                assert!(exact.0 <= found.0 && found.0 <= alpha);
            } else {
                assert!(beta <= found.0 && found.0 <= exact.0);
            }
        }
    }
}

#[test]
fn empty_board_is_worth_a_draw_and_the_first_cell_is_played() {
    assert_eq!(minimax(0, 0, i32::MIN, i32::MAX, SEARCH_DEPTH, true), (0, 1));
    assert_eq!(minimax(0, 0, i32::MIN, i32::MAX, SEARCH_DEPTH, false), (0, 1));
    assert_eq!(get_best_move(0, 0, true), 1);
    assert_eq!(get_best_move(0, 0, false), 1);
}

#[test]
fn won_position_scores_the_win_less_the_plies_used() {
    let line: u16 = 0b000_000_111;
    let other: u16 = 0b000_011_000;
    assert_eq!(minimax(line, other, i32::MIN, i32::MAX, 9, false), (10, NO_MOVE));
    assert_eq!(minimax(line, other, i32::MIN, i32::MAX, 8, false), (9, NO_MOVE));
    assert_eq!(minimax(line, other, i32::MIN, i32::MAX, 5, false), (6, NO_MOVE));
    assert_eq!(minimax(line, other, i32::MIN, i32::MAX, 0, false), (1, NO_MOVE));
    assert_eq!(minimax(other, line, i32::MIN, i32::MAX, 9, true), (-10, NO_MOVE));
    assert_eq!(minimax(other, line, i32::MIN, i32::MAX, 8, true), (-9, NO_MOVE));
    assert_eq!(minimax(other, line, i32::MIN, i32::MAX, 5, true), (-6, NO_MOVE));
    assert_eq!(minimax(other, line, i32::MIN, i32::MAX, 0, true), (-1, NO_MOVE));
    assert_eq!(WIN_SCORE, 10);
    assert_eq!(SEARCH_DEPTH, 9);
}

#[test]
fn search_started_with_more_plies_scores_from_the_same_base() {
    let line: u16 = 0b000_000_111;
    let other: u16 = 0b000_011_000;
    assert_eq!(minimax(line, other, i32::MIN, i32::MAX, 12, false), (13, NO_MOVE));
    assert_eq!(minimax(other, line, i32::MIN, i32::MAX, 12, true), (-13, NO_MOVE));
    assert_eq!(minimax(0b000_000_011, other, i32::MIN, i32::MAX, 12, true), (12, 0b000_000_100));
    assert_eq!(minimax(0, 0, i32::MIN, i32::MAX, 12, true), (0, 1));
}

#[test]
fn search_stops_without_a_move_when_no_ply_is_left() {
    assert_eq!(minimax(0, 0, i32::MIN, i32::MAX, 0, true), (0, NO_MOVE));
    assert_eq!(minimax(0b000_000_011, 0b000_011_000, i32::MIN, i32::MAX, 0, true), (0, NO_MOVE));
}

#[test]
fn full_undecided_board_scores_nothing() {
    let agent_x: u16 = 0b101_010_010;
    let agent_o: u16 = 0b010_101_101;
    assert_eq!(agent_x | agent_o, 511);
    assert_eq!(minimax(agent_x, agent_o, i32::MIN, i32::MAX, 9, true), (0, NO_MOVE));
    assert_eq!(minimax(agent_x, agent_o, i32::MIN, i32::MAX, 9, false), (0, NO_MOVE));
    assert_eq!(get_best_move(agent_x, agent_o, true), NO_MOVE);
}

#[test]
fn finished_position_has_no_best_move() {
    assert_eq!(get_best_move(0b000_000_111, 0b000_011_000, false), NO_MOVE);
    assert_eq!(get_best_move(0b000_011_000, 0b000_000_111, true), NO_MOVE);
    assert_eq!(get_best_move(0b000_000_111, 0b000_011_000, true), NO_MOVE);
}

#[test]
fn two_in_a_row_is_completed_at_once() {
    let agent_x: u16 = 0b000_000_011;
    let agent_o: u16 = 0b000_011_000;
    assert_eq!(get_best_move(agent_x, agent_o, true), 0b000_000_100);
    assert_eq!(minimax(agent_x, agent_o, i32::MIN, i32::MAX, 9, true), (9, 0b000_000_100));
}

#[test]
fn every_open_line_of_two_is_completed_at_once() {
    let lines: [u16; 8] = [0o700, 0o070, 0o007, 0o444, 0o222, 0o111, 0o421, 0o124];
    for (agent_x, agent_o, turn) in reachable_positions() {
        if !turn || evaluate_board(agent_x, agent_o) != 0 {
            continue;
        }
        let winning: Vec<u16> = generate_moves(agent_x | agent_o)
            .into_iter()
            .filter(|pos| lines.iter().any(|l| (agent_x | pos) & l == *l))
            .collect();
        if let Some(lowest) = winning.first() {
            assert_eq!(minimax(agent_x, agent_o, i32::MIN, i32::MAX, 9, true), (9, *lowest));
            assert_eq!(get_best_move(agent_x, agent_o, true), *lowest);
        }
    }
}

#[test]
fn second_side_completes_its_line_at_once_too() {
    let agent_x: u16 = 0b000_011_000;
    let agent_o: u16 = 0b000_000_011;
    assert_eq!(minimax(agent_x, agent_o, i32::MIN, i32::MAX, 9, false), (-9, 0b000_000_100));
    assert_eq!(get_best_move(agent_x, agent_o, false), 0b000_000_100);
}

#[test]
fn lowest_winning_cell_is_played_where_two_cells_win() {
    let agent_x: u16 = 0b001_011_000;
    let agent_o: u16 = 0b010_000_011;
    assert_eq!(evaluate_board(agent_x, agent_o), 0);
    assert_eq!(get_best_move(agent_x, agent_o, true), 0b000_000_100);
    assert_eq!(minimax(agent_x, agent_o, i32::MIN, i32::MAX, 9, true).0, 9);
}

#[test]
fn threat_is_blocked() {
    let agent_x: u16 = 0b010_010_000;
    let agent_o: u16 = 0b000_000_011;
    assert_eq!(get_best_move(agent_x, agent_o, true), 0b000_000_100);
    let agent_x: u16 = 0b000_000_011;
    let agent_o: u16 = 0b010_010_000;
    assert_eq!(get_best_move(agent_x, agent_o, false), 0b000_000_100);
}

#[test]
fn no_move_is_chosen_that_loses_at_once_where_another_does_not() {
    let lines: [u16; 8] = [0o700, 0o070, 0o007, 0o444, 0o222, 0o111, 0o421, 0o124];
    let has_line = |mask: u16| lines.iter().any(|l| mask & l == *l);
    for (agent_x, agent_o, turn) in reachable_positions() {
        if evaluate_board(agent_x, agent_o) != 0 || agent_x | agent_o == 511 {
            continue;
        }
        let (own, other) = if turn { (agent_x, agent_o) } else { (agent_o, agent_x) };
        let loses = |pos: u16| {
            !has_line(own | pos)
                && generate_moves(agent_x | agent_o | pos)
                    .into_iter()
                    .any(|reply| has_line(other | reply))
        };
        let moves = generate_moves(agent_x | agent_o);
        if moves.iter().any(|pos| !loses(*pos)) {
            assert!(!loses(get_best_move(agent_x, agent_o, turn)));
        }
    }
}

#[test]
fn forced_win_scores_by_the_plies_it_takes() {
    let agent_x: u16 = 0b000_010_001;
    let agent_o: u16 = 0b000_000_110;
    assert_eq!(minimax(agent_x, agent_o, i32::MIN, i32::MAX, 9, true), (9, 0b100_000_000));
    let agent_x: u16 = 0b000_010_001;
    let agent_o: u16 = 0b100_100_000;
    assert_eq!(minimax(agent_x, agent_o, i32::MIN, i32::MAX, 9, true), (7, 0b000_000_100));
    let agent_x: u16 = 0b000_000_001;
    let agent_o: u16 = 0b000_000_010;
    let (score, pos) = minimax(agent_x, agent_o, i32::MIN, i32::MAX, 9, true);
    assert_eq!(score, 5);
    assert_eq!((score, pos), exhaustive(agent_x, agent_o, 9, true));
}

#[test]
fn forced_loss_scores_by_the_plies_it_takes() {
    let agent_x: u16 = 0b100_100_000;
    let agent_o: u16 = 0b000_010_001;
    assert_eq!(minimax(agent_x, agent_o, i32::MIN, i32::MAX, 9, false), (-7, 0b000_000_100));
    let agent_x: u16 = 0b100_100_000;
    let agent_o: u16 = 0b000_010_101;
    let (score, pos) = minimax(agent_x, agent_o, i32::MIN, i32::MAX, 9, true);
    assert_eq!(score, -8);
    assert_eq!((score, pos), exhaustive(agent_x, agent_o, 9, true));
}
