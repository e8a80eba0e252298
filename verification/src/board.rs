//! Occupancy masks, the eight winning lines, move generation and the test
//! for a finished game.

use vstd::prelude::*;
use vstd::string::StringExecFns;

verus! {

pub const ROW1: u16 = 0b_111_000_000;

pub const ROW2: u16 = 0b_000_111_000;

pub const ROW3: u16 = 0b_000_000_111;

pub const COL1: u16 = 0b_100_100_100;

pub const COL2: u16 = 0b_010_010_010;

pub const COL3: u16 = 0b_001_001_001;

pub const DIA1: u16 = 0b_100_010_001;

pub const DIA2: u16 = 0b_001_010_100;

/// Every cell of the grid taken.
pub const FILLED_BOARD: u16 = 0b_111_111_111;

/// The eight lines, in the order in which they are tried.
pub const WINNING_POSITIONS: [u16; 8] = [COL1, COL2, COL3, ROW1, ROW2, ROW3, DIA1, DIA2];

/// Number of cells of the grid.
pub const CELLS: u16 = 9;

/// The mask of cell `i`: bit `i`, for `i` from 0 to 8, row by row.
pub open spec fn cell_mask(i: int) -> u16 {
    1u16 << (i as u16)
}

/// Whether cell `i` is taken in `mask`.
pub open spec fn is_set(mask: u16, i: int) -> bool {
    mask & cell_mask(i) != 0
}

/// Whether `m` is the mask of exactly one of the nine cells.
pub open spec fn is_move(m: u16) -> bool {
    exists|i: int| 0 <= i < 9 && m == #[trigger] cell_mask(i)
}

/// Whether `m` claims one cell, and one that `filled` leaves empty.
pub open spec fn is_legal_move(filled: u16, m: u16) -> bool {
    is_move(m) && filled & m == 0
}

/// How many of the cells below `n` are taken in `mask`.
pub open spec fn count_below(mask: u16, n: int) -> int
    decreases n,
{
    if n <= 0 {
        0
    } else {
        count_below(mask, n - 1) + if is_set(mask, n - 1) {
            1int
        } else {
            0int
        }
    }
}

/// How many of the nine cells are taken in `mask`.
pub open spec fn popcount(mask: u16) -> int {
    count_below(mask, 9)
}

/// The masks of the empty cells below `n`, lowest cell first.
pub open spec fn moves_below(filled: u16, n: int) -> Seq<u16>
    decreases n,
{
    if n <= 0 {
        Seq::empty()
    } else if is_set(filled, n - 1) {
        moves_below(filled, n - 1)
    } else {
        moves_below(filled, n - 1).push(cell_mask(n - 1))
    }
}

/// The masks of all empty cells, lowest cell first.
pub open spec fn legal_moves(filled: u16) -> Seq<u16> {
    moves_below(filled, 9)
}

/// Whether all nine cells are taken in `filled`.
pub open spec fn is_full(filled: u16) -> bool {
    filled & FILLED_BOARD == FILLED_BOARD
}

/// Whether `mask` holds every cell of `line`.
pub open spec fn covers(mask: u16, line: u16) -> bool {
    mask & line == line
}

/// Whether `mask` holds one of the eight winning lines completely.
pub open spec fn has_line(mask: u16) -> bool {
    covers(mask, COL1) || covers(mask, COL2) || covers(mask, COL3) || covers(mask, ROW1)
        || covers(mask, ROW2) || covers(mask, ROW3) || covers(mask, DIA1) || covers(mask, DIA2)
}

proof fn lemma_shifts()
    by (bit_vector)
    ensures
        1u16 << 0u16 == 1u16,
        1u16 << 1u16 == 2u16,
        1u16 << 2u16 == 4u16,
        1u16 << 3u16 == 8u16,
        1u16 << 4u16 == 16u16,
        1u16 << 5u16 == 32u16,
        1u16 << 6u16 == 64u16,
        1u16 << 7u16 == 128u16,
        1u16 << 8u16 == 256u16,
{
}

/// The nine cell masks are the powers of two from 1 to 256.
pub proof fn lemma_cell_mask(i: int)
    requires
        0 <= i < 9,
    ensures
        i == 0 ==> cell_mask(i) == 1,
        i == 1 ==> cell_mask(i) == 2,
        i == 2 ==> cell_mask(i) == 4,
        i == 3 ==> cell_mask(i) == 8,
        i == 4 ==> cell_mask(i) == 16,
        i == 5 ==> cell_mask(i) == 32,
        i == 6 ==> cell_mask(i) == 64,
        i == 7 ==> cell_mask(i) == 128,
        i == 8 ==> cell_mask(i) == 256,
        0 < cell_mask(i) <= 256,
        is_move(cell_mask(i)),
{
    lemma_shifts();
}

/// A lower cell has a smaller mask.
pub proof fn lemma_cell_mask_ordered(i: int, j: int)
    requires
        0 <= i < j < 9,
    ensures
        cell_mask(i) < cell_mask(j),
{
    lemma_cell_mask(i);
    lemma_cell_mask(j);
}

/// What `moves_below` holds: one mask for each empty cell below `n`, in
/// rising order, and nothing else.
pub proof fn lemma_moves_below(filled: u16, n: int)
    requires
        0 <= n <= 9,
    ensures
        moves_below(filled, n).len() + count_below(filled, n) == n,
        0 <= count_below(filled, n) <= n,
        forall|k: int|
            0 <= k < moves_below(filled, n).len() ==> exists|i: int|
                0 <= i < n && !is_set(filled, i) && #[trigger] moves_below(filled, n)[k]
                    == cell_mask(i),
        forall|j: int, k: int|
            0 <= j < k < moves_below(filled, n).len() ==> moves_below(filled, n)[j]
                < moves_below(filled, n)[k],
        forall|i: int|
            0 <= i < n && !is_set(filled, i) ==> moves_below(filled, n).contains(
                #[trigger] cell_mask(i),
            ),
    decreases n,
{
    if n > 0 {
        lemma_moves_below(filled, n - 1);
        let prev = moves_below(filled, n - 1);
        let cur = moves_below(filled, n);
        if !is_set(filled, n - 1) {
            assert(cur == prev.push(cell_mask(n - 1)));
            assert forall|j: int, k: int| 0 <= j < k < cur.len() implies cur[j] < cur[k] by {
                if k == prev.len() {
                    let i = choose|i: int|
                        0 <= i < n - 1 && !is_set(filled, i) && prev[j] == cell_mask(i);
                    lemma_cell_mask_ordered(i, n - 1);
                }
            }
            assert forall|i: int| 0 <= i < n && !is_set(filled, i) implies cur.contains(
                #[trigger] cell_mask(i),
            ) by {
                if i == n - 1 {
                    assert(cur[prev.len() as int] == cell_mask(i));
                } else {
                    let k = choose|k: int| 0 <= k < prev.len() && prev[k] == cell_mask(i);
                    assert(cur[k] == cell_mask(i));
                }
            }
            assert forall|k: int| 0 <= k < cur.len() implies exists|i: int|
                0 <= i < n && !is_set(filled, i) && #[trigger] cur[k] == cell_mask(i) by {
                if k == prev.len() {
                    assert(cur[k] == cell_mask(n - 1));
                } else {
                    let i = choose|i: int|
                        0 <= i < n - 1 && !is_set(filled, i) && prev[k] == cell_mask(i);
                    assert(cur[k] == cell_mask(i));
                }
            }
        }
    }
}

/// A mask is among the legal moves exactly if it claims one empty cell.
pub proof fn lemma_legal_moves_contains(filled: u16, m: u16)
    ensures
        legal_moves(filled).contains(m) <==> is_legal_move(filled, m),
{
    lemma_moves_below(filled, 9);
    let moves = legal_moves(filled);
    if moves.contains(m) {
        let k = choose|k: int| 0 <= k < moves.len() && moves[k] == m;
        let i = choose|i: int| 0 <= i < 9 && !is_set(filled, i) && moves[k] == cell_mask(i);
        assert(m == cell_mask(i));
    }
    if is_legal_move(filled, m) {
        let i = choose|i: int| 0 <= i < 9 && m == cell_mask(i);
        assert(!is_set(filled, i));
        assert(moves.contains(cell_mask(i)));
    }
}

/// A board leaves no move exactly if all nine cells are taken.
pub proof fn lemma_full_has_no_moves(filled: u16)
    ensures
        is_full(filled) <==> legal_moves(filled).len() == 0,
        is_full(filled) <==> popcount(filled) == 9,
        0 <= popcount(filled) <= 9,
{
    lemma_moves_below(filled, 9);
    lemma_shifts();
    reveal_with_fuel(count_below, 10);
    assert((filled & 1 != 0 && filled & 2 != 0 && filled & 4 != 0 && filled & 8 != 0 && filled & 16
        != 0 && filled & 32 != 0 && filled & 64 != 0 && filled & 128 != 0 && filled & 256 != 0)
        <==> filled & 0x1ff == 0x1ff) by (bit_vector);
}

/// Generates the moves open on `board`: the mask of each empty cell, lowest
/// cell first. The bits of `board` above the ninth are not looked at.
pub fn generate_moves(board: u16) -> (moves: Vec<u16>)
    ensures
        moves@ == legal_moves(board),
        moves@.len() == 9 - popcount(board),
        0 <= popcount(board) <= 9,
        forall|k: int| 0 <= k < moves@.len() ==> is_legal_move(board, #[trigger] moves@[k]),
        forall|j: int, k: int| 0 <= j < k < moves@.len() ==> moves@[j] < moves@[k],
        forall|m: u16| is_legal_move(board, m) ==> moves@.contains(m),
{
    let mut moves: Vec<u16> = Vec::new();
    let mut i: u16 = 0;
    while i < CELLS
        invariant
            i <= 9,
            moves@ == moves_below(board, i as int),
        decreases 9 - i,
    {
        let mask: u16 = 1u16 << i;
        if board & mask == 0 {
            moves.push(mask);
        }
        i += 1;
    }
    proof {
        lemma_moves_below(board, 9);
        assert forall|k: int| 0 <= k < moves@.len() implies is_legal_move(
            board,
            #[trigger] moves@[k],
        ) by {
            lemma_legal_moves_contains(board, moves@[k]);
        }
        assert forall|m: u16| is_legal_move(board, m) implies moves@.contains(m) by {
            lemma_legal_moves_contains(board, m);
        }
    }
    moves
}

/// Whether `cell` is the mask of one cell that `board` leaves empty.
pub fn validate_cell(board: u16, cell: u16) -> (ok: bool)
    ensures
        ok == is_legal_move(board, cell),
        ok == legal_moves(board).contains(cell),
{
    let positions = generate_moves(board);
    let mut k: usize = 0;
    let mut found = false;
    while k < positions.len()
        invariant
            k <= positions@.len(),
            found == exists|j: int| 0 <= j < k && positions@[j] == cell,
        decreases positions@.len() - k,
    {
        if positions[k] == cell {
            found = true;
        }
        k += 1;
    }
    proof {
        lemma_legal_moves_contains(board, cell);
    }
    found
}

/// How a position stands: won by one side, or not decided yet.
#[derive(Clone, Copy, Debug, PartialEq, Eq, Structural)]
pub enum TerminalStatus {
    FirstWins,
    SecondWins,
    Undecided,
}

/// The status of a position. The first side is looked at before the second:
/// where both hold a line, which no legal game reaches, the first side is
/// named.
pub open spec fn outcome(first: u16, second: u16) -> TerminalStatus {
    if has_line(first) {
        TerminalStatus::FirstWins
    } else if has_line(second) {
        TerminalStatus::SecondWins
    } else {
        TerminalStatus::Undecided
    }
}

/// The score of a status when no depth is taken into account.
pub open spec fn status_score(status: TerminalStatus) -> int {
    match status {
        TerminalStatus::FirstWins => 10,
        TerminalStatus::SecondWins => -10,
        TerminalStatus::Undecided => 0,
    }
}

fn holds_line(mask: u16) -> (found: bool)
    ensures
        found == has_line(mask),
{
    let mut i: usize = 0;
    while i < 8
        invariant
            i <= 8,
            forall|j: int| 0 <= j < i ==> !covers(mask, #[trigger] WINNING_POSITIONS[j]),
        decreases 8 - i,
    {
        let line: u16 = WINNING_POSITIONS[i];
        if mask & line == line {
            return true;
        }
        i += 1;
    }
    false
}

/// Tells whether one side holds a winning line. The two masks are taken as
/// they are: that they share no cell is the caller's to see to, and is not
/// tested here.
pub fn evaluate(first: u16, second: u16) -> (status: TerminalStatus)
    ensures
        status == outcome(first, second),
        status == TerminalStatus::FirstWins <==> has_line(first),
        status == TerminalStatus::SecondWins <==> !has_line(first) && has_line(second),
{
    if holds_line(first) {
        TerminalStatus::FirstWins
    } else if holds_line(second) {
        TerminalStatus::SecondWins
    } else {
        TerminalStatus::Undecided
    }
}

/// Evaluates the position as a number: 10 where `agent_x` holds a line, -10
/// where only `agent_o` does, 0 where neither does.
pub fn evaluate_board(agent_x: u16, agent_o: u16) -> (score: i32)
    ensures
        score == status_score(outcome(agent_x, agent_o)),
        score == 10 <==> has_line(agent_x),
        score == -10 <==> !has_line(agent_x) && has_line(agent_o),
        score == 0 <==> !has_line(agent_x) && !has_line(agent_o),
{
    match evaluate(agent_x, agent_o) {
        TerminalStatus::FirstWins => 10,
        TerminalStatus::SecondWins => -10,
        TerminalStatus::Undecided => 0,
    }
}

/// Whether `board` is exactly the full board. A full board is a draw only
/// where neither side holds a line: the last move may complete one.
pub fn is_game_draw(board: u16) -> (full: bool)
    ensures
        full == (board == FILLED_BOARD),
        full ==> popcount(board) == 9,
        popcount(board) < 9 ==> !full,
        board <= FILLED_BOARD && popcount(board) == 9 ==> full,
{
    proof {
        lemma_full_has_no_moves(board);
        assert(board <= 0x1ffu16 && board & 0x1ff == 0x1ff ==> board == 0x1ff) by (bit_vector);
        assert(0x1ffu16 & 0x1ff == 0x1ff) by (bit_vector);
    }
    board == FILLED_BOARD
}

/// Whether the game is over: one side holds a line, or no cell is empty.
pub open spec fn is_finished(agent_x: u16, agent_o: u16) -> bool {
    has_line(agent_x) || has_line(agent_o) || is_full(agent_x | agent_o)
}

/// The letter of cell `i` on a board of letters: `x`, `o` or a blank.
pub open spec fn cell_letter(agent_x: u16, agent_o: u16, i: int) -> char {
    if is_set(agent_x, i) {
        'x'
    } else if is_set(agent_o, i) {
        'o'
    } else {
        ' '
    }
}

/// The letters of one row of the grid, rows counted from 0.
pub open spec fn row_letters(agent_x: u16, agent_o: u16, row: int) -> Seq<char> {
    seq![
        cell_letter(agent_x, agent_o, 3 * row),
        cell_letter(agent_x, agent_o, 3 * row + 1),
        cell_letter(agent_x, agent_o, 3 * row + 2),
    ]
}

proof fn lemma_single_bit(mask: u16, i: u16)
    by (bit_vector)
    requires
        i < 9,
    ensures
        (mask & (1u16 << i) == (1u16 << i)) == (mask & (1u16 << i) != 0),
{
}

/// Lays the board out as three rows of three letters: `x` for a cell of
/// `agent_x`, `o` for one of `agent_o`, a blank for an empty one. Where both
/// masks hold a cell, `x` is written.
pub fn board_to_vec(agent_x: u16, agent_o: u16) -> (rows: Vec<Vec<char>>)
    ensures
        rows@.len() == 3,
        forall|r: int| 0 <= r < 3 ==> (#[trigger] rows@[r])@ == row_letters(agent_x, agent_o, r),
{
    let mut rows: Vec<Vec<char>> = Vec::new();
    let mut r: u16 = 0;
    while r < 3
        invariant
            r <= 3,
            rows@.len() == r,
            forall|q: int|
                0 <= q < r ==> (#[trigger] rows@[q])@ == row_letters(agent_x, agent_o, q),
        decreases 3 - r,
    {
        let mut row: Vec<char> = Vec::new();
        let mut c: u16 = 0;
        while c < 3
            invariant
                r < 3,
                c <= 3,
                row@.len() == c,
                forall|d: int|
                    0 <= d < c ==> #[trigger] row@[d] == cell_letter(agent_x, agent_o, 3 * r + d),
            decreases 3 - c,
        {
            let offset: u16 = 3 * r + c;
            let mask: u16 = 1u16 << offset;
            proof {
                lemma_single_bit(agent_x, offset);
                lemma_single_bit(agent_o, offset);
            }
            let letter = if agent_x & mask == mask {
                'x'
            } else if agent_o & mask == mask {
                'o'
            } else {
                ' '
            };
            row.push(letter);
            c += 1;
        }
        assert(row@ =~= row_letters(agent_x, agent_o, r as int));
        rows.push(row);
        r += 1;
    }
    rows
}

/// The mark of cell `i` on a drawn board: `X`, `O` or a blank.
pub open spec fn cell_mark(agent_x: u16, agent_o: u16, i: int) -> char {
    if is_set(agent_x, i) {
        'X'
    } else if is_set(agent_o, i) {
        'O'
    } else {
        ' '
    }
}

/// One line of a drawn board: the three marks of a row between two bars.
pub open spec fn row_text(agent_x: u16, agent_o: u16, row: int) -> Seq<char> {
    seq![
        '|',
        ' ',
        cell_mark(agent_x, agent_o, 3 * row),
        cell_mark(agent_x, agent_o, 3 * row + 1),
        cell_mark(agent_x, agent_o, 3 * row + 2),
        ' ',
        '|',
        '\n',
    ]
}

/// A drawn board: a heading, the three rows and a rule below them.
pub open spec fn board_lines(agent_x: u16, agent_o: u16) -> Seq<char> {
    seq!['-', 'B', 'o', 'a', 'r', 'd', '-', '\n'] + row_text(agent_x, agent_o, 0) + row_text(
        agent_x,
        agent_o,
        1,
    ) + row_text(agent_x, agent_o, 2) + seq!['-', '-', '-', '-', '-', '-', '-', '\n']
}

/// Draws the board as text of five lines, each ended by a line feed.
pub fn board_text(agent_x: u16, agent_o: u16) -> (text: String)
    ensures
        text@ == board_lines(agent_x, agent_o),
{
    let mut text = String::from_str("-Board-\n");
    proof {
        reveal_strlit("-Board-\n");
        reveal_strlit("| ");
        reveal_strlit(" |\n");
        reveal_strlit("X");
        reveal_strlit("O");
        reveal_strlit(" ");
        reveal_strlit("-------\n");
        assert(text@ =~= seq!['-', 'B', 'o', 'a', 'r', 'd', '-', '\n']);
    }
    let ghost heading = text@;
    let mut r: u16 = 0;
    while r < 3
        invariant
            r <= 3,
            heading == seq!['-', 'B', 'o', 'a', 'r', 'd', '-', '\n'],
            r == 0 ==> text@ == heading,
            r == 1 ==> text@ == heading + row_text(agent_x, agent_o, 0),
            r == 2 ==> text@ == heading + row_text(agent_x, agent_o, 0) + row_text(
                agent_x,
                agent_o,
                1,
            ),
            r == 3 ==> text@ == heading + row_text(agent_x, agent_o, 0) + row_text(
                agent_x,
                agent_o,
                1,
            ) + row_text(agent_x, agent_o, 2),
            "| "@ == seq!['|', ' '],
            " |\n"@ == seq![' ', '|', '\n'],
            "X"@ == seq!['X'],
            "O"@ == seq!['O'],
            " "@ == seq![' '],
        decreases 3 - r,
    {
        let ghost before = text@;
        text.append("| ");
        let mut c: u16 = 0;
        while c < 3
            invariant
                r < 3,
                c <= 3,
                text@.len() == before.len() + 2 + c,
                text@.subrange(0, before.len() as int) == before,
                text@[before.len() as int] == '|',
                text@[before.len() as int + 1] == ' ',
                forall|d: int|
                    0 <= d < c ==> #[trigger] text@[before.len() as int + 2 + d] == cell_mark(
                        agent_x,
                        agent_o,
                        3 * r + d,
                    ),
                "X"@ == seq!['X'],
                "O"@ == seq!['O'],
                " "@ == seq![' '],
            decreases 3 - c,
        {
            let offset: u16 = 3 * r + c;
            let mask: u16 = 1u16 << offset;
            let ghost prior = text@;
            if agent_x & mask > 0 {
                text.append("X");
            } else if agent_o & mask > 0 {
                text.append("O");
            } else {
                text.append(" ");
            }
            assert(text@.subrange(0, before.len() as int) =~= prior.subrange(
                0,
                before.len() as int,
            ));
            c += 1;
        }
        let ghost inner = text@;
        text.append(" |\n");
        proof {
            let row = row_text(agent_x, agent_o, r as int);
            let base = before.len() as int;
            assert(text@ =~= before + row) by {
                assert(text@ == inner + seq![' ', '|', '\n']);
                assert forall|p: int| 0 <= p < text@.len() implies text@[p] == (before
                    + row)[p] by {
                    if p < base {
                        assert(inner[p] == inner.subrange(0, base)[p]);
                    } else if base + 2 <= p < base + 5 {
                        let d = p - base - 2;
                        assert(inner[base + 2 + d] == cell_mark(agent_x, agent_o, 3 * r + d));
                    }
                }
            }
        }
        r += 1;
    }
    text.append("-------\n");
    proof {
        assert("-------\n"@ =~= seq!['-', '-', '-', '-', '-', '-', '-', '\n']);
    }
    text
}

} // verus!
