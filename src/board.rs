//! The 3×3 board, its move rules and its terminal-state detection.
use rand::Rng;
use vstd::prelude::*;

verus! {

/// One square of the board.
#[derive(Debug, Clone, Copy, PartialEq, Eq, Structural)]
pub enum Cell {
    Empty,
    X,
    O,
}

/// The mark that plays against `c`; `Empty` has no opponent and maps to itself.
pub open spec fn opposite(c: Cell) -> Cell {
    match c {
        Cell::X => Cell::O,
        Cell::O => Cell::X,
        Cell::Empty => Cell::Empty,
    }
}

/// The symbol of a cell in a state fingerprint.
pub open spec fn symbol(c: Cell) -> char {
    match c {
        Cell::Empty => '-',
        Cell::X => 'X',
        Cell::O => 'O',
    }
}

impl Cell {
    /// The cell's symbol: `-`, `X` or `O`.
    pub fn to_char(&self) -> (r: char)
        ensures
            r == symbol(*self),
    {
        match self {
            Cell::Empty => '-',
            Cell::X => 'X',
            Cell::O => 'O',
        }
    }
}

/// A participant, identified by the mark it places.
#[derive(Debug, Clone, Copy)]
pub struct Player {
    pub marker: Cell,
}

impl Player {
    pub fn new(marker: Cell) -> (r: Player)
        ensures
            r.marker == marker,
    {
        Player { marker }
    }

    /// The player with the other mark.
    pub fn opponent(&self) -> (r: Player)
        ensures
            r.marker == opposite(self.marker),
    {
        if self.marker == Cell::X {
            Player::new(Cell::O)
        } else if self.marker == Cell::O {
            Player::new(Cell::X)
        } else {
            Player::new(Cell::Empty)
        }
    }
}

/// What became of a move: whether it was placed, and whether the game is now over.
#[derive(Debug, Clone, Copy)]
pub struct MoveStatus {
    pub move_successful: bool,
    pub game_over: bool,
}

impl MoveStatus {
    pub fn new(move_successful: bool, game_over: bool) -> (r: MoveStatus)
        ensures
            r.move_successful == move_successful,
            r.game_over == game_over,
    {
        MoveStatus { move_successful, game_over }
    }
}

/// The flat, row-major index of a coordinate.
pub open spec fn flat(p: (usize, usize)) -> int {
    p.0 * 3 + p.1
}

/// The coordinate of a flat, row-major index below 9.
pub open spec fn coord(i: int) -> (usize, usize) {
    ((i / 3) as usize, (i % 3) as usize)
}

/// The flat indices of the eight lines, in the order in which they are
/// scanned: row 0, column 0, row 1, column 1, row 2, column 2, the main
/// diagonal, the anti-diagonal.
pub open spec fn line(k: int) -> (int, int, int) {
    if k == 0 {
        (0, 1, 2)
    } else if k == 1 {
        (0, 3, 6)
    } else if k == 2 {
        (3, 4, 5)
    } else if k == 3 {
        (1, 4, 7)
    } else if k == 4 {
        (6, 7, 8)
    } else if k == 5 {
        (2, 5, 8)
    } else if k == 6 {
        (0, 4, 8)
    } else {
        (2, 4, 6)
    }
}

/// Line `k` holds mark `m` in all three cells.
pub open spec fn line_full(g: Seq<Cell>, k: int, m: Cell) -> bool {
    let (a, b, c) = line(k);
    g[a] == m && g[b] == m && g[c] == m
}

/// Some line holds mark `m` in all three cells.
pub open spec fn has_line(g: Seq<Cell>, m: Cell) -> bool {
    exists|k: int| 0 <= k < 8 && line_full(g, k, m)
}

/// The mark that completes line `k`, if one does.
pub open spec fn line_winner(g: Seq<Cell>, k: int) -> Option<Cell> {
    let (a, b, c) = line(k);
    if g[a] != Cell::Empty && g[b] == g[a] && g[c] == g[b] {
        Some(g[a])
    } else {
        None
    }
}

/// The mark of the first completed line from line `k` on, in scan order.
pub open spec fn winner_from(g: Seq<Cell>, k: int) -> Option<Cell>
    decreases 8 - k,
{
    if k >= 8 {
        None
    } else if line_winner(g, k).is_some() {
        line_winner(g, k)
    } else {
        winner_from(g, k + 1)
    }
}

/// The winner of a grid: the mark of the first completed line in scan order.
pub open spec fn winner(g: Seq<Cell>) -> Option<Cell> {
    winner_from(g, 0)
}

/// No cell is empty.
pub open spec fn full(g: Seq<Cell>) -> bool {
    forall|i: int| 0 <= i < 9 ==> g[i] != Cell::Empty
}

/// The game on grid `g` is over: someone has won, or no cell is left.
pub open spec fn game_over(g: Seq<Cell>) -> bool {
    winner(g).is_some() || full(g)
}

/// The empty cells among the first `n`, as coordinates in row-major order.
pub open spec fn empty_cells_upto(g: Seq<Cell>, n: int) -> Seq<(usize, usize)>
    decreases n,
{
    if n <= 0 {
        Seq::empty()
    } else if g[n - 1] == Cell::Empty {
        empty_cells_upto(g, n - 1).push(coord(n - 1))
    } else {
        empty_cells_upto(g, n - 1)
    }
}

/// The legal moves on grid `g`: its empty cells in row-major order.
pub open spec fn legal_moves(g: Seq<Cell>) -> Seq<(usize, usize)> {
    empty_cells_upto(g, 9)
}

/// The fingerprint of grid `g`: one symbol per cell, row-major.
pub open spec fn fingerprint(g: Seq<Cell>) -> Seq<char> {
    g.map_values(|c: Cell| symbol(c))
}

/// Relies on rand's `Rng::random_range` over `0..=1`: the result lies in that range.
#[verifier::external_body]
fn random_first_mover() -> (r: usize)
    ensures
        r <= 1,
{
    rand::rng().random_range(0..=1)
}

/// Relies on `String`'s `FromIterator<&char>`: the characters concatenated in order.
#[verifier::external_body]
pub(crate) fn string_of_chars(chars: &Vec<char>) -> (r: String)
    ensures
        r@ == chars@,
{
    chars.iter().collect()
}

/// Placing mark `m` on cell `i` of grid `g` gives `m` a completed line,
/// as the scan of `winner` reports it.
pub open spec fn wins_at(g: Seq<Cell>, m: Cell, i: int) -> bool {
    g[i] == Cell::Empty && winner(g.update(i, m)) == Some(m)
}

/// The first cell from flat index `i` on where `m` would win at once.
pub open spec fn winning_cell_from(g: Seq<Cell>, m: Cell, i: int) -> Option<(usize, usize)>
    decreases 9 - i,
{
    if i >= 9 {
        None
    } else if wins_at(g, m, i) {
        Some(coord(i))
    } else {
        winning_cell_from(g, m, i + 1)
    }
}

/// The blocking move for `mover` on grid `g`: the first legal move, in
/// row-major order, where the opponent's mark would win at once.
pub open spec fn blocking_move(g: Seq<Cell>, mover: Cell) -> Option<(usize, usize)> {
    winning_cell_from(g, opposite(mover), 0)
}

/// Placing `m` on the empty cell `i` of `g` completes a line of `m`.
pub open spec fn threat(g: Seq<Cell>, m: Cell, i: int) -> bool {
    g[i] == Cell::Empty && has_line(g.update(i, m), m)
}

/// A flat index below 9 and its coordinate name the same cell.
pub proof fn lemma_coord(i: int)
    requires
        0 <= i < 9,
    ensures
        coord(i).0 < 3,
        coord(i).1 < 3,
        flat(coord(i)) == i,
        coord(i) == ((i / 3) as usize, (i % 3) as usize),
{
}

proof fn lemma_empty_cells_upto(g: Seq<Cell>, n: int)
    requires
        g.len() == 9,
        0 <= n <= 9,
    ensures
        forall|k: int|
            0 <= k < empty_cells_upto(g, n).len() ==> {
                let p = #[trigger] empty_cells_upto(g, n)[k];
                &&& p.0 < 3
                &&& p.1 < 3
                &&& 0 <= flat(p) < n
                &&& g[flat(p)] == Cell::Empty
            },
        forall|i: int| 0 <= i < n && g[i] == Cell::Empty ==> empty_cells_upto(g, n).contains(coord(i)),
        forall|a: int, b: int|
            0 <= a < b < empty_cells_upto(g, n).len() ==> flat(
                #[trigger] empty_cells_upto(g, n)[a],
            ) < flat(#[trigger] empty_cells_upto(g, n)[b]),
    decreases n,
{
    if n > 0 {
        lemma_empty_cells_upto(g, n - 1);
        lemma_coord(n - 1);
        let prev = empty_cells_upto(g, n - 1);
        let cur = empty_cells_upto(g, n);
        assert forall|i: int| 0 <= i < n && g[i] == Cell::Empty implies cur.contains(coord(i)) by {
            if i < n - 1 {
                let k = choose|k: int| 0 <= k < prev.len() && prev[k] == coord(i);
                assert(cur[k] == prev[k]);
            } else {
                assert(cur[cur.len() - 1] == coord(i));
            }
        }
    }
}

proof fn lemma_empty_cells_upto_update(g: Seq<Cell>, n: int, i: int, m: Cell)
    requires
        g.len() == 9,
        0 <= n <= 9,
        0 <= i < 9,
        g[i] == Cell::Empty,
        m != Cell::Empty,
    ensures
        empty_cells_upto(g.update(i, m), n).len() == empty_cells_upto(g, n).len() - (if i < n {
            1int
        } else {
            0int
        }),
    decreases n,
{
    if n > 0 {
        lemma_empty_cells_upto_update(g, n - 1, i, m);
    }
}

/// The legal moves of a grid are exactly its empty cells, each once, in
/// strictly increasing row-major order; an accepted move takes exactly one
/// of them away.
pub proof fn lemma_legal_moves(g: Seq<Cell>, i: int, m: Cell)
    requires
        g.len() == 9,
        0 <= i < 9,
        g[i] == Cell::Empty,
        m != Cell::Empty,
    ensures
        forall|k: int|
            0 <= k < legal_moves(g).len() ==> {
                let p = #[trigger] legal_moves(g)[k];
                &&& p.0 < 3
                &&& p.1 < 3
                &&& g[flat(p)] == Cell::Empty
            },
        forall|j: int| 0 <= j < 9 && g[j] == Cell::Empty ==> legal_moves(g).contains(coord(j)),
        forall|a: int, b: int|
            0 <= a < b < legal_moves(g).len() ==> flat(#[trigger] legal_moves(g)[a]) < flat(
                #[trigger] legal_moves(g)[b],
            ),
        legal_moves(g.update(i, m)).len() == legal_moves(g).len() - 1,
{
    lemma_empty_cells_upto(g, 9);
    lemma_empty_cells_upto_update(g, 9, i, m);
}

proof fn lemma_winner_from(g: Seq<Cell>, k: int)
    requires
        0 <= k <= 8,
    ensures
        winner_from(g, k) is None <==> forall|j: int| k <= j < 8 ==> line_winner(g, j) is None,
        winner_from(g, k) is Some ==> exists|j: int|
            k <= j < 8 && line_winner(g, j) == winner_from(g, k),
    decreases 8 - k,
{
    if k < 8 {
        lemma_winner_from(g, k + 1);
    }
}

/// `check_winner` reports a mark exactly when some line is completed: a
/// reported mark has a completed line, no mark is reported when neither X
/// nor O has one, and when only one of them has one, that one is reported.
pub proof fn lemma_winner(g: Seq<Cell>)
    ensures
        winner(g) matches Some(m) ==> m != Cell::Empty && has_line(g, m),
        winner(g) is None <==> !has_line(g, Cell::X) && !has_line(g, Cell::O),
        forall|m: Cell|
            m != Cell::Empty && has_line(g, m) && !has_line(g, opposite(m)) ==> winner(g) == Some(
                m,
            ),
{
    lemma_winner_from(g, 0);
    assert forall|j: int, m: Cell| 0 <= j < 8 && m != Cell::Empty && #[trigger] line_full(g, j, m)
        implies line_winner(g, j) == Some(m) by {}
    if let Some(w) = winner(g) {
        let j = choose|j: int| 0 <= j < 8 && line_winner(g, j) == winner(g);
        assert(line_full(g, j, w));
    }
}

/// On a grid where nobody has won, placing `m` on an empty cell makes `m`
/// the reported winner exactly when it completes a line of `m`.
proof fn lemma_wins_at_iff_threat(g: Seq<Cell>, m: Cell, i: int)
    requires
        g.len() == 9,
        m != Cell::Empty,
        !has_line(g, Cell::X),
        !has_line(g, Cell::O),
        0 <= i < 9,
    ensures
        wins_at(g, m, i) <==> threat(g, m, i),
{
    let h = g.update(i, m);
    lemma_winner(h);
    if g[i] == Cell::Empty && has_line(h, m) {
        if has_line(h, opposite(m)) {
            let k = choose|k: int| 0 <= k < 8 && line_full(h, k, opposite(m));
            assert(line_full(g, k, opposite(m)));
        }
    }
}

proof fn lemma_winning_cell_from(g: Seq<Cell>, m: Cell, n: int)
    requires
        g.len() == 9,
        m != Cell::Empty,
        !has_line(g, Cell::X),
        !has_line(g, Cell::O),
        0 <= n <= 9,
    ensures
        (forall|i: int| n <= i < 9 ==> !threat(g, m, i)) ==> winning_cell_from(g, m, n) is None,
        forall|j: int|
            n <= j < 9 && threat(g, m, j) && (forall|i: int| n <= i < 9 && i != j ==> !threat(g, m, i))
                ==> winning_cell_from(g, m, n) == Some(coord(j)),
    decreases 9 - n,
{
    if n < 9 {
        lemma_wins_at_iff_threat(g, m, n);
        lemma_winning_cell_from(g, m, n + 1);
    }
}

/// The blocking move is absent when no empty cell lets the opponent complete
/// a line, and is that cell when exactly one does (on a grid where nobody
/// has won yet).
pub proof fn lemma_blocking_move(g: Seq<Cell>, mover: Cell)
    requires
        g.len() == 9,
        mover == Cell::X || mover == Cell::O,
        !has_line(g, Cell::X),
        !has_line(g, Cell::O),
    ensures
        (forall|i: int| 0 <= i < 9 ==> !threat(g, opposite(mover), i)) ==> blocking_move(g, mover)
            is None,
        forall|j: int|
            0 <= j < 9 && threat(g, opposite(mover), j) && (forall|i: int|
                0 <= i < 9 && i != j ==> !threat(g, opposite(mover), i)) ==> blocking_move(g, mover)
                == Some(coord(j)),
{
    lemma_winning_cell_from(g, opposite(mover), 0);
}

/// A 3×3 board and the player about to move.
#[derive(Debug, Clone, Copy)]
pub struct Board {
    cells: [Cell; 9],
    players: [Player; 2],
    current_player: usize,
}

impl View for Board {
    type V = Seq<Cell>;

    /// The grid, row-major.
    closed spec fn view(&self) -> Seq<Cell> {
        self.cells@
    }
}

impl Board {
    /// The board is well formed: nine cells, X and O as the two players, and
    /// one of them about to move.
    pub closed spec fn wf(&self) -> bool {
        &&& self.players[0].marker == Cell::X
        &&& self.players[1].marker == Cell::O
        &&& self.current_player < 2
    }

    /// The mark of the player about to move.
    pub closed spec fn mover(&self) -> Cell {
        self.players[self.current_player as int].marker
    }

    /// What every well-formed board offers its users.
    pub proof fn lemma_wf(&self)
        requires
            self.wf(),
        ensures
            self@.len() == 9,
            self.mover() == Cell::X || self.mover() == Cell::O,
    {
    }

    /// An empty board; the first mover is drawn uniformly from X and O.
    pub fn new() -> (r: Board)
        ensures
            r.wf(),
            r@ == Seq::new(9, |i: int| Cell::Empty),
    {
        Board::with_first_mover(random_first_mover())
    }

    /// An empty board on which X moves first if `first` is 0 and O if it is 1.
    pub fn with_first_mover(first: usize) -> (r: Board)
        requires
            first < 2,
        ensures
            r.wf(),
            r@ == Seq::new(9, |i: int| Cell::Empty),
            r.mover() == (if first == 0 { Cell::X } else { Cell::O }),
    {
        let b = Board {
            cells: [Cell::Empty; 9],
            players: [Player { marker: Cell::X }, Player { marker: Cell::O }],
            current_player: first,
        };
        assert(b@ =~= Seq::new(9, |i: int| Cell::Empty));
        b
    }

    /// A board with the given row-major cells, with X about to move if
    /// `first` is 0 and O if it is 1.
    pub fn from_cells(cells: [Cell; 9], first: usize) -> (r: Board)
        requires
            first < 2,
        ensures
            r.wf(),
            r@ == cells@,
            r.mover() == (if first == 0 { Cell::X } else { Cell::O }),
    {
        Board {
            cells,
            players: [Player { marker: Cell::X }, Player { marker: Cell::O }],
            current_player: first,
        }
    }

    /// The cell at a coordinate.
    pub fn cell(&self, row: usize, col: usize) -> (r: Cell)
        requires
            self.wf(),
            row < 3,
            col < 3,
        ensures
            r == self@[row * 3 + col],
    {
        self.cells[row * 3 + col]
    }

    pub fn get_current_player(&self) -> (r: &Player)
        requires
            self.wf(),
        ensures
            r.marker == self.mover(),
    {
        &self.players[self.current_player]
    }

    /// Hands the turn to the other player.
    pub fn switch_turn(&mut self)
        requires
            old(self).wf(),
        ensures
            final(self).wf(),
            final(self)@ == old(self)@,
            final(self).mover() == opposite(old(self).mover()),
    {
        self.current_player = 1 - self.current_player;
    }

    /// Places the mover's mark at a coordinate if that cell is empty, then
    /// hands the turn over. Returns whether the move was placed and whether
    /// the game is over, and the winner if there is one. A move to an
    /// occupied cell changes nothing.
    pub fn make_move(&mut self, row: usize, col: usize) -> (r: (MoveStatus, Option<Cell>))
        requires
            old(self).wf(),
            row < 3,
            col < 3,
        ensures
            final(self).wf(),
            old(self)@[row * 3 + col] == Cell::Empty ==> {
                &&& final(self)@ == old(self)@.update(row * 3 + col, old(self).mover())
                &&& final(self).mover() == opposite(old(self).mover())
                &&& legal_moves(final(self)@).len() == legal_moves(old(self)@).len() - 1
                &&& r.0.move_successful
                &&& r.0.game_over == game_over(final(self)@)
                &&& r.1 == winner(final(self)@)
            },
            old(self)@[row * 3 + col] != Cell::Empty ==> {
                &&& *final(self) == *old(self)
                &&& !r.0.move_successful
                &&& !r.0.game_over
                &&& r.1.is_none()
            },
    {
        let i = row * 3 + col;
        if self.cells[i] == Cell::Empty {
            let marker = self.players[self.current_player].marker;
            proof {
                lemma_legal_moves(self@, i as int, marker);
            }
            self.cells[i] = marker;
            self.switch_turn();
            let (over, winner) = self.is_game_over();
            (MoveStatus::new(true, over), winner)
        } else {
            (MoveStatus::new(false, false), None)
        }
    }

    /// The mark of the first completed line, scanning rows and columns in
    /// turn (row 0, column 0, row 1, ...), then the two diagonals.
    pub fn check_winner(&self) -> (r: Option<Cell>)
        requires
            self.wf(),
        ensures
            r == winner(self@),
    {
        let g = &self.cells;
        let mut i: usize = 0;
        while i < 3
            invariant
                i <= 3,
                g@ == self@,
                self@.len() == 9,
                winner(self@) == winner_from(self@, 2 * i),
            decreases 3 - i,
        {
            proof {
                let k = 2 * i as int;
                assert(line(k) == (3 * i as int, 3 * i + 1, 3 * i + 2) && line(k + 1) == (
                    i as int,
                    3 + i as int,
                    6 + i as int,
                )) by {
                    if i == 0 {
                    } else if i == 1 {
                    } else {
                    }
                }
                assert(winner_from(self@, k) == if line_winner(self@, k).is_some() {
                    line_winner(self@, k)
                } else {
                    winner_from(self@, k + 1)
                });
                assert(winner_from(self@, k + 1) == if line_winner(self@, k + 1).is_some() {
                    line_winner(self@, k + 1)
                } else {
                    winner_from(self@, k + 2)
                });
            }
            if g[i * 3] != Cell::Empty && g[i * 3 + 1] == g[i * 3] && g[i * 3 + 2] == g[i * 3 + 1] {
                return Some(g[i * 3]);
            }
            if g[i] != Cell::Empty && g[3 + i] == g[i] && g[6 + i] == g[3 + i] {
                assert(line_winner(self@, 2 * i) is None);
                return Some(g[i]);
            }
            assert(line_winner(self@, 2 * i) is None);
            assert(line_winner(self@, 2 * i + 1) is None);
            i = i + 1;
        }
        proof {
            assert(winner_from(self@, 6) == if line_winner(self@, 6).is_some() {
                line_winner(self@, 6)
            } else {
                winner_from(self@, 7)
            });
            assert(winner_from(self@, 7) == if line_winner(self@, 7).is_some() {
                line_winner(self@, 7)
            } else {
                winner_from(self@, 8)
            });
            assert(winner_from(self@, 8) is None);
        }
        if g[0] != Cell::Empty && g[4] == g[0] && g[8] == g[4] {
            return Some(g[0]);
        }
        if g[2] != Cell::Empty && g[4] == g[2] && g[6] == g[4] {
            return Some(g[2]);
        }
        None
    }

    /// No empty cell is left.
    pub fn is_draw(&self) -> (r: bool)
        requires
            self.wf(),
        ensures
            r == full(self@),
    {
        let mut i: usize = 0;
        while i < 9
            invariant
                i <= 9,
                self@.len() == 9,
                forall|j: int| 0 <= j < i ==> self@[j] != Cell::Empty,
            decreases 9 - i,
        {
            if self.cells[i] == Cell::Empty {
                return false;
            }
            i = i + 1;
        }
        true
    }

    /// Whether the game is over, and the winner if there is one.
    pub fn is_game_over(&self) -> (r: (bool, Option<Cell>))
        requires
            self.wf(),
        ensures
            r.0 == game_over(self@),
            r.1 == winner(self@),
    {
        let winner = self.check_winner();
        (winner.is_some() || self.is_draw(), winner)
    }

    /// The state fingerprint: the nine cell symbols, row-major.
    pub fn board_state(&self) -> (r: String)
        requires
            self.wf(),
        ensures
            r@ == fingerprint(self@),
    {
        let mut chars: Vec<char> = Vec::new();
        let mut i: usize = 0;
        while i < 9
            invariant
                i <= 9,
                self@.len() == 9,
                chars@ == fingerprint(self@).subrange(0, i as int),
            decreases 9 - i,
        {
            chars.push(self.cells[i].to_char());
            i = i + 1;
            assert(chars@ =~= fingerprint(self@).subrange(0, i as int));
        }
        assert(chars@ =~= fingerprint(self@));
        string_of_chars(&chars)
    }

    /// The empty cells as coordinates, in row-major order.
    pub fn available_moves(&self) -> (r: Vec<(usize, usize)>)
        requires
            self.wf(),
        ensures
            r@ == legal_moves(self@),
    {
        let mut moves: Vec<(usize, usize)> = Vec::new();
        let mut i: usize = 0;
        while i < 9
            invariant
                i <= 9,
                self@.len() == 9,
                moves@ == empty_cells_upto(self@, i as int),
            decreases 9 - i,
        {
            if self.cells[i] == Cell::Empty {
                moves.push((i / 3, i % 3));
            }
            i = i + 1;
        }
        moves
    }

    /// The cell the mover must take now to stop the opponent from winning on
    /// the next turn: the first empty cell, in row-major order, where the
    /// opponent's mark would complete a line.
    pub fn find_blocking_move(&self) -> (r: Option<(usize, usize)>)
        requires
            self.wf(),
        ensures
            r == blocking_move(self@, self.mover()),
    {
        let mut i: usize = 0;
        while i < 9
            invariant
                i <= 9,
                self.wf(),
                self@.len() == 9,
                blocking_move(self@, self.mover()) == winning_cell_from(
                    self@,
                    opposite(self.mover()),
                    i as int,
                ),
            decreases 9 - i,
        {
            if self.cells[i] == Cell::Empty {
                let mut temp = *self;
                temp.switch_turn();
                let marker = temp.get_current_player().marker;
                proof {
                    lemma_coord(i as int);
                }
                let (_, winner) = temp.make_move(i / 3, i % 3);
                if winner.is_some() {
                    if winner.unwrap() == marker {
                        return Some((i / 3, i % 3));
                    }
                }
            }
            i = i + 1;
        }
        None
    }

    /// Clears the grid; the first mover is drawn anew, uniformly.
    pub fn reset(&mut self)
        requires
            old(self).wf(),
        ensures
            final(self).wf(),
            final(self)@ == Seq::new(9, |i: int| Cell::Empty),
    {
        *self = Board::with_first_mover(random_first_mover());
    }
}

impl Default for Board {
    /// An empty board with a random first mover.
    fn default() -> (r: Board)
        ensures
            r.wf(),
            r@ == Seq::new(9, |i: int| Cell::Empty),
    {
        Board::new()
    }
}

} // verus!
