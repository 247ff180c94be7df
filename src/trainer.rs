//! One self-play training episode: the recorded trajectory, the reward of
//! each move, and the bonus credit handed back along the trajectory when
//! the game is won.
use crate::board::{
    empty_cells_upto, fingerprint, flat, full, game_over, has_line, legal_moves,
    lemma_winner, line, line_full, opposite, string_of_chars, winner, Board, Cell,
};
use vstd::prelude::*;

verus! {

/// The kind of immediate reward a move earns; the amount belongs to the
/// value table's owner.
#[derive(Debug, Clone, Copy, PartialEq, Eq, Structural)]
pub enum Reward {
    /// The move won the game.
    Win,
    /// A forced block while more than five cells were empty before it.
    EarlyBlock,
    /// A forced block later in the game.
    LateBlock,
    /// The move filled the board without a winner.
    Draw,
    /// Anything else.
    Nothing,
}

/// The reward for `mover`'s move that left grid `after`; `empty_before` is
/// the number of empty cells before the move.
pub open spec fn reward_of(mover: Cell, after: Seq<Cell>, forced: bool, empty_before: int) -> Reward {
    if winner(after) == Some(mover) {
        Reward::Win
    } else if forced {
        if empty_before > 5 {
            Reward::EarlyBlock
        } else {
            Reward::LateBlock
        }
    } else if full(after) {
        Reward::Draw
    } else {
        Reward::Nothing
    }
}

/// The digit of a row or column index below 3.
pub open spec fn digit(n: usize) -> char {
    if n == 0 {
        '0'
    } else if n == 1 {
        '1'
    } else {
        '2'
    }
}

/// The action fingerprint of a coordinate: `"row,col"`.
pub open spec fn action_fingerprint(p: (usize, usize)) -> Seq<char> {
    seq![digit(p.0), ',', digit(p.1)]
}

fn digit_char(n: usize) -> (r: char)
    requires
        n < 3,
    ensures
        r == digit(n),
{
    if n == 0 {
        '0'
    } else if n == 1 {
        '1'
    } else {
        '2'
    }
}

/// The action fingerprint `"row,col"` of a coordinate.
pub fn action_key(p: (usize, usize)) -> (r: String)
    requires
        p.0 < 3,
        p.1 < 3,
    ensures
        r@ == action_fingerprint(p),
{
    let chars = vec![digit_char(p.0), ',', digit_char(p.1)];
    string_of_chars(&chars)
}

/// Decides the reward of `mover`'s move that left `after`.
pub fn reward_for(mover: Cell, after: &Board, forced: bool, empty_before: usize) -> (r: Reward)
    requires
        after.wf(),
    ensures
        r == reward_of(mover, after@, forced, empty_before as int),
{
    let w = after.check_winner();
    if w.is_some() && w.unwrap() == mover {
        Reward::Win
    } else if forced {
        if empty_before > 5 {
            Reward::EarlyBlock
        } else {
            Reward::LateBlock
        }
    } else if after.is_draw() {
        Reward::Draw
    } else {
        Reward::Nothing
    }
}

/// One move of an episode, as the value table's update takes it.
pub struct Transition {
    /// The fingerprint before the move.
    pub state: String,
    /// The action fingerprint of the move.
    pub action: String,
    pub reward: Reward,
    /// The fingerprint after the move.
    pub next_state: String,
}

/// The credit handed back along a won episode: one update for each pair of
/// consecutive recorded states, all with the same action.
pub struct Bonus {
    pub action: String,
    /// Consecutive pairs of recorded pre-move fingerprints, in order.
    pub steps: Vec<(String, String)>,
}

/// The number of filled cells of a grid.
pub open spec fn filled(g: Seq<Cell>) -> int {
    9 - legal_moves(g).len()
}

/// The views of a sequence of strings.
pub open spec fn views(v: Seq<String>) -> Seq<Seq<char>> {
    v.map_values(|s: String| s@)
}

/// A self-play episode: the board, and the pre-move fingerprints and action
/// fingerprints recorded so far, one of each per move played.
pub struct Episode {
    board: Board,
    states: Vec<String>,
    actions: Vec<String>,
}

impl Episode {
    pub closed spec fn spec_board(&self) -> Board {
        self.board
    }

    /// The recorded pre-move fingerprints.
    pub closed spec fn states(&self) -> Seq<Seq<char>> {
        views(self.states@)
    }

    /// The recorded action fingerprints.
    pub closed spec fn actions(&self) -> Seq<Seq<char>> {
        views(self.actions@)
    }

    /// One state and one action recorded per move played, and at least one
    /// move recorded per filled cell.
    pub closed spec fn wf(&self) -> bool {
        &&& self.board.wf()
        &&& self.states@.len() == self.actions@.len()
        &&& filled(self.board@) <= self.states@.len()
    }

    /// A fresh episode on an empty board with a random first mover.
    pub fn new() -> (r: Episode)
        ensures
            r.wf(),
            r.spec_board()@ == Seq::new(9, |i: int| Cell::Empty),
            r.states().len() == 0,
            r.actions().len() == 0,
    {
        Episode::start(Board::new())
    }

    /// A fresh episode on an empty board, X first if `first` is 0, else O.
    pub fn with_first_mover(first: usize) -> (r: Episode)
        requires
            first < 2,
        ensures
            r.wf(),
            r.spec_board()@ == Seq::new(9, |i: int| Cell::Empty),
            r.spec_board().mover() == (if first == 0 { Cell::X } else { Cell::O }),
            r.states().len() == 0,
            r.actions().len() == 0,
    {
        Episode::start(Board::with_first_mover(first))
    }

    fn start(board: Board) -> (r: Episode)
        requires
            board.wf(),
            board@ == Seq::new(9, |i: int| Cell::Empty),
        ensures
            r.wf(),
            r.spec_board() == board,
            r.states().len() == 0,
            r.actions().len() == 0,
    {
        proof {
            assert(legal_moves(board@).len() == 9) by {
                lemma_all_empty(board@, 9);
            }
        }
        Episode { board, states: Vec::new(), actions: Vec::new() }
    }

    pub fn board(&self) -> (r: &Board)
        ensures
            *r == self.spec_board(),
    {
        &self.board
    }

    /// Whether the game of this episode is over.
    pub fn is_over(&self) -> (r: bool)
        requires
            self.wf(),
        ensures
            r == game_over(self.spec_board()@),
    {
        self.board.is_game_over().0
    }

    /// Plays `action` for the player about to move, recording the pre-move
    /// fingerprint and the action fingerprint, and returns the transition
    /// with its reward. A move to an occupied cell leaves the board as it is
    /// but is recorded all the same.
    pub fn play(&mut self, action: (usize, usize), forced: bool) -> (t: Transition)
        requires
            old(self).wf(),
            action.0 < 3,
            action.1 < 3,
        ensures
            final(self).wf(),
            old(self).spec_board()@[flat(action)] == Cell::Empty ==> {
                &&& final(self).spec_board()@ == old(self).spec_board()@.update(
                    flat(action),
                    old(self).spec_board().mover(),
                )
                &&& final(self).spec_board().mover() == opposite(old(self).spec_board().mover())
            },
            old(self).spec_board()@[flat(action)] != Cell::Empty ==> final(self).spec_board()
                == old(self).spec_board(),
            final(self).states() == old(self).states().push(fingerprint(old(self).spec_board()@)),
            final(self).actions() == old(self).actions().push(action_fingerprint(action)),
            t.state@ == fingerprint(old(self).spec_board()@),
            t.action@ == action_fingerprint(action),
            t.reward == reward_of(
                old(self).spec_board().mover(),
                final(self).spec_board()@,
                forced,
                legal_moves(old(self).spec_board()@).len() as int,
            ),
            t.next_state@ == fingerprint(final(self).spec_board()@),
    {
        let state = self.board.board_state();
        let empty_before = self.board.available_moves().len();
        let mover = self.board.get_current_player().marker;
        proof {
            self.board.lemma_wf();
        }
        self.board.make_move(action.0, action.1);
        let action_fp = action_key(action);
        let reward = reward_for(mover, &self.board, forced, empty_before);
        let next_state = self.board.board_state();
        self.states.push(state.clone());
        self.actions.push(action_fp.clone());
        proof {
            assert(views(self.states@) =~= views(old(self).states@).push(state@));
            assert(views(self.actions@) =~= views(old(self).actions@).push(action_fp@));
        }
        Transition { state, action: action_fp, reward, next_state }
    }

    /// At the end of the game: the bonus credit when the player who moved
    /// last has won, else `None`. The bonus carries the second-to-last
    /// recorded action and every pair of consecutive recorded states.
    pub fn finish(&self) -> (r: Option<Bonus>)
        requires
            self.wf(),
            game_over(self.spec_board()@),
        ensures
            self.states().len() >= 3,
            self.actions().len() == self.states().len(),
            r is Some <==> winner(self.spec_board()@) == Some(opposite(self.spec_board().mover())),
            r matches Some(b) ==> {
                &&& self.actions().len() >= 3
                &&& b.action@ == self.actions()[self.actions().len() - 2]
                &&& b.steps@.len() == self.states().len() - 1
                &&& forall|i: int|
                    0 <= i < b.steps@.len() ==> (#[trigger] b.steps@[i]).0@ == self.states()[i]
                        && b.steps@[i].1@ == self.states()[i + 1]
            },
    {
        proof {
            self.board.lemma_wf();
            lemma_game_over_filled(self.board@);
        }
        let w = self.board.check_winner();
        let last = self.board.get_current_player().opponent();
        if w.is_some() && w.unwrap() == last.marker {
            let n = self.states.len();
            let action = self.actions[self.actions.len() - 2].clone();
            let mut steps: Vec<(String, String)> = Vec::new();
            let mut i: usize = 0;
            while i + 1 < n
                invariant
                    n == self.states@.len(),
                    n >= 3,
                    i + 1 <= n,
                    steps@.len() == i,
                    forall|j: int|
                        0 <= j < i ==> (#[trigger] steps@[j]).0@ == self.states()[j]
                            && steps@[j].1@ == self.states()[j + 1],
                decreases n - i,
            {
                steps.push((self.states[i].clone(), self.states[i + 1].clone()));
                i = i + 1;
            }
            Some(Bonus { action, steps })
        } else {
            None
        }
    }
}

proof fn lemma_all_empty(g: Seq<Cell>, n: int)
    requires
        0 <= n <= 9,
        g.len() == 9,
        forall|i: int| 0 <= i < 9 ==> g[i] == Cell::Empty,
    ensures
        empty_cells_upto(g, n).len() == n,
    decreases n,
{
    if n > 0 {
        lemma_all_empty(g, n - 1);
    }
}

proof fn lemma_filled_cells(g: Seq<Cell>, n: int, a: int, b: int, c: int)
    requires
        0 <= n <= 9,
        g.len() == 9,
        0 <= a < b < c < 9,
        g[a] != Cell::Empty,
        g[b] != Cell::Empty,
        g[c] != Cell::Empty,
    ensures
        empty_cells_upto(g, n).len() + (if a < n { 1int } else { 0 }) + (if b < n { 1int } else { 0 })
            + (if c < n { 1int } else { 0 }) <= n,
    decreases n,
{
    if n > 0 {
        lemma_filled_cells(g, n - 1, a, b, c);
    }
}

/// A finished game has at least three filled cells.
proof fn lemma_game_over_filled(g: Seq<Cell>)
    requires
        g.len() == 9,
        game_over(g),
    ensures
        filled(g) >= 3,
{
    lemma_winner(g);
    if let Some(m) = winner(g) {
        assert(m != Cell::Empty && has_line(g, m));
        let k = choose|k: int| 0 <= k < 8 && line_full(g, k, m);
        let (a, b, c) = line(k);
        lemma_filled_cells(g, 9, a, b, c);
    } else {
        lemma_none_empty(g, 9);
    }
}

proof fn lemma_none_empty(g: Seq<Cell>, n: int)
    requires
        0 <= n <= 9,
        g.len() == 9,
        full(g),
    ensures
        empty_cells_upto(g, n).len() == 0,
    decreases n,
{
    if n > 0 {
        lemma_none_empty(g, n - 1);
    }
}

} // verus!
