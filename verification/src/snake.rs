//! The snake: its body, its committed and pending headings, and the rule by
//! which it advances one tile every few updates.

use crate::direction::Direction;
use std::collections::VecDeque;
use vstd::prelude::*;

verus! {

/// One tile of the snake's body, as `(x, y)`.
#[derive(Debug, Copy, Clone, PartialEq, Eq, Structural)]
pub struct SnekSeg(pub u8, pub u8);

/// Brings one coordinate back onto an axis of `dim` tiles after a single step:
/// 255 is what a step below 0 leaves and stands for the far edge, anything else
/// at or past `dim` stands for the near edge.
pub open spec fn wrap_coord(c: u8, dim: u8) -> u8
    recommends
        dim > 0,
{
    if c == 255 {
        (dim - 1) as u8
    } else if c >= dim {
        0u8
    } else {
        c
    }
}

impl SnekSeg {
    /// The tile as a pair.
    pub open spec fn pos(self) -> (u8, u8) {
        (self.0, self.1)
    }

    /// Whether the tile lies on a board of the given size.
    pub open spec fn on_board(self, board: (u8, u8)) -> bool {
        self.0 < board.0 && self.1 < board.1
    }

    /// The tile `dist` steps further along `dir`, modulo 256 on that axis.
    pub open spec fn moved(self, dist: int, dir: Direction) -> SnekSeg {
        let p = dir.moved(dist, (self.0, self.1));
        SnekSeg(p.0, p.1)
    }

    /// Both coordinates brought back onto the board.
    pub open spec fn wrapped(self, board: (u8, u8)) -> SnekSeg
        recommends
            board.0 > 0,
            board.1 > 0,
    {
        SnekSeg(wrap_coord(self.0, board.0), wrap_coord(self.1, board.1))
    }

    /// The tile that a head on this tile reaches by one step along `dir` on a
    /// board that wraps round at its edges.
    pub open spec fn step(self, dir: Direction, board: (u8, u8)) -> SnekSeg
        recommends
            board.0 > 0,
            board.1 > 0,
    {
        self.moved(1, dir).wrapped(board)
    }

    /// The tile `dist` steps further along `dir`, wrapping modulo 256 and
    /// knowing nothing of the board.
    pub fn move_dir(&self, dist: i8, dir: &Direction) -> (seg: SnekSeg)
        ensures
            seg == self.moved(dist as int, *dir),
    {
        let mut x: u8 = self.0;
        let mut y: u8 = self.1;
        dir.move_pos(dist, &mut x, &mut y);
        SnekSeg(x, y)
    }

    /// Brings a tile that is one step off the board back onto it, on the other
    /// side.
    pub fn wrap_to_board(&self, board_size: (u8, u8)) -> (seg: SnekSeg)
        requires
            board_size.0 > 0,
            board_size.1 > 0,
        ensures
            seg == self.wrapped(board_size),
    {
        let mut moved: SnekSeg = *self;
        if moved.0 == 255 {
            moved.0 = board_size.0 - 1;
        }
        if moved.1 == 255 {
            moved.1 = board_size.1 - 1;
        }
        if moved.0 >= board_size.0 {
            moved.0 = 0;
        }
        if moved.1 >= board_size.1 {
            moved.1 = 0;
        }
        moved
    }
}

/// The tile at `(0, 0)`.
impl Default for SnekSeg {
    fn default() -> (seg: SnekSeg)
        ensures
            seg == SnekSeg(0, 0),
    {
        SnekSeg(0, 0)
    }
}

/// The tile at a pair of coordinates.
impl From<(u8, u8)> for SnekSeg {
    fn from(t: (u8, u8)) -> (seg: SnekSeg) {
        SnekSeg(t.0, t.1)
    }
}

impl vstd::std_specs::convert::FromSpecImpl<(u8, u8)> for SnekSeg {
    open spec fn obeys_from_spec() -> bool {
        true
    }

    open spec fn from_spec(t: (u8, u8)) -> SnekSeg {
        SnekSeg(t.0, t.1)
    }
}

/// The coordinates of a tile.
impl<'a> From<&'a SnekSeg> for (u8, u8) {
    fn from(seg: &'a SnekSeg) -> (t: (u8, u8)) {
        (seg.0, seg.1)
    }
}

impl<'a> vstd::std_specs::convert::FromSpecImpl<&'a SnekSeg> for (u8, u8) {
    open spec fn obeys_from_spec() -> bool {
        true
    }

    open spec fn from_spec(seg: &'a SnekSeg) -> (u8, u8) {
        seg.pos()
    }
}

/// The snake as contracts see it.
pub struct SnekView {
    /// The body, head first and tail last.
    pub segs: Seq<SnekSeg>,
    /// The heading that the last move committed.
    pub dir: Direction,
    /// The heading that the next move will commit.
    pub next_dir: Direction,
    /// Updates seen since the last move.
    pub move_counter: u8,
    /// Updates that one move takes.
    pub updates_per_move: u8,
}

impl SnekView {
    /// What every snake satisfies: a body of at least one tile, and a counter
    /// that has not reached the number of updates that a move takes.
    pub open spec fn wf(self) -> bool {
        &&& self.segs.len() > 0
        &&& (self.move_counter == 0 || self.move_counter < self.updates_per_move)
    }

    /// The snake as it is right after construction.
    pub open spec fn fresh(updates_per_move: u8) -> SnekView {
        SnekView {
            segs: seq![SnekSeg(0, 0)],
            dir: Direction::Right,
            next_dir: Direction::Right,
            move_counter: 0,
            updates_per_move,
        }
    }

    /// The head tile.
    pub open spec fn head(self) -> SnekSeg {
        self.segs[0]
    }

    /// Whether some tile of the body lies at `pos`.
    pub open spec fn occupies(self, pos: (u8, u8)) -> bool {
        self.segs.contains(SnekSeg(pos.0, pos.1))
    }

    /// Whether every tile of the body lies on the board.
    pub open spec fn on_board(self, board: (u8, u8)) -> bool {
        forall|i: int| 0 <= i < self.segs.len() ==> (#[trigger] self.segs[i]).on_board(board)
    }

    /// Whether the next update moves the snake, rather than only counting.
    pub open spec fn moves_now(self) -> bool {
        self.move_counter + 1 >= self.updates_per_move
    }

    /// The tile that the head would move to: one step along the pending
    /// heading, wrapped round the board.
    pub open spec fn candidate(self, board: (u8, u8)) -> SnekSeg {
        self.head().step(self.next_dir, board)
    }

    /// Whether the next update moves the head onto the apple.
    pub open spec fn eats(self, apple: (u8, u8), board: (u8, u8)) -> bool {
        self.moves_now() && self.candidate(board).pos() == apple
    }

    /// Whether the next update moves the head onto a tile of the body as it is
    /// before the move, the tail included.
    pub open spec fn collides(self, board: (u8, u8)) -> bool {
        self.moves_now() && self.segs.contains(self.candidate(board))
    }

    /// The snake after one update.
    pub open spec fn advance(self, apple: (u8, u8), board: (u8, u8)) -> SnekView {
        if !self.moves_now() {
            SnekView { move_counter: (self.move_counter + 1) as u8, ..self }
        } else {
            let grown = seq![self.candidate(board)] + self.segs;
            SnekView {
                segs: if self.candidate(board).pos() == apple {
                    grown
                } else {
                    grown.drop_last()
                },
                dir: self.next_dir,
                next_dir: self.next_dir,
                move_counter: 0,
                updates_per_move: self.updates_per_move,
            }
        }
    }

    /// The snake after one update for each apple of `apples`, taken in order.
    pub open spec fn advance_all(self, apples: Seq<(u8, u8)>, board: (u8, u8)) -> SnekView
        decreases apples.len(),
    {
        if apples.len() == 0 {
            self
        } else {
            self.advance(apples[0], board).advance_all(apples.skip(1), board)
        }
    }
}

/// The snake: an ordered body, the heading it moves along, the heading it will
/// take up at its next move, and the count of updates since the last one.
#[derive(Debug)]
pub struct Snek {
    segs: VecDeque<SnekSeg>,
    dir: Direction,
    next_dir: Direction,
    move_counter: u8,
    updates_per_move: u8,
}

impl View for Snek {
    type V = SnekView;

    closed spec fn view(&self) -> SnekView {
        SnekView {
            segs: self.segs@,
            dir: self.dir,
            next_dir: self.next_dir,
            move_counter: self.move_counter,
            updates_per_move: self.updates_per_move,
        }
    }
}

impl Snek {
    /// A snake of one tile at `(0, 0)`, heading right, that moves once every
    /// `updates_per_move` updates (on every update where that is 0 or 1).
    pub fn new(updates_per_move: u8) -> (snek: Snek)
        ensures
            snek@ == SnekView::fresh(updates_per_move),
            snek@.wf(),
    {
        let mut segs: VecDeque<SnekSeg> = VecDeque::new();
        segs.push_back(SnekSeg(0, 0));
        let snek = Snek {
            updates_per_move,
            segs,
            dir: Direction::Right,
            next_dir: Direction::Right,
            move_counter: 0,
        };
        assert(snek@.segs =~= seq![SnekSeg(0, 0)]);
        snek
    }

    /// Puts the snake back to what `new` gives: one tile at `(0, 0)`, heading
    /// right, nothing counted.
    pub fn reset(&mut self, updates_per_move: u8)
        ensures
            final(self)@ == SnekView::fresh(updates_per_move),
            final(self)@.wf(),
    {
        *self = Snek::new(updates_per_move);
    }

    /// A snake in a given state: the body head first, the committed and the
    /// pending heading, the updates counted since the last move, and the
    /// updates that a move takes. `None` where the body is empty or the count
    /// has reached the updates that a move takes.
    pub fn from_parts(
        body: Vec<SnekSeg>,
        dir: Direction,
        next_dir: Direction,
        move_counter: u8,
        updates_per_move: u8,
    ) -> (res: Option<Snek>)
        ensures
            res is Some <==> (SnekView {
                segs: body@,
                dir,
                next_dir,
                move_counter,
                updates_per_move,
            }).wf(),
            res matches Some(snek) ==> snek@ == (SnekView {
                segs: body@,
                dir,
                next_dir,
                move_counter,
                updates_per_move,
            }),
    {
        if body.len() == 0 || (move_counter != 0 && move_counter >= updates_per_move) {
            return None;
        }
        let mut segs: VecDeque<SnekSeg> = VecDeque::new();
        let n: usize = body.len();
        let mut i: usize = 0;
        while i < n
            invariant
                n == body@.len(),
                i <= n,
                segs@ == body@.take(i as int),
            decreases n - i,
        {
            segs.push_back(body[i]);
            assert(body@.take(i + 1) =~= body@.take(i as int).push(body@[i as int]));
            i += 1;
        }
        assert(body@.take(n as int) =~= body@);
        Some(Snek { segs, dir, next_dir, move_counter, updates_per_move })
    }

    /// The number of tiles in the body.
    pub fn len(&self) -> (n: usize)
        ensures
            n == self@.segs.len(),
    {
        self.segs.len()
    }

    /// The body, head first and tail last.
    pub fn segments(&self) -> (body: Vec<SnekSeg>)
        ensures
            body@ == self@.segs,
    {
        let mut body: Vec<SnekSeg> = Vec::new();
        let n: usize = self.segs.len();
        let mut i: usize = 0;
        while i < n
            invariant
                n == self.segs@.len(),
                i <= n,
                body@ == self.segs@.take(i as int),
            decreases n - i,
        {
            body.push(self.segs[i]);
            assert(self.segs@.take(i + 1) =~= self.segs@.take(i as int).push(self.segs@[i as int]));
            i += 1;
        }
        assert(self.segs@.take(n as int) =~= self.segs@);
        body
    }

    /// The head tile.
    pub fn head(&self) -> (seg: SnekSeg)
        requires
            self@.wf(),
        ensures
            seg == self@.head(),
    {
        self.segs[0]
    }

    /// The heading that the last move committed.
    pub fn dir(&self) -> (d: Direction)
        ensures
            d == self@.dir,
    {
        self.dir
    }

    /// The heading that the next move will commit.
    pub fn next_dir(&self) -> (d: Direction)
        ensures
            d == self@.next_dir,
    {
        self.next_dir
    }

    /// Updates seen since the last move.
    pub fn move_counter(&self) -> (n: u8)
        ensures
            n == self@.move_counter,
    {
        self.move_counter
    }

    /// Updates that one move takes.
    pub fn updates_per_move(&self) -> (n: u8)
        ensures
            n == self@.updates_per_move,
    {
        self.updates_per_move
    }

    /// Sets the heading that the next move will commit. Nothing else changes,
    /// and no heading is refused here.
    pub fn set_next_dir(&mut self, d: Direction)
        ensures
            final(self)@ == (SnekView { next_dir: d, ..old(self)@ }),
    {
        self.next_dir = d;
    }

    /// Whether every tile of the body lies on a board of the given size.
    pub fn fits(&self, board_size: (u8, u8)) -> (ok: bool)
        ensures
            ok == self@.on_board(board_size),
    {
        let n: usize = self.segs.len();
        let mut i: usize = 0;
        while i < n
            invariant
                n == self.segs@.len(),
                i <= n,
                forall|j: int| 0 <= j < i ==> (#[trigger] self.segs@[j]).on_board(board_size),
            decreases n - i,
        {
            let s: SnekSeg = self.segs[i];
            if s.0 >= board_size.0 || s.1 >= board_size.1 {
                assert(!self@.segs[i as int].on_board(board_size));
                return false;
            }
            i += 1;
        }
        true
    }

    /// Whether any tile of the body lies at `pos`.
    pub fn check_collides(&self, pos: (u8, u8)) -> (hit: bool)
        ensures
            hit == self@.occupies(pos),
    {
        let seg = SnekSeg(pos.0, pos.1);
        let n: usize = self.segs.len();
        let mut i: usize = 0;
        while i < n
            invariant
                n == self.segs@.len(),
                i <= n,
                seg == SnekSeg(pos.0, pos.1),
                forall|j: int| 0 <= j < i ==> self.segs@[j] != seg,
            decreases n - i,
        {
            let s: SnekSeg = self.segs[i];
            if s.0 == seg.0 && s.1 == seg.1 {
                assert(self.segs@[i as int] == seg);
                return true;
            }
            i += 1;
        }
        false
    }

    /// One update. The counter goes up by one; when it reaches the number of
    /// updates that a move takes, it starts again at 0, the pending heading is
    /// committed, and the head moves one tile along it, wrapping round the
    /// board. The first flag says that the new head lies on the apple, in which
    /// case the tail stays and the snake is one tile longer. The second says
    /// that the new head lies on a tile that the body held before the move.
    pub fn update(&mut self, apple_pos: (u8, u8), board_size: (u8, u8)) -> (res: (bool, bool))
        requires
            old(self)@.wf(),
            board_size.0 > 0,
            board_size.1 > 0,
        ensures
            final(self)@ == old(self)@.advance(apple_pos, board_size),
            res.0 == old(self)@.eats(apple_pos, board_size),
            res.1 == old(self)@.collides(board_size),
            final(self)@.wf(),
            !old(self)@.moves_now() ==> final(self)@.segs == old(self)@.segs,
            res.0 ==> final(self)@.segs.len() == old(self)@.segs.len() + 1,
            res.0 ==> final(self)@.segs.last() == old(self)@.segs.last(),
            !res.0 ==> final(self)@.segs.len() == old(self)@.segs.len(),
    {
        proof {
            lemma_advance_length(old(self)@, apple_pos, board_size);
        }
        let next: u8 = self.move_counter + 1;
        if next < self.updates_per_move {
            self.move_counter = next;
            return (false, false);
        }
        self.move_counter = 0;
        self.dir = self.next_dir;
        let head: SnekSeg = self.segs[0];
        let moved: SnekSeg = head.move_dir(1, &self.dir).wrap_to_board(board_size);
        let lost: bool = self.check_collides((moved.0, moved.1));
        self.segs.push_front(moved);
        let ate_apple: bool = moved.0 == apple_pos.0 && moved.1 == apple_pos.1;
        if !ate_apple {
            self.segs.pop_back();
        }
        assert(final(self)@.segs =~= old(self)@.advance(apple_pos, board_size).segs);
        (ate_apple, lost)
    }
}

/// An update leaves a snake a snake: the body stays non-empty and the counter
/// stays below the updates that a move takes.
pub proof fn lemma_advance_keeps_wf(v: SnekView, apple: (u8, u8), board: (u8, u8))
    requires
        v.wf(),
    ensures
        v.advance(apple, board).wf(),
{
}

/// On a board with at least one tile each way, a snake that lies on the board
/// still lies on it after an update.
pub proof fn lemma_advance_stays_on_board(v: SnekView, apple: (u8, u8), board: (u8, u8))
    requires
        v.wf(),
        v.on_board(board),
        board.0 > 0,
        board.1 > 0,
    ensures
        v.candidate(board).on_board(board),
        v.advance(apple, board).on_board(board),
{
    let after = v.advance(apple, board);
    assert forall|i: int| 0 <= i < after.segs.len() implies (#[trigger] after.segs[i]).on_board(
        board,
    ) by {
        if v.moves_now() && i > 0 {
            assert(after.segs[i] == v.segs[i - 1]);
        }
    }
}

/// Updates that only count leave the body, the committed heading and the
/// pending heading as they are: as long as the counter, with one more for each
/// update, stays below the updates that a move takes, only the counter changes.
/// For a snake that has just moved this covers any number of updates smaller
/// than the updates that a move takes.
pub proof fn lemma_waiting_keeps_body(v: SnekView, apples: Seq<(u8, u8)>, board: (u8, u8))
    requires
        v.move_counter + apples.len() < v.updates_per_move,
    ensures
        v.advance_all(apples, board) == (SnekView {
            move_counter: (v.move_counter + apples.len()) as u8,
            ..v
        }),
        v.advance_all(apples, board).segs == v.segs,
    decreases apples.len(),
{
    if apples.len() > 0 {
        lemma_waiting_keeps_body(v.advance(apples[0], board), apples.skip(1), board);
    }
}

/// What an update does to the length of the body. Where the head moves onto
/// the apple, the body is one tile longer and every tile it had is still there,
/// in order, behind the new head: the tail was not removed. Where the head
/// moves elsewhere, the length is unchanged: the new head is added and the tail
/// is removed. Where the update only counts, the body is unchanged.
pub proof fn lemma_advance_length(v: SnekView, apple: (u8, u8), board: (u8, u8))
    requires
        v.wf(),
    ensures
        v.eats(apple, board) ==> {
            &&& v.advance(apple, board).segs.len() == v.segs.len() + 1
            &&& v.advance(apple, board).segs.skip(1) == v.segs
            &&& v.advance(apple, board).segs.last() == v.segs.last()
        },
        v.moves_now() && !v.eats(apple, board) ==> {
            &&& v.advance(apple, board).segs.len() == v.segs.len()
            &&& v.advance(apple, board).segs == seq![v.candidate(board)] + v.segs.drop_last()
        },
        v.moves_now() ==> v.advance(apple, board).head() == v.candidate(board),
        !v.moves_now() ==> v.advance(apple, board).segs == v.segs,
{
    let grown = seq![v.candidate(board)] + v.segs;
    if v.eats(apple, board) {
        assert(grown.skip(1) =~= v.segs);
    } else if v.moves_now() {
        assert(grown.drop_last() =~= seq![v.candidate(board)] + v.segs.drop_last());
    }
}

/// A snake whose head is in the leftmost column and that is about to move left
/// has its head in the rightmost column after the move, in the same row.
pub proof fn lemma_wraps_past_left_edge(v: SnekView, apple: (u8, u8), board: (u8, u8))
    requires
        v.wf(),
        board.0 > 0,
        board.1 > 0,
        v.head().on_board(board),
        v.head().0 == 0,
        v.next_dir == Direction::Left,
        v.moves_now(),
    ensures
        v.advance(apple, board).head() == SnekSeg((board.0 - 1) as u8, v.head().1),
{
}

/// A snake whose head is in the rightmost column and that is about to move
/// right has its head in the leftmost column after the move, in the same row.
/// This needs a board narrower than 255 tiles: on one of 255 the step leads to
/// column 255, which is read as a step below 0, and the head stays where it is.
pub proof fn lemma_wraps_past_right_edge(v: SnekView, apple: (u8, u8), board: (u8, u8))
    requires
        v.wf(),
        0 < board.0 < 255,
        board.1 > 0,
        v.head().on_board(board),
        v.head().0 == board.0 - 1,
        v.next_dir == Direction::Right,
        v.moves_now(),
    ensures
        v.advance(apple, board).head() == SnekSeg(0, v.head().1),
{
}

/// A snake whose head is in the top row and that is about to move up has its
/// head in the bottom row after the move, in the same column.
pub proof fn lemma_wraps_past_top_edge(v: SnekView, apple: (u8, u8), board: (u8, u8))
    requires
        v.wf(),
        board.0 > 0,
        board.1 > 0,
        v.head().on_board(board),
        v.head().1 == 0,
        v.next_dir == Direction::Up,
        v.moves_now(),
    ensures
        v.advance(apple, board).head() == SnekSeg(v.head().0, (board.1 - 1) as u8),
{
}

/// A snake whose head is in the bottom row and that is about to move down has
/// its head in the top row after the move, in the same column, on a board lower
/// than 255 tiles.
pub proof fn lemma_wraps_past_bottom_edge(v: SnekView, apple: (u8, u8), board: (u8, u8))
    requires
        v.wf(),
        board.0 > 0,
        0 < board.1 < 255,
        v.head().on_board(board),
        v.head().1 == board.1 - 1,
        v.next_dir == Direction::Down,
        v.moves_now(),
    ensures
        v.advance(apple, board).head() == SnekSeg(v.head().0, 0),
{
}

/// On a board of 255 tiles across, a head in the last column that moves right
/// stays where it is.
pub proof fn lemma_widest_board_blocks_right_edge(v: SnekView, apple: (u8, u8), board: (u8, u8))
    requires
        v.wf(),
        board.0 == 255,
        board.1 > 0,
        v.head().on_board(board),
        v.head().0 == 254,
        v.next_dir == Direction::Right,
        v.moves_now(),
    ensures
        v.advance(apple, board).head() == v.head(),
        v.collides(board),
{
}

} // verus!
