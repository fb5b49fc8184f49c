//! The game: a snake on a board that wraps round, an apple, and the states
//! paused, running and lost.

use crate::direction::Direction;
use crate::input::Key;
use crate::rng::{gen_below, thread_rng};
use crate::snake::{lemma_advance_stays_on_board, Snek, SnekView};
use rand::rngs::ThreadRng;
use vstd::prelude::*;

verus! {

/// Whether the game is over, going on, or halted for the moment.
#[derive(Copy, Clone, Debug, PartialEq, Eq, Structural)]
pub enum GameState {
    Lost,
    Running,
    Paused,
}

/// What a game is made with.
#[derive(Copy, Clone, Debug)]
pub struct GameSettings {
    /// Width and height of the board in tiles, both at least 1.
    pub game_size: (u8, u8),
    /// Updates that one move of the snake takes.
    pub updates_per_move: u8,
    /// Edge of a tile in pixels. The rules do not read it.
    pub tile_size: u16,
}

/// How many tiles one placement of the apple draws at most before it gives up
/// and leaves the board without an apple.
pub const APPLE_DRAWS: u32 = 1048576;

/// The game as contracts see it: everything but the random source.
pub struct GameView {
    pub snek: SnekView,
    /// The apple, or `None` where one has to be placed.
    pub apple_pos: Option<(u8, u8)>,
    pub game_size: (u8, u8),
    pub state: GameState,
    pub updates_per_move: u8,
    pub tile_size: u16,
}

impl GameView {
    /// What every game satisfies: a board of at least one tile each way, a
    /// snake that lies on it and moves at the configured pace, and an apple, if
    /// there is one, on the board.
    pub open spec fn wf(self) -> bool {
        &&& self.game_size.0 > 0
        &&& self.game_size.1 > 0
        &&& self.snek.wf()
        &&& self.snek.on_board(self.game_size)
        &&& self.snek.updates_per_move == self.updates_per_move
        &&& (self.apple_pos matches Some(a) ==> a.0 < self.game_size.0 && a.1 < self.game_size.1)
    }

    /// The game as it starts: paused, a fresh snake, no apple yet.
    pub open spec fn fresh(sets: GameSettings) -> GameView {
        GameView {
            snek: SnekView::fresh(sets.updates_per_move),
            apple_pos: None,
            game_size: sets.game_size,
            state: GameState::Paused,
            updates_per_move: sets.updates_per_move,
            tile_size: sets.tile_size,
        }
    }

    /// Whether `pos` is a tile of the board that the snake does not lie on.
    pub open spec fn free_cell(self, pos: (u8, u8)) -> bool {
        &&& pos.0 < self.game_size.0
        &&& pos.1 < self.game_size.1
        &&& !self.snek.occupies(pos)
    }

    /// Whether `apple` can be the apple that the next update plays with: the
    /// one on the board, or, where there is none, any free tile.
    pub open spec fn apple_in_play(self, apple: (u8, u8)) -> bool {
        match self.apple_pos {
            Some(a) => apple == a,
            None => self.free_cell(apple),
        }
    }

    /// A running game after one update played with `apple`. The snake is
    /// updated. Where it ran into itself the game is lost and the apple stays,
    /// even if the head lies on it. Otherwise, where it ate the apple, the
    /// apple is gone until the next update places a new one.
    pub open spec fn step(self, apple: (u8, u8)) -> GameView {
        let collided = self.snek.collides(self.game_size);
        let ate = self.snek.eats(apple, self.game_size);
        GameView {
            snek: self.snek.advance(apple, self.game_size),
            apple_pos: if !collided && ate {
                None
            } else {
                Some(apple)
            },
            state: if collided {
                GameState::Lost
            } else {
                self.state
            },
            ..self
        }
    }

    /// The game after a request to head along `d`. The request becomes the
    /// pending heading unless `d` is the opposite of the heading that the last
    /// move committed. The pending heading plays no part in that test.
    pub open spec fn turn(self, d: Direction) -> GameView {
        if d.opposite_of() != self.snek.dir {
            GameView { snek: SnekView { next_dir: d, ..self.snek }, ..self }
        } else {
            self
        }
    }

    /// The game after the pause key: running becomes paused, paused becomes
    /// running, lost stays lost.
    pub open spec fn toggle_pause(self) -> GameView {
        match self.state {
            GameState::Running => GameView { state: GameState::Paused, ..self },
            GameState::Paused => GameView { state: GameState::Running, ..self },
            GameState::Lost => self,
        }
    }

    /// The game started over: paused, a fresh snake, and `apple` on the board.
    pub open spec fn restart(self, apple: Option<(u8, u8)>) -> GameView {
        GameView {
            snek: SnekView::fresh(self.updates_per_move),
            apple_pos: apple,
            state: GameState::Paused,
            ..self
        }
    }

    /// The game after `key` went down. `apple` is what the restart key puts on
    /// the board; no other key reads it.
    pub open spec fn key_pressed(self, key: Key, apple: Option<(u8, u8)>) -> GameView {
        match key {
            Key::Space => self.toggle_pause(),
            Key::R => self.restart(apple),
            _ => match key.heading() {
                Some(d) => self.turn(d),
                None => self,
            },
        }
    }
}

/// A game of snake.
pub struct Game {
    snek: Snek,
    apple_pos: Option<(u8, u8)>,
    apple_rand: ThreadRng,
    game_size: (u8, u8),
    state: GameState,
    updates_per_move: u8,
    tile_size: u16,
}

impl View for Game {
    type V = GameView;

    closed spec fn view(&self) -> GameView {
        GameView {
            snek: self.snek@,
            apple_pos: self.apple_pos,
            game_size: self.game_size,
            state: self.state,
            updates_per_move: self.updates_per_move,
            tile_size: self.tile_size,
        }
    }
}

impl Game {
    /// A new game on a board of the given size: paused, with a snake of one
    /// tile at `(0, 0)` and no apple yet. The random source is that of the
    /// current thread.
    pub fn new(sets: GameSettings) -> (game: Game)
        requires
            sets.game_size.0 > 0,
            sets.game_size.1 > 0,
        ensures
            game@ == GameView::fresh(sets),
            game@.wf(),
    {
        Game {
            updates_per_move: sets.updates_per_move,
            tile_size: sets.tile_size,
            game_size: sets.game_size,
            state: GameState::Paused,
            apple_rand: thread_rng(),
            snek: Snek::new(sets.updates_per_move),
            apple_pos: None,
        }
    }

    /// A game in a given state, with the random source of the current thread.
    /// `None` where the board has no tile, the snake does not lie on the board
    /// or does not move at the configured pace, or the apple lies off the
    /// board.
    pub fn from_parts(
        sets: GameSettings,
        snek: Snek,
        apple_pos: Option<(u8, u8)>,
        state: GameState,
    ) -> (res: Option<Game>)
        requires
            snek@.wf(),
        ensures
            res is Some <==> (GameView {
                snek: snek@,
                apple_pos,
                game_size: sets.game_size,
                state,
                updates_per_move: sets.updates_per_move,
                tile_size: sets.tile_size,
            }).wf(),
            res matches Some(game) ==> game@ == (GameView {
                snek: snek@,
                apple_pos,
                game_size: sets.game_size,
                state,
                updates_per_move: sets.updates_per_move,
                tile_size: sets.tile_size,
            }),
    {
        if sets.game_size.0 == 0 || sets.game_size.1 == 0 {
            return None;
        }
        if snek.updates_per_move() != sets.updates_per_move || !snek.fits(sets.game_size) {
            return None;
        }
        match apple_pos {
            Some(a) => {
                if a.0 >= sets.game_size.0 || a.1 >= sets.game_size.1 {
                    return None;
                }
            },
            None => {},
        }
        Some(
            Game {
                updates_per_move: sets.updates_per_move,
                tile_size: sets.tile_size,
                game_size: sets.game_size,
                state,
                apple_rand: thread_rng(),
                snek,
                apple_pos,
            },
        )
    }

    /// Whether the game is lost, running or paused.
    pub fn state(&self) -> (state: GameState)
        ensures
            state == self@.state,
    {
        self.state
    }

    /// The apple, or `None` where the next update has to place one.
    pub fn apple_pos(&self) -> (apple: Option<(u8, u8)>)
        ensures
            apple == self@.apple_pos,
    {
        self.apple_pos
    }

    /// Width and height of the board in tiles.
    pub fn game_size(&self) -> (size: (u8, u8))
        ensures
            size == self@.game_size,
    {
        self.game_size
    }

    /// Edge of a tile in pixels.
    pub fn tile_size(&self) -> (size: u16)
        ensures
            size == self@.tile_size,
    {
        self.tile_size
    }

    /// Updates that one move of the snake takes.
    pub fn updates_per_move(&self) -> (n: u8)
        ensures
            n == self@.updates_per_move,
    {
        self.updates_per_move
    }

    /// The snake.
    pub fn snek(&self) -> (snek: &Snek)
        ensures
            snek@ == self@.snek,
    {
        &self.snek
    }

    /// The score: the number of tiles of the snake.
    pub fn score(&self) -> (n: usize)
        ensures
            n == self@.snek.segs.len(),
    {
        self.snek.len()
    }

    /// Puts the apple on `candidate` if that is a tile of the board that the
    /// snake does not lie on, and says whether it did. Otherwise nothing
    /// changes.
    pub fn place_apple(&mut self, candidate: (u8, u8)) -> (placed: bool)
        ensures
            placed == old(self)@.free_cell(candidate),
            placed ==> final(self)@ == (GameView { apple_pos: Some(candidate), ..old(self)@ }),
            !placed ==> final(self)@ == old(self)@,
            old(self)@.wf() ==> final(self)@.wf(),
    {
        if candidate.0 < self.game_size.0 && candidate.1 < self.game_size.1
            && !self.snek.check_collides(candidate) {
            self.apple_pos = Some(candidate);
            true
        } else {
            false
        }
    }

    /// Takes the apple off the board and draws tiles of the board at random
    /// until one is drawn that the snake does not lie on; the apple goes there.
    /// After `APPLE_DRAWS` draws without such a tile the board is left without
    /// an apple. Nothing but the apple changes.
    pub fn randomize_apple(&mut self)
        requires
            old(self)@.wf(),
        ensures
            final(self)@ == (GameView { apple_pos: final(self)@.apple_pos, ..old(self)@ }),
            final(self)@.apple_pos matches Some(a) ==> old(self)@.free_cell(a),
            final(self)@.wf(),
    {
        self.apple_pos = None;
        let width: u8 = self.game_size.0;
        let height: u8 = self.game_size.1;
        let mut draws_left: u32 = APPLE_DRAWS;
        while self.apple_pos.is_none() && draws_left > 0
            invariant
                width == self.game_size.0,
                height == self.game_size.1,
                width > 0,
                height > 0,
                self@ == (GameView { apple_pos: self@.apple_pos, ..old(self)@ }),
                self@.apple_pos matches Some(a) ==> old(self)@.free_cell(a),
            decreases draws_left,
        {
            let x: u8 = gen_below(&mut self.apple_rand, width);
            let y: u8 = gen_below(&mut self.apple_rand, height);
            self.place_apple((x, y));
            draws_left -= 1;
        }
    }

    /// One update. A game that is not running stays as it is. A running game
    /// first gets an apple if it has none, then updates the snake. It is lost
    /// if the snake ran into itself; otherwise, if the snake ate the apple, the
    /// apple is gone until the next update. Where no apple could be placed the
    /// update ends there and the snake waits.
    pub fn update(&mut self)
        requires
            old(self)@.wf(),
        ensures
            final(self)@.wf(),
            old(self)@.state != GameState::Running ==> final(self)@ == old(self)@,
            old(self)@.state == GameState::Running ==> {
                ||| exists|apple: (u8, u8)|
                    old(self)@.apple_in_play(apple) && final(self)@ == #[trigger] old(self)@.step(
                        apple,
                    )
                ||| old(self)@.apple_pos is None && final(self)@ == old(self)@
            },
    {
        if self.state == GameState::Running {
            if self.apple_pos.is_none() {
                self.randomize_apple();
            }
            match self.apple_pos {
                Some(apple) => {
                    let ghost before = self@;
                    proof {
                        lemma_advance_stays_on_board(before.snek, apple, before.game_size);
                    }
                    let (ate_apple, lost) = self.snek.update(apple, self.game_size);
                    if lost {
                        self.state = GameState::Lost;
                    } else if ate_apple {
                        self.apple_pos = None;
                    }
                    assert(self@ == old(self)@.step(apple));
                },
                None => {},
            }
        }
    }

    /// One event of the keyboard. A key that comes up changes nothing. Of the
    /// keys that go down, `W`, `A`, `S`, `D` and the arrows ask for a heading,
    /// which becomes the pending one unless it is the opposite of the heading
    /// that the last move committed; `Space` halts a running game and resumes a
    /// halted one; `R` starts over, paused, with a fresh snake and a new apple;
    /// any other key changes nothing.
    pub fn keypress(&mut self, key: Key, pressed: bool)
        requires
            old(self)@.wf(),
        ensures
            final(self)@.wf(),
            !pressed ==> final(self)@ == old(self)@,
            pressed ==> final(self)@ == old(self)@.key_pressed(key, final(self)@.apple_pos),
            pressed && key == Key::R ==> (final(self)@.apple_pos matches Some(a) ==> old(
                self,
            )@.restart(None).free_cell(a)),
    {
        if !pressed {
            return ;
        }
        match Direction::try_from(&key) {
            Ok(d) => {
                if d.opposite() != self.snek.dir() {
                    self.snek.set_next_dir(d);
                }
            },
            Err(_) => {},
        }
        match key {
            Key::Space => match self.state {
                GameState::Running => self.state = GameState::Paused,
                GameState::Paused => self.state = GameState::Running,
                GameState::Lost => {},
            },
            Key::R => {
                self.state = GameState::Paused;
                self.snek = Snek::new(self.updates_per_move);
                self.randomize_apple();
            },
            _ => {},
        }
    }
}

/// A key that asks for the opposite of the committed heading changes nothing,
/// whatever the pending heading is; a key that asks for any other heading makes
/// that heading the pending one and changes nothing else.
pub proof fn lemma_reversal_is_refused(g: GameView, key: Key, d: Direction, apple: Option<(u8, u8)>)
    requires
        key.heading() == Some(d),
    ensures
        d == g.snek.dir.opposite_of() ==> g.key_pressed(key, apple) == g,
        d != g.snek.dir.opposite_of() ==> g.key_pressed(key, apple) == (GameView {
            snek: SnekView { next_dir: d, ..g.snek },
            ..g
        }),
{
}

/// No key but the restart key leads out of a lost game: any other key leaves it
/// lost, with the body of the snake as it was. The restart key leads to a
/// paused game with a fresh snake.
pub proof fn lemma_lost_until_restart(g: GameView, key: Key, apple: Option<(u8, u8)>)
    requires
        g.state == GameState::Lost,
    ensures
        key != Key::R ==> g.key_pressed(key, apple).state == GameState::Lost,
        key != Key::R ==> g.key_pressed(key, apple).snek.segs == g.snek.segs,
        key == Key::R ==> g.key_pressed(key, apple) == g.restart(apple),
        g.restart(apple).state == GameState::Paused,
        g.restart(apple).snek == SnekView::fresh(g.updates_per_move),
{
}

/// A step of a running game keeps the game well formed: the snake stays on the
/// board, and the game is lost exactly where the snake ran into itself.
pub proof fn lemma_step_keeps_wf(g: GameView, apple: (u8, u8))
    requires
        g.wf(),
        apple.0 < g.game_size.0,
        apple.1 < g.game_size.1,
    ensures
        g.step(apple).wf(),
        g.step(apple).state == GameState::Lost <==> g.state == GameState::Lost || g.snek.collides(
            g.game_size,
        ),
{
    lemma_advance_stays_on_board(g.snek, apple, g.game_size);
}

} // verus!
