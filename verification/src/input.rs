//! The keys that the game reacts to.

use crate::direction::Direction;
use vstd::prelude::*;

verus! {

/// A key of the keyboard, as far as the game tells keys apart.
#[derive(Copy, Clone, Debug, PartialEq, Eq, Structural)]
pub enum Key {
    W,
    A,
    S,
    D,
    Up,
    Left,
    Down,
    Right,
    Space,
    R,
    /// Any key that the game ignores.
    Other,
}

impl Key {
    /// The heading that a key asks for: `W` and `Up` ask for up, `A` and `Left`
    /// for left, `S` and `Down` for down, `D` and `Right` for right; no other
    /// key asks for one.
    pub open spec fn heading(self) -> Option<Direction> {
        match self {
            Key::W | Key::Up => Some(Direction::Up),
            Key::A | Key::Left => Some(Direction::Left),
            Key::S | Key::Down => Some(Direction::Down),
            Key::D | Key::Right => Some(Direction::Right),
            _ => None,
        }
    }
}

/// The heading that a key asks for, or `Err(())` for a key that asks for none.
impl<'a> TryFrom<&'a Key> for Direction {
    type Error = ();

    fn try_from(value: &'a Key) -> (res: Result<Direction, ()>) {
        match value {
            Key::W | Key::Up => Ok(Direction::Up),
            Key::A | Key::Left => Ok(Direction::Left),
            Key::S | Key::Down => Ok(Direction::Down),
            Key::D | Key::Right => Ok(Direction::Right),
            _ => Err(()),
        }
    }
}

impl<'a> vstd::std_specs::convert::TryFromSpecImpl<&'a Key> for Direction {
    open spec fn obeys_try_from_spec() -> bool {
        true
    }

    open spec fn try_from_spec(v: &'a Key) -> Result<Direction, ()> {
        match v.heading() {
            Some(d) => Ok(d),
            None => Err(()),
        }
    }
}

} // verus!
