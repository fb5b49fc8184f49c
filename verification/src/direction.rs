//! Headings on the grid and byte-wide wrapping motion.

use vstd::prelude::*;

verus! {

/// A heading on the grid. `Up` is towards smaller `y`, `Left` towards smaller `x`.
#[derive(Copy, Clone, Debug, PartialEq, Eq, Structural)]
pub enum Direction {
    Up,
    Down,
    Right,
    Left,
}

/// The representative of `v` modulo 256, as a byte.
pub open spec fn wrap_u8(v: int) -> u8 {
    (v % 256) as u8
}

/// A signed byte reinterpreted as an unsigned one keeps its value modulo 256.
proof fn lemma_signed_byte_as_unsigned(distance: i8)
    ensures
        (distance as u8) as int == if distance < 0 {
            distance + 256
        } else {
            distance as int
        },
{
    assert((distance as u8) as int == if distance < 0 {
        distance + 256
    } else {
        distance as int
    }) by (bit_vector);
}

impl Direction {
    /// The heading that points the other way.
    pub open spec fn opposite_of(self) -> Direction {
        match self {
            Direction::Up => Direction::Down,
            Direction::Down => Direction::Up,
            Direction::Right => Direction::Left,
            Direction::Left => Direction::Right,
        }
    }

    /// Where `pos` ends up after `distance` steps along this heading, each axis
    /// taken modulo 256. The board plays no part here.
    pub open spec fn moved(self, distance: int, pos: (u8, u8)) -> (u8, u8) {
        match self {
            Direction::Up => (pos.0, wrap_u8(pos.1 - distance)),
            Direction::Down => (pos.0, wrap_u8(pos.1 + distance)),
            Direction::Right => (wrap_u8(pos.0 + distance), pos.1),
            Direction::Left => (wrap_u8(pos.0 - distance), pos.1),
        }
    }

    /// The heading that points the other way: `Up` and `Down` swap, and so do
    /// `Left` and `Right`.
    #[verifier::when_used_as_spec(opposite_of)]
    pub fn opposite(self) -> (d: Direction)
        ensures
            d == self.opposite_of(),
            d != self,
            d.opposite_of() == self,
    {
        match self {
            Direction::Up => Direction::Down,
            Direction::Down => Direction::Up,
            Direction::Right => Direction::Left,
            Direction::Left => Direction::Right,
        }
    }

    /// Moves `(x, y)` by `distance` steps along this heading. The axis that the
    /// heading runs along wraps modulo 256; the other one is left alone. A
    /// negative distance moves backwards.
    pub fn move_pos(&self, distance: i8, x: &mut u8, y: &mut u8)
        ensures
            (*final(x), *final(y)) == self.moved(distance as int, (*old(x), *old(y))),
    {
        let d: u8 = distance as u8;
        proof {
            lemma_signed_byte_as_unsigned(distance);
        }
        let x0: u8 = *x;
        let y0: u8 = *y;
        match self {
            Direction::Up => *y = y0.wrapping_sub(d),
            Direction::Down => *y = y0.wrapping_add(d),
            Direction::Right => *x = x0.wrapping_add(d),
            Direction::Left => *x = x0.wrapping_sub(d),
        }
    }
}

/// `!` on a heading gives the opposite heading.
impl std::ops::Not for &Direction {
    type Output = Direction;

    fn not(self) -> (d: Direction) {
        self.opposite()
    }
}

impl vstd::std_specs::ops::NotSpecImpl for &Direction {
    open spec fn obeys_not_spec() -> bool {
        true
    }

    open spec fn not_req(self) -> bool {
        true
    }

    open spec fn not_spec(self) -> Direction {
        self.opposite_of()
    }
}

/// Turning round twice gives the heading one started with.
pub proof fn lemma_opposite_involution(d: Direction)
    ensures
        d.opposite_of().opposite_of() == d,
        d.opposite_of() != d,
{
}

/// Adding `n` modulo 256 and then taking `n` away modulo 256 gives the byte back,
/// and the same the other way round.
proof fn lemma_wrap_round_trip(a: u8, n: int)
    ensures
        wrap_u8(wrap_u8(a + n) - n) == a,
        wrap_u8(wrap_u8(a - n) + n) == a,
{
    let up: int = (a + n) % 256;
    let down: int = (a - n) % 256;
    assert(wrap_u8(a + n) as int == up);
    assert(wrap_u8(a - n) as int == down);
    assert((up - n) % 256 == a) by {
        let k: int = (a + n) / 256;
        assert(a + n == 256 * k + up);
        vstd::arithmetic::div_mod::lemma_mod_multiples_vanish(-k, a as int, 256);
    }
    assert((down + n) % 256 == a) by {
        let k: int = (a - n) / 256;
        assert(a - n == 256 * k + down);
        vstd::arithmetic::div_mod::lemma_mod_multiples_vanish(-k, a as int, 256);
    }
}

/// Moving by `distance` along a heading and then by the same distance along the
/// opposite heading returns to the starting position, for every position and
/// every distance, wrapping included.
pub proof fn lemma_move_then_back(d: Direction, distance: int, pos: (u8, u8))
    ensures
        d.opposite_of().moved(distance, d.moved(distance, pos)) == pos,
{
    lemma_wrap_round_trip(pos.0, distance);
    lemma_wrap_round_trip(pos.1, distance);
}

/// Moving backwards along a heading is moving forwards along the opposite one.
pub proof fn lemma_negative_distance_is_opposite(d: Direction, distance: int, pos: (u8, u8))
    ensures
        d.moved(-distance, pos) == d.opposite_of().moved(distance, pos),
{
}

} // verus!
