//! The six axis-aligned unit directions and a stable index mapping used for
//! per-face arrays (textures, neighbor slots).

use vstd::prelude::*;

verus! {

/// An axis-aligned unit direction. Each face of a block is identified by the
/// direction its outward normal points in.
#[derive(Clone, Copy, PartialEq, Eq, Structural, Debug)]
pub enum Direction {
    PosX,
    PosY,
    PosZ,
    NegX,
    NegY,
    NegZ,
}

impl Direction {
    /// The stable index of this direction, used to address per-face arrays.
    pub open spec fn idx(self) -> int {
        match self {
            Direction::PosX => 0,
            Direction::PosY => 1,
            Direction::PosZ => 2,
            Direction::NegX => 3,
            Direction::NegY => 4,
            Direction::NegZ => 5,
        }
    }

    /// The direction pointing the opposite way.
    pub open spec fn opposite_spec(self) -> Direction {
        match self {
            Direction::PosX => Direction::NegX,
            Direction::PosY => Direction::NegY,
            Direction::PosZ => Direction::NegZ,
            Direction::NegX => Direction::PosX,
            Direction::NegY => Direction::PosY,
            Direction::NegZ => Direction::PosZ,
        }
    }

    pub fn to_idx(self) -> (r: usize)
        ensures
            r == self.idx(),
    {
        match self {
            Direction::PosX => 0,
            Direction::PosY => 1,
            Direction::PosZ => 2,
            Direction::NegX => 3,
            Direction::NegY => 4,
            Direction::NegZ => 5,
        }
    }

    pub fn opposite(self) -> (r: Direction)
        ensures
            r == self.opposite_spec(),
    {
        match self {
            Direction::PosX => Direction::NegX,
            Direction::PosY => Direction::NegY,
            Direction::PosZ => Direction::NegZ,
            Direction::NegX => Direction::PosX,
            Direction::NegY => Direction::PosY,
            Direction::NegZ => Direction::PosZ,
        }
    }

    /// An iterator over all six directions in index order.
    pub fn iter() -> (r: DirectionIterator)
        ensures
            r.remaining() == DirectionIterator::all(),
    {
        DirectionIterator { curr: None }
    }
}

/// The direction with per-face index `value % 6`.
pub open spec fn direction_of_u64(value: u64) -> Direction {
    if value % 6 == 0 {
        Direction::PosX
    } else if value % 6 == 1 {
        Direction::PosY
    } else if value % 6 == 2 {
        Direction::PosZ
    } else if value % 6 == 3 {
        Direction::NegX
    } else if value % 6 == 4 {
        Direction::NegY
    } else {
        Direction::NegZ
    }
}

impl From<u64> for Direction {
    /// The direction whose index is `value`, wrapping around past the
    /// sixth.
    fn from(value: u64) -> (r: Direction) {
        match value % 6 {
            0 => Direction::PosX,
            1 => Direction::PosY,
            2 => Direction::PosZ,
            3 => Direction::NegX,
            4 => Direction::NegY,
            _ => Direction::NegZ,
        }
    }
}

impl vstd::std_specs::convert::FromSpecImpl<u64> for Direction {
    open spec fn obeys_from_spec() -> bool {
        true
    }

    open spec fn from_spec(value: u64) -> Direction {
        direction_of_u64(value)
    }
}

/// Yields the six directions in index order: +X, +Y, +Z, -X, -Y, -Z.
#[derive(Clone, Copy)]
pub struct DirectionIterator {
    curr: Option<Direction>,
}

impl DirectionIterator {
    /// All six directions in the order this iterator yields them.
    pub open spec fn all() -> Seq<Direction> {
        seq![
            Direction::PosX,
            Direction::PosY,
            Direction::PosZ,
            Direction::NegX,
            Direction::NegY,
            Direction::NegZ,
        ]
    }

    /// The directions this iterator has yet to yield, in order.
    pub closed spec fn remaining(self) -> Seq<Direction> {
        match self.curr {
            None => Self::all(),
            Some(d) => Self::all().skip(d.idx() + 1),
        }
    }

    /// Yields the next direction, or `None` once all six have been yielded.
    pub fn next(&mut self) -> (r: Option<Direction>)
        ensures
            old(self).remaining().len() > 0 ==> r == Some(old(self).remaining()[0]),
            old(self).remaining().len() > 0 ==> final(self).remaining() == old(
                self,
            ).remaining().skip(1),
            old(self).remaining().len() == 0 ==> r is None,
            // once exhausted, a further call wraps around and starts over
            old(self).remaining().len() == 0 ==> final(self).remaining() == Self::all(),
    {
        self.curr = match self.curr {
            None => Some(Direction::PosX),
            Some(Direction::PosX) => Some(Direction::PosY),
            Some(Direction::PosY) => Some(Direction::PosZ),
            Some(Direction::PosZ) => Some(Direction::NegX),
            Some(Direction::NegX) => Some(Direction::NegY),
            Some(Direction::NegY) => Some(Direction::NegZ),
            Some(Direction::NegZ) => None,
        };
        proof {
            if old(self).remaining().len() > 0 {
                assert(self.remaining() =~= old(self).remaining().skip(1));
            }
        }
        self.curr
    }
}

} // verus!
