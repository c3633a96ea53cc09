//! The four lanes, their numeric codes, and the movement graph between them.
use vstd::prelude::*;

verus! {

/// One of the four input channels that notes travel toward.
#[derive(Clone, Copy, Debug, PartialEq, Eq, Structural)]
pub enum Lane {
    Up,
    Down,
    Left,
    Right,
}

/// The lane that a numeric code names in song data: 1 is Right, 2 Left, 3 Up, 4 Down.
pub open spec fn lane_of_code(code: int) -> Option<Lane> {
    if code == 1 {
        Some(Lane::Right)
    } else if code == 2 {
        Some(Lane::Left)
    } else if code == 3 {
        Some(Lane::Up)
    } else if code == 4 {
        Some(Lane::Down)
    } else {
        None
    }
}

/// Where one move from `lane` leads, going up (`up`) or down; `None` where no edge leaves.
pub open spec fn move_of(lane: Lane, up: bool) -> Option<Lane> {
    if up {
        match lane {
            Lane::Right => Some(Lane::Up),
            Lane::Up => Some(Lane::Left),
            Lane::Down => Some(Lane::Right),
            Lane::Left => None,
        }
    } else {
        match lane {
            Lane::Right => Some(Lane::Down),
            Lane::Left => Some(Lane::Up),
            Lane::Up => Some(Lane::Right),
            Lane::Down => None,
        }
    }
}

impl Lane {
    /// Reads a lane code (already floored from its numeric field).
    pub fn from_code(code: i64) -> (r: Option<Lane>)
        ensures
            r == lane_of_code(code as int),
    {
        if code == 1 {
            Some(Lane::Right)
        } else if code == 2 {
            Some(Lane::Left)
        } else if code == 3 {
            Some(Lane::Up)
        } else if code == 4 {
            Some(Lane::Down)
        } else {
            None
        }
    }

    /// The numeric code of the lane.
    pub fn code(self) -> (r: i64)
        ensures
            lane_of_code(r as int) == Some(self),
            1 <= r <= 4,
    {
        match self {
            Lane::Right => 1,
            Lane::Left => 2,
            Lane::Up => 3,
            Lane::Down => 4,
        }
    }
}

/// One step along the lane graph: up goes Right to Up to Left and Down to Right;
/// down goes Right to Down, Left to Up and Up to Right.
pub fn can_move(current: Lane, up: bool) -> (r: Option<Lane>)
    ensures
        r == move_of(current, up),
{
    if up {
        match current {
            Lane::Right => Some(Lane::Up),
            Lane::Up => Some(Lane::Left),
            Lane::Down => Some(Lane::Right),
            Lane::Left => None,
        }
    } else {
        match current {
            Lane::Right => Some(Lane::Down),
            Lane::Left => Some(Lane::Up),
            Lane::Up => Some(Lane::Right),
            Lane::Down => None,
        }
    }
}

/// Where the ship's target lane goes when the move-up input (`up`) and then the move-down
/// input (`down`) are applied; a move with no edge leaves the lane as it is.
pub open spec fn steer_of(lane: Lane, up: bool, down: bool) -> Lane {
    let a = if up {
        match move_of(lane, true) {
            Some(l) => l,
            None => lane,
        }
    } else {
        lane
    };
    if down {
        match move_of(a, false) {
            Some(l) => l,
            None => a,
        }
    } else {
        a
    }
}

/// Applies the frame's move-up and move-down inputs to the ship's target lane.
pub fn steer(lane: Lane, up: bool, down: bool) -> (r: Lane)
    ensures
        r == steer_of(lane, up, down),
{
    let mut a = lane;
    if up {
        if let Some(l) = can_move(a, true) {
            a = l;
        }
    }
    if down {
        if let Some(l) = can_move(a, false) {
            a = l;
        }
    }
    a
}

/// A set of lanes: the inputs pressed or held in one frame.
#[derive(Clone, Copy, Debug, PartialEq, Eq, Structural)]
pub struct LaneSet {
    pub up: bool,
    pub down: bool,
    pub left: bool,
    pub right: bool,
}

impl LaneSet {
    pub open spec fn has(self, lane: Lane) -> bool {
        match lane {
            Lane::Up => self.up,
            Lane::Down => self.down,
            Lane::Left => self.left,
            Lane::Right => self.right,
        }
    }

    pub open spec fn with(self, lane: Lane) -> LaneSet {
        match lane {
            Lane::Up => LaneSet { up: true, ..self },
            Lane::Down => LaneSet { down: true, ..self },
            Lane::Left => LaneSet { left: true, ..self },
            Lane::Right => LaneSet { right: true, ..self },
        }
    }

    /// The empty set.
    pub fn none() -> (r: LaneSet)
        ensures
            r == (LaneSet { up: false, down: false, left: false, right: false }),
            forall|l: Lane| !r.has(l),
    {
        LaneSet { up: false, down: false, left: false, right: false }
    }

    /// Whether `lane` is in the set.
    pub fn contains(&self, lane: Lane) -> (r: bool)
        ensures
            r == self.has(lane),
    {
        match lane {
            Lane::Up => self.up,
            Lane::Down => self.down,
            Lane::Left => self.left,
            Lane::Right => self.right,
        }
    }

    /// Adds `lane` to the set.
    pub fn insert(&mut self, lane: Lane)
        ensures
            *final(self) == old(self).with(lane),
    {
        match lane {
            Lane::Up => self.up = true,
            Lane::Down => self.down = true,
            Lane::Left => self.left = true,
            Lane::Right => self.right = true,
        }
    }
}

} // verus!
