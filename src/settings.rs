//! Player settings and the world catalogue: plain data read and written by the application.
use vstd::prelude::*;

verus! {

/// Key codes bound to the four lanes and to the two ship moves.
#[derive(Clone, Copy, Debug, PartialEq, Eq, Structural)]
pub struct Controls {
    pub up_arrow: u32,
    pub down_arrow: u32,
    pub left_arrow: u32,
    pub right_arrow: u32,
    pub ship_up: u32,
    pub ship_down: u32,
}

/// A world: its name, difficulty and the names of its levels.
pub struct World {
    pub name: String,
    pub difficulty: String,
    pub levels: Vec<String>,
}

} // verus!
