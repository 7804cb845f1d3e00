//! The record of a saved game, and what a game starts from.

use vstd::prelude::*;
use crate::fixed::{Scalar, ONE};
use crate::vector::{Pos3, Vec3};

verus! {

/// A saved position.
#[derive(Clone, Copy, PartialEq, Eq, Structural, Debug)]
pub struct Location {
    pub x: Scalar,
    pub y: Scalar,
    pub z: Scalar,
}

/// What a save holds: where the player, the button and the wall are.
#[derive(Clone, Copy, PartialEq, Eq, Structural, Debug)]
pub struct SaveFile {
    pub player_location: Location,
    pub button_location: Location,
    pub wall_location: Location,
}

impl Location {
    /// The location of the point `p`.
    pub fn of(p: &Pos3) -> (r: Location)
        ensures
            r == (Location { x: p.x, y: p.y, z: p.z }),
    {
        Location { x: p.x, y: p.y, z: p.z }
    }

    /// The point at this location.
    pub fn position(&self) -> (r: Pos3)
        ensures
            r == (Vec3 { x: self.x, y: self.y, z: self.z }),
    {
        Vec3 { x: self.x, y: self.y, z: self.z }
    }
}

/// Where the player starts when there is no save: three units above the origin.
pub open spec fn default_start() -> Pos3 {
    Vec3 { x: 0, y: 196608, z: 0 }
}

/// Where the player starts: at the saved place, or at the default where no save was read.
pub open spec fn start_of(save: Option<SaveFile>) -> Pos3 {
    match save {
        Some(s) => Vec3 {
            x: s.player_location.x,
            y: s.player_location.y,
            z: s.player_location.z,
        },
        None => default_start(),
    }
}

/// The record that saves the three positions.
pub fn new_save(player_position: Pos3, button_position: Pos3, wall_position: Pos3) -> (r:
    SaveFile)
    ensures
        r == (SaveFile {
            player_location: Location {
                x: player_position.x,
                y: player_position.y,
                z: player_position.z,
            },
            button_location: Location {
                x: button_position.x,
                y: button_position.y,
                z: button_position.z,
            },
            wall_location: Location { x: wall_position.x, y: wall_position.y, z: wall_position.z },
        }),
{
    SaveFile {
        player_location: Location::of(&player_position),
        button_location: Location::of(&button_position),
        wall_location: Location::of(&wall_position),
    }
}

/// Computes `start_of`: a save that could not be read is no save.
pub fn start_position(save: &Option<SaveFile>) -> (r: Pos3)
    ensures
        r == start_of(*save),
{
    match save {
        Some(s) => s.player_location.position(),
        None => Vec3 { x: 0, y: 3 * ONE, z: 0 },
    }
}

} // verus!
