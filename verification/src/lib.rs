//! A fixed-step collision and impulse kernel for spheres, planes, boxes and rays, and the
//! marble game that it drives.
//!
//! Every quantity is a Q16.16 fixed-point number held in an `i32`, so that each result
//! can be stated exactly over the integers and a tick gives the same state on every
//! machine; only the places where strayed marbles are put back are left to chance.
//!
//! - `fixed` and `vector` hold the arithmetic.
//! - `geom` holds the shapes, the tests between pairs of them and the impulse on a sphere.
//! - `cast` holds the ray casts.
//! - `collision` gathers contacts and resolves them.
//! - `game` and `world` hold the bodies of the marble game and its tick.
//! - `anim`, `sound` and `save_load` hold the animation clock, the sound cues and the
//!   saved record.

pub mod anim;
pub mod cast;
pub mod collision;
pub mod fixed;
pub mod game;
pub mod geom;
pub mod save_load;
pub mod sound;
pub mod vector;
pub mod world;
