//! Bouncing boxes on an integer grid.
//!
//! A round is a flat list of coloured squares that drift inside a rectangular
//! area, turn around at its borders, and can be gathered under a pointer or
//! steered towards it. Coordinates and velocities are whole numbers of grid
//! steps; how many steps make one pixel is the host's choice.
//!
//! Every function carries a contract. All of them are proved but those of
//! `chance`, which say what the random number generator is taken to do.

pub mod chance;
pub mod drag;
pub mod model;
pub mod motion;
pub mod roots;
pub mod sim;
pub mod spawn;
pub mod text;

pub use model::{Bounds, BouncePolicy, DragMode, MovingBox, Point, Rgb};
pub use drag::{moves_collect, moves_follow, on_moves};
pub use motion::{advance, advance_box};
pub use sim::{Frame, FrameInput, KeyEvent, RoundRequest, Settings, Simulation};
pub use spawn::{build_square, initialize, rainbow, SpawnError};
pub use text::{parse_count, parse_quantity};
