//! Control logic for the Delta X 2 seeding robot.
//!
//! The library holds the decisions of the robot controller: the pause/abort
//! controls of a seeding job, the reply matching of the serial protocol, the
//! command sequences exchanged with the firmware, and the seeding loop. The
//! program around it performs the I/O those decisions call for.

pub mod control;
pub mod gcode;
pub mod text;
pub mod seeding;
pub mod link;
pub mod link_laws;
pub mod ports;

pub use control::SeedingControl;
pub use gcode::Axis;
pub use seeding::SeedOutcome;
