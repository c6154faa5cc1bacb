//! Per-tick motion and collision engine of a small arcade shooter, on
//! fixed-point numbers: steering toward the player, forward motion, and the
//! projectile/enemy collision scan, each a total function with a contract.
//!
//! The engine holds no entities and no clock of its own. A host hands it
//! snapshots of the state it needs and applies what comes back. Of the
//! numerical work the host keeps what only floating point offers: the arc
//! cosine behind a measured bearing, and the turn of an orientation by an
//! angle.

pub mod fixed;
pub mod plane;
pub mod direction;
pub mod steering;
pub mod locomotion;
pub mod collision;
pub mod projectile;
pub mod enemy;
pub mod player;
pub mod clock;
