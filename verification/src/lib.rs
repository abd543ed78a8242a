//! Planning core for a grid-world colony simulation: terrain knowledge
//! aggregation, breadth-first pathfinding, wall-following exploration, and a
//! miner task state machine, together with the message protocol that carries
//! planning commands to a background worker and results back.

pub mod channel;
pub mod explorer;
pub mod grid;
pub mod knowledge;
pub mod miner;
pub mod pathfinding;
pub mod splash;
pub mod terrain;
pub mod ui;
pub mod worker;

pub use grid::GridPos;
pub use knowledge::WorldKnowledge;
