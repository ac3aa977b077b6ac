pub mod phase;
pub mod sine;
