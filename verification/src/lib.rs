mod bags;
pub mod frontend;
pub mod identities;
pub mod laws;
pub mod player;
mod rng;
pub mod roles;
pub mod state;
