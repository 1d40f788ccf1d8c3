pub mod chain;
pub mod state;
pub mod state_change;
