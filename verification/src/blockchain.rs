pub mod contracts;
pub mod events;
pub mod helpers;
