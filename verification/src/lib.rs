pub mod alist;
pub mod api;
pub mod blockchain;
pub mod enums;
pub mod errors;
pub mod event_handler;
pub mod primitives;
pub mod service;
pub mod state;
pub mod transfer;
