//! What the operations are for, told by what goes in and what comes out.
//!
//! Each law speaks of messages, requests and board files as they are given, and of what an
//! operation makes of them.

pub mod areas;
pub mod asking;
pub mod calls;
pub mod copper;
pub mod demands;
pub mod failing;
pub mod files;
pub mod listing;
pub mod looking;
pub mod numbers;
pub mod offering;
pub mod placing;
pub mod route;
pub mod stack;
pub mod talking;
pub mod via;
pub mod views;
pub mod wiring;
