//! Board routing and IPC decisions for KiCad.
pub mod board;
pub mod board_file;
pub mod clearance;
pub mod commit;
pub mod edits;
pub mod envelope;
pub mod error;
pub mod flows;
pub mod footprint_item;
pub mod gather;
pub mod geometry;
pub mod identity;
pub mod inspect;
pub mod items;
pub mod json;
pub mod layers;
pub mod laws;
pub mod messages;
pub mod mutate;
pub mod requests;
pub mod route_check;
pub mod scalar;
pub mod session;
pub mod step;
pub mod text;
pub mod tools;
pub mod tracks;
pub mod via_check;
pub mod zones;
