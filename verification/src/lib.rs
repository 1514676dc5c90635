//! A codec for the MDR replay format.
pub mod wire;
pub mod error;
pub mod data;
pub mod opt;
pub mod io;
pub mod dec;
pub mod enc;
pub mod laws;
pub mod jumps;
