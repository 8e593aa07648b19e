//! Reader and writer for GVAS save files, with a typed view of the track
//! layout (curves) that a railroad save keeps in parallel arrays.

pub mod encoding;
pub mod error;
pub mod wire;
pub mod text;
pub mod seqs;
pub mod value;
pub mod file;
pub mod save;
pub mod roundtrip;

pub use error::GVASError;
