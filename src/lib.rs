//! Reports which host capabilities a WebAssembly module expects, by decoding
//! its import section and sorting every import into a fixed taxonomy.

pub mod record;
pub mod text;
pub mod decoder;
pub mod frame;
pub mod classify;
pub mod summary;
pub mod laws;
pub mod wording;
