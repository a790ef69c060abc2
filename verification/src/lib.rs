//! Client-side synchronization core for a clipboard-history backend process.
//!
//! The backend is a separate long-lived process spoken to over a line-oriented
//! text protocol: plain-text commands go out on its input stream, JSON
//! messages come back on its output stream. This crate holds the verified
//! core of that client: the protocol model and its decoder, the outbound
//! command encoding, a FIFO model of the command channel, the state
//! reconciler that merges authoritative snapshots with optimistic local
//! edits, and the navigation cursor over the filtered view.
//!
//! Process spawning, stream pumping and rendering are left to the embedding
//! application; everything here is pure logic over plain values.
pub mod channel;
pub mod commands;
pub mod decode;
pub mod model;
pub mod state;
pub mod supervisor;
pub mod text;
