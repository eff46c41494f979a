//! The verified core of a peer-to-peer chat that keeps one text file in sync between its peers.
//!
//! Peers chat over a gossip topic. Beside that, every connection carries a file-sync stream, on
//! which a peer first sends the whole file and then a patch for each of its edits.

pub mod frame;
pub mod node;
pub mod patch;
pub mod session;
pub mod sync;
pub mod text;
