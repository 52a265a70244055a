//! Verified core of a label-driven cloud log tailer.
//!
//! The crate re-renders structured log records for a dynamically changing set
//! of virtual-machine instances.  It covers the pure heart of that pipeline:
//! turning an inventory listing into a boolean-OR filter expression
//! (`resolver`), reassembling sentinel-delimited record blocks from a
//! line-oriented byte stream (`reassembler`), rendering decoded entries in one
//! of three output styles (`render`), the drift-detection state machine that
//! decides when a live stream must be restarted (`watch`), and the error
//! taxonomy of a run (`fault`).  Subprocess plumbing, asynchronous I/O and
//! structured-document decoding live outside the verified library.

pub mod bytes;
pub mod fault;
pub mod reassembler;
pub mod render;
pub mod resolver;
pub mod watch;
