//! Networking core of the build engine: a length-prefixed binary wire protocol
//! with a magic-number framing guard, a bounded connection table keyed by
//! reusable handles, a version/policy handshake run on every new connection,
//! and the single-threaded reactor state machine that ties them together.
//!
//! All socket and thread handling lives outside this crate; the types here
//! work on plain values (bytes in, directives out), so every decision the
//! protocol makes is stated in a contract and proved.

pub mod net;
pub mod test_util;
