//! Watches a shadow block-indexing service against a block explorer and the
//! chain itself. Each check is a sequence of rounds; this library decides
//! what a round makes of what was fetched (the alert to send, the error to
//! log, the delay before the next round), and the caller does the fetching,
//! the sending and the waiting.

pub mod alert;
pub mod check_block_hash;
pub mod check_running;
pub mod error;
pub mod hash;
pub mod text;
