//! A deterministic, gas-metered message-execution engine.
//!
//! The crate applies a message to a versioned state tree of actors: it
//! validates the sender's nonce and funds, prepays gas, opens the root call,
//! lets the invoked actor perform nested, depth-bounded sends, and commits or
//! rolls back state atomically per call before settling fees and producing a
//! receipt.

pub mod codec;
pub mod errors;
pub mod executor;
pub mod gas;
pub mod kernel;
pub mod registry;
pub mod state_tree;
