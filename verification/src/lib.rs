//! A message relay's routing core: a registry that binds authenticated
//! identities to live connections, and the per-frame rules that either
//! rebind an identity or forward an addressed envelope to its recipient.

pub mod channel;
pub mod chat;
pub mod frame;
pub mod identity;
pub mod registry;
pub mod router;
pub mod session;
pub mod token;
pub mod wire;

pub use router::{handle_binary_message, handle_text_message};
pub use token::verify_token;
