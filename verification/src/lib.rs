//! A bidirectional chat-network bridge core: channel-mapping lookup, message
//! filtering, mention and formatting translation, and the per-event relay
//! decisions for both directions.

pub mod attach;
pub mod color;
pub mod filter;
pub mod lines;
pub mod mapping;
pub mod mentions;
pub mod relay;
pub mod strip;
pub mod text;
