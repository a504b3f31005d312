//! A terminal chat client's streaming document engine: fenced code block
//! extraction, a per-message line cache built at a wrap width, a viewport
//! with a cursor and a scroll offset, and a registry that routes streamed
//! text fragments into conversations.

pub mod chat;
pub mod config;
pub mod document;
pub mod fence;
pub mod highlight;
pub mod registry;
pub mod render;
pub mod session;
pub mod text;
pub mod transport;
pub mod viewport;
pub mod wizard;
