//! Status-message reconciliation engine for a community Discord bot.
//!
//! The library owns the stateful core of the bot: the persisted identity
//! record that maps each monitored target to the message it maintains, the
//! textual codec for that record, the renderer that turns a fetched snapshot
//! (or a fetch failure) into a message payload, and the upsert state machine
//! that decides between creating a new message and editing the recorded one.
//! All network and file I/O lives outside the library and hands it plain
//! values.
use vstd::prelude::*;

pub mod codec;
pub mod record;
pub mod render;
pub mod text;
pub mod upsert;

verus! {

/// Accent color of ordinary branded embeds.
pub const BRAND_COLOR: u32 = 0x2179E3;

/// Color of moderation-related embeds.
pub const WARNING_COLOR: u32 = 0xAC1414;

/// Color of an embed that reports an unavailable source.
pub const ERROR_COLOR: u32 = 0xE32E24;

/// Color of an embed that reports a healthy source.
pub const SUCCESS_COLOR: u32 = 0x31D645;

} // verus!
