//! Guild-scoped caches, permission checks and command routing for a chat bot.

pub mod cache;
pub mod cli;
pub mod custom_ids;
pub mod decode;
pub mod embeds;
pub mod error;
pub mod moderation;
pub mod permission_commands;
pub mod permissions;
pub mod preview_commands;
pub mod previews;
pub mod router;
pub mod sorted;
pub mod sql;
pub mod strmap;
pub mod tasks;
pub mod text;
pub mod updates;
pub mod utils;
