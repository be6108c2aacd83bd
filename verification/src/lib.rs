//! A stand-up bot's core: the daily schedule, the per-member conversation
//! state machine and the routing of inbound messages, stated over
//! mathematical models and proved.

pub mod bot;
pub mod config;
pub mod conversation;
pub mod directory;
pub mod instant;
pub mod post;
pub mod retry;
pub mod router;
pub mod stand_up;
pub mod text;
pub mod utils;
