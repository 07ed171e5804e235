//! A Slack bot that keeps a shared list of links filed under topics: users
//! add links and pick their topics, register to topics, and are sent the
//! new links of their topics. This library holds the bot's logic: reading
//! commands, choosing replies, building messages and queries, and gathering
//! the links to send per user.
pub mod bot;
pub mod command;
pub mod messages;
pub mod models;
pub mod pattern;
pub mod queries;
pub mod text;
