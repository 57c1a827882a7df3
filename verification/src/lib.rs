//! A movie-night chat bot: it watches a chat for `!request` commands, keeps one
//! movie request per chatter, prepares rating polls and talks to OBS, Prowlarr
//! and qBittorrent. This crate holds the bot's verified logic; the network
//! plumbing lives beside it.
pub mod chat;
pub mod text;
pub mod json;
pub mod dinkdonk;
pub mod obs;
pub mod prowlarr;
