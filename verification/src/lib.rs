//! Verified core of a Discord bot that saves the roles of members who leave a
//! server and gives them back when they rejoin.

pub mod access;
pub mod decimal;
pub mod guild_config;
pub mod panel;
pub mod rejoin;
pub mod role_codec;
pub mod selection;
pub mod server_state;
pub mod role_filter;
