//! A chat-room game bot's rules: Texas hold'em (with six-plus short deck) and
//! werewolf, the cards it renders and the events it reads.

pub mod bot;
pub mod config;
pub mod feishu;
pub mod game;
pub mod llm;
pub mod poker;
pub mod server;
pub mod spelling;
pub mod storage;
pub mod text;
pub mod werewolf;
