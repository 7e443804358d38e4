pub mod cache;
pub mod cli;
pub mod config;
pub mod frecency;
pub mod link;
pub mod login;
pub mod menu;
pub mod parse;
pub mod rofi;
pub mod telegram;
pub mod text;
