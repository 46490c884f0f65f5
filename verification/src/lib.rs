pub mod args;
pub mod config;
pub mod chalk;
pub mod help;
pub mod layout;
pub mod modules;
pub mod numtext;
pub mod render;
pub mod stat;
