//! Verified core of the Markus local model manager.

pub mod app;
pub mod chat;
pub mod commands;
pub mod config;
pub mod download;
pub mod error;
pub mod events;
pub mod gguf;
pub mod menu;
pub mod meta;
pub mod model;
pub mod models;
pub mod panels;
pub mod pipeline;
pub mod scanner;
pub mod server;
pub mod system;
pub mod text;
pub mod tokenizer;
pub mod transcript;
pub mod units;
pub mod widgets;
