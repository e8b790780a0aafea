//! localcode — the verified core of a local, on-device coding agent.

pub mod text;
pub mod edit;
pub mod paths;
pub mod json;
pub mod engine;
pub mod toolcall;
pub mod config;
pub mod permissions;
pub mod tools;
pub mod agent;
pub mod loop_laws;
pub mod stream;
pub mod ui;
pub mod architect;
pub mod commands;
pub mod pattern;
pub mod server_install;
pub mod sandbox;
pub mod llama_server;
pub mod tui;
pub mod hardware;
pub mod session;
pub mod eval;
pub mod download;
pub mod tool_results;
pub mod web;
pub mod diff;
pub mod cli;
