use vstd::prelude::*;

pub mod text;
pub mod keys;
pub mod keybindings;
pub mod config;
pub mod sets;
pub mod task;
pub mod task_patch;
pub mod event_log;
pub mod editor;
pub mod task_service;
pub mod visibility;
pub mod task_cache;
pub mod tree_view;
pub mod ui;
pub mod ui_state;
pub mod filter;
pub mod filter_args;
pub mod filter_form;
pub mod display;
pub mod commands;
pub mod mcp;
