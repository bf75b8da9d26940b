//! Beehive: the logic of a workspace orchestrator for coding agents, verified.

mod atomics;
pub mod background;
pub mod chrome;
pub mod commands;
pub mod desktop;
pub mod dispatch;
pub mod events;
pub mod finder;
pub mod fuzzy;
pub mod handlers;
pub mod keyboard;
pub mod keymap;
pub mod keys;
pub mod model;
pub mod operations;
pub mod osc52;
pub mod queries;
pub mod pickers;
pub mod rank;
pub mod repo;
pub mod screen;
pub mod settings;
pub mod shell;
pub mod sidebar;
pub mod state;
pub mod terminal;
pub mod text;
pub mod tui;
pub mod update;
