//! Command line front end of a coding agent.
pub mod actions;
pub mod args;
pub mod background;
pub mod bytes;
pub mod choices;
pub mod chrome;
pub mod commands;
pub mod completion;
pub mod config;
pub mod dialogs;
pub mod diff;
pub mod editing;
pub mod frame;
pub mod help;
pub mod json;
pub mod keybindings;
pub mod keys;
pub mod live;
pub mod markdown;
pub mod models;
pub mod numbers;
pub mod offers;
pub mod opening;
pub mod overlay;
pub mod panels;
pub mod paths;
pub mod pieces;
pub mod plugins;
pub mod resources;
pub mod run;
pub mod scoped;
pub mod screen;
pub mod session;
pub mod sessions;
pub mod settings;
pub mod startup;
pub mod submit;
pub mod summary;
pub mod text;
pub mod tools;
pub mod transcript;
pub mod tree;
pub mod wrap;
