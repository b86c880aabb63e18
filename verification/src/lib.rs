//! Core library of the Proton Drive desktop client: the rules that the
//! daemon and the desktop front end apply to paths, listings, sizes,
//! sessions and sync bookkeeping, each stated as a contract and proved.

pub mod text;
pub mod size;
pub mod paths;
pub mod daemon;
pub mod gui;
pub mod tray;
pub mod dirs_env;
pub mod config;
pub mod db;
pub mod sync;
pub mod sdk;
pub mod drive;
pub mod json;
pub mod auth;
pub mod path_cache;
