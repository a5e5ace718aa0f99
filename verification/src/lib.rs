//! The logic of a desktop downloader for Hugging Face repositories: addresses, tasks, transfers,
//! languages, records of interrupted downloads, and the state of the window.

pub mod addresses;
pub mod clicks;
pub mod config;
pub mod display;
pub mod download;
pub mod edit;
pub mod engine;
pub mod format;
pub mod hf_api;
pub mod i18n;
pub mod path;
pub mod places;
pub mod platform;
pub mod repositories;
pub mod runs;
pub mod session;
pub mod shown;
pub mod steps;
pub mod table;
pub mod tasks;
pub mod text;
pub mod transfer;
pub mod ui;
pub mod wire;
