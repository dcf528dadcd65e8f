//! The verified core of a mine-design workbench: its translation catalogue,
//! background tasks, frame pacing, project bookkeeping and status bar.
pub mod app;
pub mod browser;
pub mod config;
pub mod content;
pub mod editor;
pub mod edits;
pub mod effects;
pub mod fingerprint;
pub mod hashing;
pub mod i18n;
pub mod icon;
pub mod items;
pub mod language;
pub mod laws;
pub mod menu;
pub mod model;
pub mod order;
pub mod pacing;
pub mod project;
pub mod saves;
pub mod sets;
pub mod startup;
pub mod status_bar;
pub mod tasks;
pub mod text;
pub mod view;
pub mod view_key;
pub mod window;
