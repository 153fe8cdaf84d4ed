//! Startup automation rules for Teamfight Manager 2: settings storage,
//! managed save backups, the settings panel and the per-frame decisions.

pub mod text;
pub mod json;
pub mod settings;
pub mod notice;
pub mod ui_tree;
pub mod panel;
pub mod backups;
pub mod save_backup;
pub mod extension;
