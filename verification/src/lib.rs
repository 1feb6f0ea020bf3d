//! Catalog, ranking, recency and navigation engine of a terminal application launcher.

pub mod app;
pub mod catalog;
pub mod config;
pub mod desktop;
pub mod entry;
pub mod icons;
pub mod launch;
pub mod events;
pub mod lists;
pub mod order;
pub mod recent;
pub mod score;
pub mod text;
pub mod ui;
