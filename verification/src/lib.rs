//! Clipboard capture pipeline: text normalisation, a write-behind cache and a
//! bounded display history that share one placement rule for snippets.

pub mod binding;
pub mod cache;
pub mod config;
pub mod history;
pub mod paragraph;
pub mod regex;
pub mod session;
pub mod text;
pub mod transform;
pub mod watcher;
