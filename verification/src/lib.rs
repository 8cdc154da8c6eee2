//! Decision core of a small static site generator: which documents are stale,
//! which documents a template change reaches, what a directory scan reports,
//! and what is sent to the live preview clients.

pub mod clock;
pub mod devserver;
pub mod layout;
pub mod metadata;
pub mod orchestrator;
pub mod paths;
pub mod publish;
pub mod render;
pub mod template;
pub mod text;
pub mod tree;
pub mod watcher;
pub mod yaml;
