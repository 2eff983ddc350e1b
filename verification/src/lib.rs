pub mod codex;
pub mod json;
pub mod lines;
pub mod models;
pub mod search;
pub mod search_cache;
pub mod sort;
pub mod text;
