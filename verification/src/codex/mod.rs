pub mod classify;
pub mod convert;
pub mod events;
pub mod index;
pub mod laws;
pub mod paths;
pub mod rollout;
pub mod search;
pub mod session_info;
pub mod threads;
pub mod titles;
