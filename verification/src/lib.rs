pub mod text;
pub mod local;
pub mod generation;
pub mod ai;
pub mod providers;
pub mod chat;
pub mod auth;
pub mod package;
pub mod markdown;
