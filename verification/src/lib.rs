//! Control-plane logic for supervising a proxy engine: configuration
//! composition, scheduling, selection memory and the decisions behind the
//! engine's lifecycle.

pub mod api;
pub mod app;
pub mod auth;
pub mod compose;
pub mod config;
pub mod cron;
pub mod engine;
pub mod events;
pub mod http;
pub mod lifecycle;
pub mod logs;
pub mod mihomo;
pub mod paths;
pub mod scheduler;
pub mod selection;
pub mod subscriptions;
pub mod text;
pub mod user_profiles;
pub mod ws;
pub mod yaml;
pub mod yaml_text;
