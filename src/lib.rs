pub mod answer;
pub mod commands;
pub mod correlation;
pub mod logger;
pub mod outside;
pub mod query;
pub mod server;
pub mod text;
pub mod types;
pub mod waiter;
