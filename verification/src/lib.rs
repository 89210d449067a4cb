pub mod error;
pub mod manifest;
pub mod text;
pub mod utils;
pub mod provider;
pub mod resolver;
pub mod models;
pub mod storage;
pub mod registry;
pub mod reasoning;
pub mod runtime;
pub mod verification;
pub mod search;
pub mod catalog;
pub mod cli;
pub mod learn;
