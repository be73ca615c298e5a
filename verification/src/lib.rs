//! Profile scraping logic: page parsing, normalization, deduplication and the
//! scrape run's decisions, with their contracts.

pub mod browser;
pub mod config;
pub mod crawler;
pub mod entropy;
pub mod error;
pub mod ids;
pub mod models;
pub mod pipeline;
pub mod storage;
pub mod scrape;
pub mod text;
