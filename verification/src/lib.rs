//! Ingestion of line-delimited JSON post archives into a graph store:
//! decoding, statistics, batch planning, write scheduling and retry policy.

pub mod app;
pub mod db;
pub mod document;
pub mod instant;
pub mod json;
pub mod retry;
pub mod stats;
pub mod text;
pub mod upsert;
pub mod writer;
