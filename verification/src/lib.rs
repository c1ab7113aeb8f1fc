//! Verified core of a bot brain, an LLM proxy and a wiki ingestion pipeline.
pub mod brain;
pub mod text;
pub mod json;
pub mod proxy;
pub mod wiki;
