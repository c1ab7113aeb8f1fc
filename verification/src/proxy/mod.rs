pub mod request_log;
pub mod metrics;
pub mod sse;
pub mod merge;
pub mod stream;
pub mod handler;
pub mod synthesis;
pub mod context;
pub mod roundtrip;
