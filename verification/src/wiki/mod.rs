pub mod errors;
pub mod model;
pub mod clean;
pub mod chunking;
pub mod dump;
pub mod server;
pub mod service;
