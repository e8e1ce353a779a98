//! Metadata and artifact coordination engine of a model store: wire codings,
//! content-derived identity, mapping of requests to persisted rows, the
//! transactional repository rules, artifact and metric aggregation, and the
//! streamed upload protocol.
pub mod identity;
pub mod wire;
pub mod clock;
pub mod error;
pub mod json;
pub mod entity;
pub mod model_helper;
pub mod repository;
pub mod aggregate;
pub mod upload;
pub mod grpc_server;
pub mod server_config;
pub mod client;
