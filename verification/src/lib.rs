//! Decision logic of the madrigal fraud-scoring backend: request validation,
//! identity resolution, network risk signals, session bookkeeping and the
//! pattern-promotion rules, each stated by a contract and proved by Verus.

pub mod apikey;
pub mod auth;
pub mod error;
pub mod identity;
pub mod ingest;
pub mod network;
pub mod patterns;
pub mod scoring;
pub mod session;
pub mod text;
