//! Verified core of a benchmark for a SurrealDB-backed job queue: bucket
//! scheduling for consumers, rendezvous partitioning of buckets among
//! workers, job planning for producers, matrix sweeps, argument checks and
//! the statistics that the reports are made of.

pub mod buckets;
pub mod hashing;
pub mod partition;
pub mod stats;
pub mod consumer;
pub mod config;
pub mod paths;
pub mod matrix;
pub mod text;
pub mod jobs;
pub mod clock;
pub mod summary;
pub mod report;
pub mod queries;
