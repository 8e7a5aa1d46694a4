//! The start of the ledger accounting service, verified.
//!
//! The service starts in a fixed order and stops at the first thing that is
//! wrong; its gRPC server speaks plain text only in development mode; its traces
//! are exported where an endpoint is named. This crate decides all of that from
//! plain values: the values of environment variables, the outcomes of what was
//! done so far. What is to be done in the outside world, such as reading a file
//! or connecting to the database, it answers with, and its caller does it.
pub mod boot;
pub mod grpc;
pub mod log_filter;
pub mod observability;
pub mod snapshot;
pub mod telemetry;
pub mod text;
pub mod tls;
pub mod tonic_tls;
