//! A set of APIs and utilities used to interact with Google Cloud Platform services.
//!
//! This crate holds the decision logic of the client: status-code sets and retry predicates,
//! retry budgets, PubSub publish batching and acknowledgement batching, Bigtable request
//! builders and row reassembly, and the validation of resource names. The network and
//! process plumbing around it lives in the companion application crate.
pub mod grpc;
pub mod text;
pub mod retry_policy;
pub mod pubsub;
pub mod emulator;
pub mod bigtable;
pub mod storage;
pub mod auth;
pub mod builder;
pub mod generated;
pub mod generators;
