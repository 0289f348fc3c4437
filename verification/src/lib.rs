//! A verified configuration-resolution and translation engine for declaring
//! Spark workloads as high-level resources, together with the reconciliation
//! state machine that drives it.
//!
//! User-facing resources (jobs, scheduled jobs, sessions) carry an embedded
//! Spark specification that may inherit from a named template and may attach
//! shared configuration fragments (S3 connections, catalogs, environment
//! sets), either inlined or by reference.  The library deep-merges the
//! template with the instance specification over a tree-structured
//! intermediate form, accumulates configuration maps with last-writer-wins
//! precedence and dependency lists by order-preserving append, populates the
//! job-type-specific fields of the downstream application specification, and
//! builds the metadata, owner references and recommended labels of every
//! object the operator creates.  The reconciliation and status-propagation
//! decisions are pure functions from observed object state; all I/O stays
//! with the caller.

pub mod conf;
pub mod constants;
pub mod controller;
pub mod crd;
pub mod k8s;
pub mod metadata;
pub mod s3;
pub mod sko_spark_application;
pub mod template;
pub mod spark_application;
pub mod tree;
pub mod utils;
