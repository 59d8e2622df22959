//! Lifecycle of a pgmoneta backup workload on a Kubernetes cluster.
//!
//! One workload instance is made of three resources: a persistent storage
//! claim, the compute workload that mounts it, and the network service in
//! front of the workload. This library describes them, decides in which
//! order they are created and removed, and says how a run ends. It makes no
//! call to the cluster: every decision is a function of what the caller
//! reports back, and its contract says which.
//!
//! - [`kind`]: the three kinds and their order.
//! - [`instance`]: the value that identifies a workload.
//! - [`model`], [`builder`]: the descriptions and how they are built.
//! - [`provision`], [`retire`]: the two runs, step by step.
//! - [`error`]: what the cluster and the file system can answer.
//! - [`manifest`]: the workload as a Kubernetes object and as YAML.
//! - [`handlers`]: the two commands on the stock instance.

pub mod builder;
pub mod error;
pub mod handlers;
pub mod instance;
pub mod kind;
pub mod manifest;
pub mod model;
pub mod provision;
pub mod retire;
