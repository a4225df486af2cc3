//! Cluster traces: the recorded events of a Kubernetes cluster.

pub mod annotated_laws;
pub mod annotated_trace;
pub mod config;
pub mod decimal;
pub mod event;
pub mod index;
pub mod k8s;
pub mod owner_map;
pub mod snapshot;
pub mod trace;
pub mod trace_laws;
pub mod validator;
