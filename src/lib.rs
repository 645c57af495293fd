//! Event-plane logic of a per-node network and syscall observability agent,
//! and the ingest rules of the broker that stores what the agents send.
pub mod batch;
pub mod broker;
pub mod correlator;
pub mod dedup;
pub mod events;
pub mod flows;
pub mod http;
pub mod ipv4;
pub mod model;
pub mod pods;
pub mod proto;
pub mod reconcile;
pub mod runtime;
pub mod stamp;
pub mod syscalls;
pub mod text;
