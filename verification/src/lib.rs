//! Device catalog for a smart-home bridge: classification of composite zone
//! identifiers, per-kind live-state refresh, zone expansion for multi-zone
//! sprinkler hosts, and aggregation of a user's device list.
//!
//! The durable record store and the per-device control planes are injected
//! values (`store::Store`, `controlplane::ControlPlane`), so the resolution
//! and aggregation engine is a total function of its inputs and is verified
//! as such; transport (HTTP, ping) lives outside this crate and hands in
//! plain data.

pub mod alist;
pub mod battery;
pub mod controlplane;
pub mod device;
pub mod ident;
pub mod laws;
pub mod refresh;
pub mod sqlsprinkler;
pub mod store;
pub mod tv;
