//! Fleet inventory, job placement and heartbeat reconciliation for clusters
//! of CPU/GPU compute nodes.
pub mod aggregate;
pub mod fleet;
pub mod instance_pool;
pub mod job;
pub mod keyed;
pub mod laws;
pub mod node;
pub mod reconciler;
pub mod resources;
pub mod scheduler;
