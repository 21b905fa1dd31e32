//! Replication: the operation log, the synchronizer that feeds it, the
//! per-replica liveness records, and the heartbeat monitor's state machine.

pub mod log_operator;
pub mod monitor;
pub mod replica_status;
pub mod synchronizer;

pub use log_operator::LogOperator;
pub use log_operator::Operation;
pub use log_operator::OperationKey;
pub use log_operator::OperationKind;
pub use log_operator::OperationValue;
pub use monitor::ReplicaMonitorServer;
pub use replica_status::ReplicaStatus;
pub use synchronizer::MutationEvent;
