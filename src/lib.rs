//! Deployment tracking: remembers which on-chain deployments belong to which
//! locally built contract artifacts, keyed by deterministic digests of the
//! chain state and of the artifact.
pub mod error;
pub mod keys;
pub mod store;
pub mod tracker;

pub use error::{CliError, CompilerError, ConfigurationError, ErrorCause};
pub use keys::{Address, H256, create_block_hash, create_smart_contract_hash};
pub use store::{InsertionError, SmartContractTrackingData, SmartContractTrackingDataEntry, TrackingData};
pub use tracker::{DeploymentTracker, DeploymentTrackingError};
