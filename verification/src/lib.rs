//! An owner-authorized record store.
//!
//! Records are created under ids that count up from one, can be read by
//! anybody, and can be changed or deleted only by the identity that created
//! them. The store keeps its state in a keyed [`Storage`]; the host proves
//! identities and tells the time.

pub mod contract;
pub mod identity;
pub mod laws;
pub mod model;
pub mod record;
mod seq_facts;
pub mod storage;

pub use contract::{CrudRecordsContract, Unauthorized};
pub use identity::Identity;
pub use record::{Record, RecordView};
pub use storage::{DataKey, Storage, StorageView};
