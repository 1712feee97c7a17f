//! An access-controlled store of medical records.
//!
//! Patients create records, grant and revoke read access for providers, and
//! list the records they own or have been given access to. Every operation
//! names the caller explicitly; the store itself holds no ambient state.

pub mod identity;
pub mod laws;
pub mod record;
pub mod seq_facts;
pub mod store;
pub mod table;
pub mod text;

pub use identity::Identity;
pub use record::{AccessChange, MedicalRecord, RecordInput};
pub use store::RecordStore;
pub use text::greet;
