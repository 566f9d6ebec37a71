//! Core model of an inventory system: a self-describing value model
//! (`Value`, `ValueStore`), a schema registry with a recursive
//! validator, and an append-only stock ledger with adjustment
//! arithmetic.  Storage, blobs and transport stay outside; the
//! library computes, decides and proves.

pub mod builder;
pub mod codec;
pub mod fields;
pub mod laws;
pub mod ledger;
pub mod locations;
pub mod manager;
pub mod params;
pub mod registry;
pub mod schema;
pub mod schema_store;
pub mod store_builder;
pub mod validator;
pub mod value;
pub mod value_store;

pub use fields::{Field, FieldType};
pub use ledger::{Ledger, TransactionType};
pub use manager::SchemaManager;
pub use registry::Registry;
pub use schema::Schema;
pub use value::Value;
pub use value_store::{ValueStore, ValueStoreError};
