//! Flattens arbitrary structured records into (path, value) field lists,
//! fingerprints each record's shape, derives a per-shape storage schema, and
//! merges scored search hits from many per-shape indexes into one bounded,
//! deterministically ordered result list.

pub mod collector;
pub mod doc;
pub mod engine;
pub mod error;
pub mod fingerprint;
pub mod flatten;
pub mod indexer;
pub mod path;
pub mod render;
pub mod schema;
pub mod search;
pub mod store;
pub mod value;

pub use collector::Hit;
pub use collector::MultiIndexCollector;
pub use doc::Doc;
pub use doc::IndexableDoc;
pub use error::Error;
pub use flatten::FieldCollector;
pub use flatten::Key;
pub use flatten::Node;
pub use indexer::Indexer;
pub use path::FieldPath;
pub use schema::FieldSchema;
pub use store::Store;
pub use value::Ty;
pub use value::Value;
pub use value::ValueV;
