//! Address autocomplete: an in-memory index of address texts, partitioned by
//! municipality, with case-insensitive prefix queries.
//!
//! [`loader::load_csv_data`] builds an [`Index`] from the bytes of a
//! gzip-compressed, comma-separated dataset; [`Index::query`] answers a
//! prefix query against it.

pub mod dataset;
pub mod error;
pub mod gzip;
pub mod index;
pub mod loader;
pub mod number;
pub mod table;
pub mod text;

pub use crate::dataset::AddressRecord;
pub use crate::error::DataLoadError;
pub use crate::index::{autocomplete, Index, RESULT_LIMIT};
pub use crate::loader::load_csv_data;
