//! A bloom filter: a fixed array of bits and a fixed number of seeded hashes,
//! answering "possibly seen" or "definitely not seen" for string items.

pub mod consts;
pub mod error;
pub mod filter;
pub mod index;
pub mod lemmas;
pub mod size;
pub mod store;

pub use crate::error::FilterError;
pub use crate::filter::{FilterState, Zoomies};
pub use crate::index::{hash, modulo, reduce};
pub use crate::size::calculate_required_hash_functions;
