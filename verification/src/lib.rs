//! A compact binary record codec: a caller-supplied list of type tags
//! describes the fields of a record, a sequential writer appends them to a
//! growable byte buffer, and random-access readers recover them by index.
//!
//! - `types`: the type tags and their widths.
//! - `encoding`: little-endian integers and the tiered length header.
//! - `layout`: where the fields of a record lie in a run of bytes.
//! - `buffer`, `writer`, `reader`: the buffer and its views.
//! - `record`: records as values, and the round-trip laws.
//! - `raw`: the byte storage, `bytes::BytesMut`, behind trusted contracts.
//! - `metadata`, `schema`, `gen_demo`: schema metadata, the source-code
//!   generator, and a facade as it renders one.

pub mod buffer;
pub mod encoding;
pub mod error;
pub mod gen_demo;
pub mod layout;
pub mod metadata;
pub mod raw;
pub mod reader;
pub mod record;
pub mod schema;
pub mod types;
pub mod writer;
