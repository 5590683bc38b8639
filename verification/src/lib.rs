//! A data enveloping convention.
//!
//! A [`Packet`] pairs application content with a [`Manifest`]: the domain, scope, kind and
//! version of the content's schema, where and when the content was produced, and free-form
//! labels. A [`Header`] is the manifest alone, for handlers that must look at the manifest
//! before they know what the content is.
//!
//! Whatever is written as a packet can be read as a header. A handler reads a message as a
//! header, picks the type of the content by the manifest, and then either reads the message
//! again as a packet of that type, or reads the content by itself and puts it together with
//! the header by [`Packet::from_obj`].
//!
//! The types are written as, and read from, structured data: a [`Value`] is what a codec for
//! JSON, YAML or another format reads a blob into and writes a blob from. [`Wire`] is the
//! contract between a type and its structured form, and the module [`laws`] states what holds
//! of the forms of manifests, headers and packets.

pub mod datetime;
pub mod error;
pub mod header;
pub mod labels;
pub mod laws;
pub mod manifest;
pub mod packet;
pub mod value;
pub mod wire;

pub use datetime::DateTime;
pub use error::DecodeError;
pub use header::Header;
pub use labels::Labels;
pub use manifest::Manifest;
pub use packet::Packet;
pub use value::{Lookup, Value};
pub use wire::Wire;
