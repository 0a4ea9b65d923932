//! A binary serialization substrate with a registry-driven polymorphic
//! envelope.
//!
//! Values that implement the wire value contract ([`rvtype::RVType`]) encode
//! themselves into a [`writer::Writer`] and decode themselves in place from a
//! [`reader::Reader`], both carrying a fixed [`config::WireConfig`]. A value
//! whose concrete type is not known at the call site travels inside an
//! [`any_object_holder::AnyObjectHolder`]: a self-describing, length-framed
//! record that names its type by a stable identifier, resolved at decode time
//! against a [`registry::Registry`] of registered prototypes.

pub mod any_object_holder;
pub mod bool_type;
pub mod class_version_container;
pub mod config;
pub mod error;
pub mod laws;
pub mod object;
pub mod pid;
pub mod primitives;
pub mod registry;
pub mod reader;
pub mod rv_map;
pub mod rvtype;
pub mod wire_string;
pub mod wirebytes;
pub mod writer;
