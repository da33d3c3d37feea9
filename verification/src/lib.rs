//! A checksummed, cross-language model of a component's interface, and the
//! low-level calling convention derived from it.
//!
//! The model is built from the declarations of an interface description
//! ([`syntax`], [`builder`]) or from records of metadata ([`metadata`]). It holds
//! the declarations of six kinds ([`record`], [`enum_`], [`error`], [`function`],
//! [`object`], [`callbacks`]), the registry of their types ([`universe`]), and the
//! low-level functions through which they are reached ([`ffi`]). The symbols of
//! these functions hold a checksum of the high-level content ([`checksum`]), so
//! that native code and bindings made from different versions of an interface
//! fail to link rather than misbehave.
//!
//! Every function is verified against its contract. What holds of every
//! interface is stated in [`laws`], [`invariants`] and [`sensitivity`].

pub mod attributes;
pub mod builder;
pub mod callbacks;
pub mod checksum;
pub mod config;
pub mod declaration;
pub mod enum_;
pub mod error;
pub mod failure;
pub mod ffi;
pub mod files;
pub mod fold;
pub mod function;
pub mod interface;
pub mod invariants;
pub mod laws;
pub mod literal;
pub mod metadata;
pub mod object;
pub mod record;
pub mod scaffolding;
pub mod sensitivity;
pub mod syntax;
pub mod text;
pub mod traversal;
pub mod types;
pub mod universe;

pub use interface::ComponentInterface;
