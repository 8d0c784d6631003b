//! Planning of the stores that Move unit tests run on.
//!
//! A test may ask, with a `#[fork(network = .., version = ..)]` attribute, to run on the state of a
//! network instead of on the genesis state. This crate reads those attributes, decides for each
//! test what its store is made of, keeps what was fetched from a network in a cache of files, and
//! writes the report of what a test has changed. It works on plain values; talking to the
//! compiler, to the network and to the disk is left to its user.

pub mod assoc;
pub mod attribute_laws;
pub mod cache;
pub mod cache_laws;
pub mod factory;
pub mod fork_attributes;
pub mod fork_laws;
pub mod metadata;
pub mod model;
pub mod outside;
pub mod plan_laws;
pub mod report;
pub mod report_laws;
pub mod resolution;
pub mod session;
pub mod store;
pub mod text;
pub mod text_laws;
