//! A gateway between the WMTS tile protocol and the native tile layout of a
//! Dynmap server.
//!
//! The crate derives tile matrix geometry from a Dynmap configuration,
//! converts WMTS tile addresses into Dynmap tile addresses, and assembles the
//! model of a WMTS capabilities document. Every function carries a contract
//! over a mathematical model of its data.

pub mod capabilities;
pub mod dynmap;
pub mod error;
pub mod geometry;
pub mod media;
pub mod proxy;
pub mod text;
pub mod translate;
