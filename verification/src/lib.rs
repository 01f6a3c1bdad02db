//! Packaging pipeline for WebAssembly plugin artifacts.
//!
//! The library turns a compiled wasm binary into a component that a host
//! runtime can load: it classifies the input as a core module or an
//! already-assembled component, strips stale toolchain metadata sections,
//! audits imports against a trusted-namespace policy, requests injection of a
//! host-compatibility adapter from an external component encoder, and checks
//! that the result exposes the required plugin entrypoints.

pub mod audit;
pub mod builder;
pub mod checker;
pub mod cli;
pub mod common;
pub mod config;
pub mod errors;
pub mod kind;
pub mod packager;
pub mod policy;
pub mod scanner;
pub mod strip;
pub mod templates;
pub mod util;
