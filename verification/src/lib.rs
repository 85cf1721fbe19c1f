//! Verified core of a bounded external-process orchestration and
//! geometry-extraction pipeline, driven by a polling request/response
//! protocol over a shared key-value store.
//!
//! Numeric values that cross the vendor-process boundary are plain decimal
//! text; the library models them with a fixed-point type ([`fixed::Fix`])
//! so that parsing, matrix validation, quaternion extraction and unit
//! conversion are all verified integer arithmetic.

pub mod args;
pub mod config;
pub mod driver;
pub mod exec;
pub mod fixed;
pub mod matrix;
pub mod numfmt;
pub mod numparse;
pub mod parse;
pub mod quat;
pub mod request;
pub mod state;
pub mod transform;
