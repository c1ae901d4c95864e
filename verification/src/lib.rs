//! Loader for the MNIST-style labeled-image dataset: strict IDX binary
//! parsing, gzip archive extraction, and the mirror-failover download
//! policy, with the decoded images and labels exposed as in-memory values.

#![allow(unused_imports)]

use vstd::prelude::*;

pub mod error;
pub mod gz;
pub mod idx;
pub mod mirror;

pub use error::FormatError;
pub use error::LoadError;
pub use gz::decompress_archive;
pub use idx::Image;
pub use idx::MINIST;
pub use mirror::MirrorStep;
pub use mirror::after_extract;
pub use mirror::after_fetch;
pub use mirror::start_resolve;
