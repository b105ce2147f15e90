//! Still-image capture core for a screen-share picker: compositor capability
//! discovery, shared-memory buffer bookkeeping, the per-request capture state
//! machine, output metadata enumeration and the post-capture image pipeline.

pub mod buffer;
pub mod cli;
pub mod config;
pub mod error;
pub mod frame;
pub mod image;
pub mod output;
pub mod registry;
pub mod toplevel;
pub mod util;
