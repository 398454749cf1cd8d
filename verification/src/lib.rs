//! Argument construction for a test runner that launches WebAssembly test
//! binaries inside a sandboxed runtime.
//!
//! The runtime only sees the host directories that are declared to it as
//! preopens. This library computes the preopens that lead from the working
//! directory up to the workspace root, rewrites the build's path-valued
//! environment variables relative to the working directory, and assembles
//! the runtime's argument vector.

pub mod text;
pub mod errors;
pub mod paths;
pub mod arguments;
pub mod invocation;
pub mod root;
pub mod launch;
