//! Toolchain resolution and build-environment composition for
//! cross-compiling Rust libraries to Android with the NDK.
pub mod text;
pub mod target;
pub mod toolchain;
pub mod version;
pub mod discovery;
pub mod environment;
pub mod invocation;
pub mod artifacts;
