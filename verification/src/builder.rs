//! Build strategies, one per source language. The environment checks,
//! compiler invocations and artifact searches are process work done by the
//! caller; the library holds each strategy's configuration.

use vstd::prelude::*;
use crate::config::BuildConfig;

verus! {

/// The Rust build strategy, backed by cargo.
pub struct RustBuilder;

/// The Go build strategy, backed by the TinyGo toolchain.
pub struct GoBuilder;

/// The TypeScript build strategy, driven by the project's own scripts.
pub struct TsBuilder {
    pub build_config: Option<BuildConfig>,
}

impl TsBuilder {
    pub fn new(build_config: Option<BuildConfig>) -> (r: TsBuilder)
        ensures
            r.build_config == build_config,
    {
        TsBuilder { build_config }
    }
}

/// The Python build strategy, backed by componentize-py style tooling.
pub struct PythonBuilder {
    pub build_config: Option<BuildConfig>,
}

impl PythonBuilder {
    pub fn new(build_config: Option<BuildConfig>) -> (r: PythonBuilder)
        ensures
            r.build_config == build_config,
    {
        PythonBuilder { build_config }
    }
}

/// The PHP build strategy, driven by Composer or user scripts.
pub struct PhpBuilder {
    pub build_config: Option<BuildConfig>,
}

impl PhpBuilder {
    pub fn new(build_config: Option<BuildConfig>) -> (r: PhpBuilder)
        ensures
            r.build_config == build_config,
    {
        PhpBuilder { build_config }
    }
}

/// The Lua build strategy: Lua has no standard wasm build flow, so it
/// relies on a user-provided build command.
pub struct LuaBuilder {
    pub build_config: Option<BuildConfig>,
}

impl LuaBuilder {
    pub fn new(build_config: Option<BuildConfig>) -> (r: LuaBuilder)
        ensures
            r.build_config == build_config,
    {
        LuaBuilder { build_config }
    }
}

} // verus!
