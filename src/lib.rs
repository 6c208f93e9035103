//! An embedded script runtime for shader pipelines: a bundler that packs a
//! tree of Lua sources into one artifact, a loader and orchestrator that run
//! it, and the native shader and glob helpers that scripts call.
pub mod bundle;
pub mod config;
pub mod globutils;
pub mod luaexec;
pub mod shader;

pub use globutils::{pathbuf_to_item, GlobItem};
pub use luaexec::{LuaExecutor, LuaLoomInterface, RuntimeError};
pub use shader::{parse_and_validate_wgsl, parse_wgsl, LuaWGSLModule};

use bundle::{bytes_contain, BOOTSTRAP_ENTRY};
use config::{opt_view, parent_path_of, script_dir_for};
use luaexec::EXEC_SCRIPT_MODULE;
use mlua::{Lua, Value};
use vstd::prelude::*;
use vstd::string::StringSliceAdditionalSpecFns;

verus! {

/// The shader preprocessor: one runtime instance with the two ways to
/// invoke it, building from a script and running a single module.
pub struct Shaderloom {
    executor: LuaExecutor,
}

impl Shaderloom {
    /// The runtime instance underneath.
    pub closed spec fn runtime(&self) -> LuaExecutor {
        self.executor
    }

    /// A preprocessor whose runtime has loaded `bundle` into `lua`, with
    /// `bridge` attached as the native operations. The artifact must define
    /// the bootstrap unit.
    pub fn new(lua: Lua, bridge: Value, bundle: &str) -> (r: Result<Shaderloom, RuntimeError>)
        requires
            bytes_contain(bundle.spec_bytes(), BOOTSTRAP_ENTRY.spec_bytes()),
        ensures
            r matches Ok(s) ==> s.runtime().delivered_config() is None,
            r matches Err(e) ==> e is Load,
    {
        match LuaExecutor::new(lua, bridge, bundle) {
            Ok(executor) => Ok(Shaderloom { executor }),
            Err(e) => Err(e),
        }
    }

    /// Builds from the script at `path`: its invocation context goes to the
    /// script layer, which then interprets the script.
    pub fn build_from_file(&mut self, path: &str) -> (r: Result<(), RuntimeError>)
        ensures
            r matches Err(RuntimeError::Module { module, .. }) ==> module@ == EXEC_SCRIPT_MODULE@,
            r matches Err(e) ==> !(e is Load),
            r matches Err(RuntimeError::Config { .. }) ==> final(self).runtime().delivered_config() == old(self).runtime().delivered_config(),
            !(r matches Err(RuntimeError::Config { .. })) ==> (final(self).runtime().delivered_config() matches Some(c)
                && c.script_path@ == path@ && opt_view(c.script_dir) == script_dir_for(parent_path_of(path@))
                && (c.abs_script_dir is Some ==> c.abs_script_path is Some)
                && (c.abs_script_path matches Some(a) ==> opt_view(c.abs_script_dir) == parent_path_of(a@))
                && (path@.len() == 0 ==> c.script_dir is None && c.abs_script_path is None && c.abs_script_dir is None)),
    {
        self.executor.run_script(path)
    }

    /// Runs the module `module` with the optional argument; a failure names the module.
    pub fn run_module(&self, module: &str, arg: Option<String>) -> (r: Result<(), RuntimeError>)
        ensures
            r matches Err(e) ==> e matches RuntimeError::Module { module: m, .. } && m@ == module@,
    {
        self.executor.run_module(module, arg)
    }

    /// The runtime instance underneath.
    pub fn executor(&self) -> (r: &LuaExecutor)
        ensures
            *r == self.runtime(),
    {
        &self.executor
    }
}

} // verus!
