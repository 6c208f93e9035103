//! The runtime: loads an artifact into a Lua state and runs its modules.
use crate::bundle::{bytes_contain, BOOTSTRAP_ENTRY};
use crate::config::{
    config_entries_of, entry_value, lemma_entries_exact, opt_view, parent_path_of, script_dir_for, InvocationConfig,
    KEY_ABS_SCRIPT_DIR, KEY_ABS_SCRIPT_PATH, KEY_SCRIPT_DIR, KEY_SCRIPT_PATH,
};
use mlua::{Function, Lua, LuaSerdeExt, Table, Value};
use vstd::prelude::*;
use vstd::string::StringSliceAdditionalSpecFns;

verus! {

#[verifier::external_type_specification]
#[verifier::external_body]
pub struct ExLua(Lua);

#[verifier::external_type_specification]
#[verifier::external_body]
pub struct ExTable(Table);

#[verifier::external_type_specification]
#[verifier::external_body]
pub struct ExFunction(Function);

#[verifier::external_type_specification]
#[verifier::external_body]
pub struct ExValue(Value);

#[verifier::external_type_specification]
#[verifier::external_body]
pub struct ExLuaError(mlua::Error);

/// Global under which the native operations are reachable from scripts.
pub const BRIDGE_GLOBAL: &'static str = "loom";

/// Script function that runs a module's entry point.
pub const RUN_MODULE_FN: &'static str = "_run_module";

/// Script function that runs a module's self-tests.
pub const RUN_TESTS_FN: &'static str = "_run_tests";

/// Script function that takes a new invocation context.
pub const UPDATE_CONFIG_FN: &'static str = "_update_config";

/// Module that interprets a build script.
pub const EXEC_SCRIPT_MODULE: &'static str = "cli.exec_script";

/// The native operations that scripts reach under the `loom` global:
/// glob, shader parsing, shader validation and log output.
pub struct LuaLoomInterface {}

impl LuaLoomInterface {
    /// The set of native operations.
    pub fn new() -> (r: LuaLoomInterface) {
        LuaLoomInterface {}
    }
}

/// Relies on mlua's Lua::globals: the table of global variables.
#[verifier::external_body]
fn lua_globals(lua: &Lua) -> Table {
    lua.globals()
}

/// Relies on mlua's Table::set, with a string value.
#[verifier::external_body]
fn table_set_str(t: &Table, key: &str, value: &str) -> Result<(), mlua::Error> {
    t.set(key, value)
}

/// Relies on mlua's Table::set, with a Lua value.
#[verifier::external_body]
fn table_set_value(t: &Table, key: &str, value: Value) -> Result<(), mlua::Error> {
    t.set(key, value)
}

/// Relies on mlua's LuaSerdeExt::null: the value that stands for a structured null.
#[verifier::external_body]
fn lua_null(lua: &Lua) -> Value {
    lua.null()
}

/// Relies on mlua's Chunk::exec: runs `code` as a chunk named `name`.
#[verifier::external_body]
fn lua_exec(lua: &Lua, code: &str, name: &str) -> Result<(), mlua::Error> {
    lua.load(code).set_name(name).exec()
}

/// Relies on mlua's Table::get: the function stored under `key`.
#[verifier::external_body]
fn table_get_function(t: &Table, key: &str) -> Result<Function, mlua::Error> {
    t.get(key)
}

/// Relies on mlua's Function::call, with a module name and an optional argument.
#[verifier::external_body]
fn call_with_module(f: &Function, module: &str, arg: Option<String>) -> Result<(), mlua::Error> {
    f.call::<()>((module, arg))
}

/// Relies on mlua's Function::call, with a table that Lua::create_table_from
/// makes new for the call, holding the given key/value entries and nothing else.
#[verifier::external_body]
fn call_with_entries(lua: &Lua, f: &Function, entries: &Vec<(String, String)>) -> Result<(), mlua::Error> {
    let t = lua.create_table_from(entries.iter().map(|e| (e.0.as_str(), e.1.as_str())))?;
    f.call::<()>(t)
}

/// Relies on the Display impl of mlua's Error: a readable account of the error.
#[verifier::external_body]
fn lua_error_text(e: &mlua::Error) -> String {
    e.to_string()
}

/// A failure of the runtime.
#[derive(Debug)]
pub enum RuntimeError {
    /// The artifact did not run to its end while loading.
    Load { message: String },
    /// A module could not be found or failed while it ran.
    Module { module: String, message: String },
    /// The invocation context could not be delivered.
    Config { message: String },
}

impl RuntimeError {
    /// A readable account of the failure.
    pub fn message(&self) -> (r: String)
        ensures
            self matches RuntimeError::Load { message } ==> r@ == message@,
            self matches RuntimeError::Config { message } ==> r@ == message@,
            self matches RuntimeError::Module { module, message } ==> r@ == "module '"@ + module@ + "': "@ + message@,
    {
        match self {
            RuntimeError::Load { message } => message.clone(),
            RuntimeError::Module { module, message } => {
                let mut s = String::from_str("module '");
                s.append(module.as_str());
                s.append("': ");
                s.append(message.as_str());
                s
            },
            RuntimeError::Config { message } => message.clone(),
        }
    }
}

/// What the script layer was last given as invocation context: delivering
/// a context replaces the one before, whatever it was.
pub open spec fn config_after_delivery(
    before: Option<InvocationConfig>,
    delivered: InvocationConfig,
) -> Option<InvocationConfig> {
    Some(delivered)
}

/// Delivering one context and then another leaves the second, with no
/// trace of the first: under every key the script layer finds the value of
/// `b`'s part, and nothing where `b` has none, whatever `a` held.
pub proof fn lemma_config_replaced(
    start: Option<InvocationConfig>,
    a: InvocationConfig,
    b: InvocationConfig,
    key: Seq<char>,
)
    ensures
        config_after_delivery(config_after_delivery(start, a), b) == Some(b),
        entry_value(config_entries_of(b), KEY_SCRIPT_DIR@) == opt_view(b.script_dir),
        entry_value(config_entries_of(b), KEY_SCRIPT_PATH@) == Some(b.script_path@),
        entry_value(config_entries_of(b), KEY_ABS_SCRIPT_DIR@) == opt_view(b.abs_script_dir),
        entry_value(config_entries_of(b), KEY_ABS_SCRIPT_PATH@) == opt_view(b.abs_script_path),
        key != KEY_SCRIPT_DIR@ && key != KEY_SCRIPT_PATH@ && key != KEY_ABS_SCRIPT_DIR@ && key
            != KEY_ABS_SCRIPT_PATH@ ==> entry_value(config_entries_of(b), key) is None,
{
    lemma_entries_exact(b, key);
}

/// One runtime instance: a Lua state that has run the artifact.
pub struct LuaExecutor {
    lua: Lua,
    config: Option<InvocationConfig>,
}

impl LuaExecutor {
    /// The context last delivered to the script layer.
    pub closed spec fn delivered_config(&self) -> Option<InvocationConfig> {
        self.config
    }

    /// Loads `bundle` into `lua`: attaches `bridge` (the native operations)
    /// and the null marker, then runs the artifact, which registers every
    /// unit and runs the bootstrap unit. The artifact must define the
    /// bootstrap unit (see `defines_bootstrap`); one that does not run to its
    /// end fails.
    pub fn new(lua: Lua, bridge: Value, bundle: &str) -> (r: Result<LuaExecutor, RuntimeError>)
        requires
            bytes_contain(bundle.spec_bytes(), BOOTSTRAP_ENTRY.spec_bytes()),
        ensures
            r matches Ok(x) ==> x.delivered_config() is None,
            r matches Err(e) ==> e is Load,
    {
        let globals = lua_globals(&lua);
        let attached = match table_set_value(&globals, "null", lua_null(&lua)) {
            Ok(()) => match table_set_value(&globals, BRIDGE_GLOBAL, bridge) {
                Ok(()) => table_set_str(&globals, "__raw_embed", bundle),
                Err(e) => Err(e),
            },
            Err(e) => Err(e),
        };
        let loaded = match attached {
            Ok(()) => lua_exec(&lua, bundle, "=<BUNDLE>"),
            Err(e) => Err(e),
        };
        match loaded {
            Ok(()) => Ok(LuaExecutor { lua, config: None }),
            Err(e) => Err(RuntimeError::Load { message: lua_error_text(&e) }),
        }
    }

    /// The context last delivered to the script layer.
    pub fn config(&self) -> (r: &Option<InvocationConfig>)
        ensures
            *r == self.delivered_config(),
    {
        &self.config
    }

    /// Calls the script function `entry` with `module_name` and `arg`; a
    /// failure names the module.
    fn call_entry(&self, entry: &str, module_name: &str, arg: Option<String>) -> (r: Result<(), RuntimeError>)
        ensures
            r matches Err(e) ==> e matches RuntimeError::Module { module, .. } && module@ == module_name@,
    {
        let globals = lua_globals(&self.lua);
        let called = match table_get_function(&globals, entry) {
            Ok(f) => call_with_module(&f, module_name, arg),
            Err(e) => Err(e),
        };
        match called {
            Ok(()) => Ok(()),
            Err(e) => Err(
                RuntimeError::Module { module: String::from_str(module_name), message: lua_error_text(&e) },
            ),
        }
    }

    /// Runs the entry function of the module `module_name` with the optional
    /// argument. A failure, an unknown module among them, names the module.
    pub fn run_module(&self, module_name: &str, arg: Option<String>) -> (r: Result<(), RuntimeError>)
        ensures
            r matches Err(e) ==> e matches RuntimeError::Module { module, .. } && module@ == module_name@,
    {
        self.call_entry(RUN_MODULE_FN, module_name, arg)
    }

    /// Runs the self-tests of the module `module_name`. A failure names the module.
    pub fn run_tests(&self, module_name: &str) -> (r: Result<(), RuntimeError>)
        ensures
            r matches Err(e) ==> e matches RuntimeError::Module { module, .. } && module@ == module_name@,
    {
        self.call_entry(RUN_TESTS_FN, module_name, None)
    }

    /// Delivers `config` to the script layer as one table, new for the call,
    /// that holds its entries (`InvocationConfig::entries`) and nothing else.
    pub fn update_config(&mut self, config: InvocationConfig) -> (r: Result<(), RuntimeError>)
        ensures
            r is Ok ==> final(self).delivered_config() == config_after_delivery(old(self).delivered_config(), config),
            r is Err ==> final(self).delivered_config() == old(self).delivered_config(),
            r matches Err(e) ==> e is Config,
    {
        let entries = config.entries();
        let globals = lua_globals(&self.lua);
        let sent = match table_get_function(&globals, UPDATE_CONFIG_FN) {
            Ok(f) => call_with_entries(&self.lua, &f, &entries),
            Err(e) => Err(e),
        };
        match sent {
            Ok(()) => {
                self.config = Some(config);
                Ok(())
            },
            Err(e) => Err(RuntimeError::Config { message: lua_error_text(&e) }),
        }
    }

    /// Builds from the script at `infile`: delivers its invocation context,
    /// then runs the module that interprets build scripts.
    pub fn run_script(&mut self, infile: &str) -> (r: Result<(), RuntimeError>)
        ensures
            r matches Err(RuntimeError::Config { .. }) ==> final(self).delivered_config() == old(self).delivered_config(),
            r matches Err(RuntimeError::Module { module, .. }) ==> module@ == EXEC_SCRIPT_MODULE@,
            r matches Err(e) ==> !(e is Load),
            !(r matches Err(RuntimeError::Config { .. })) ==> (final(self).delivered_config() matches Some(c)
                && c.script_path@ == infile@ && opt_view(c.script_dir) == script_dir_for(parent_path_of(infile@))
                && (c.abs_script_dir is Some ==> c.abs_script_path is Some)
                && (c.abs_script_path matches Some(a) ==> opt_view(c.abs_script_dir) == parent_path_of(a@))
                && (infile@.len() == 0 ==> c.script_dir is None && c.abs_script_path is None && c.abs_script_dir is None)),
    {
        let config = InvocationConfig::for_script(infile);
        self.update_config(config)?;
        self.run_module(EXEC_SCRIPT_MODULE, None)
    }
}

} // verus!
