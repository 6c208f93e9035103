use mlua::{Lua, Table, Value};
use shaderloom::bundle::{bundle_sources, defines_bootstrap, SourceUnit};
use shaderloom::config::InvocationConfig;
use shaderloom::{LuaExecutor, LuaLoomInterface, RuntimeError, Shaderloom};

const INIT: &str = r#"
local function embedded_searcher(name)
  local key = (string.gsub(name, '%.', '/')) .. '.lua'
  local thunk = _EMBED[key]
  if thunk == nil then
    return '\n\tno embedded unit ' .. key
  end
  return thunk
end
table.insert(package.searchers, 2, embedded_searcher)
BOOTED = (BOOTED or 0) + 1
function _update_config(c) _CONFIG = c end
function _run_module(name, arg) require(name).main(arg) end
function _run_tests(name) require(name).test() end
"#;

const GREET: &str = r#"
local M = {}
LOADS = (LOADS or 0) + 1
function M.main(arg) OUTPUT = (OUTPUT or '') .. 'hello ' .. tostring(arg) .. ';' end
function M.test() assert(#'abc' == 3) end
return M
"#;

const COMMON: &str = r#"
local M = {}
function M.main(arg) COMMON_RAN = true end
return M
"#;

const EXEC_SCRIPT: &str = r#"
local M = {}
function M.main(arg) BUILT = _CONFIG.SCRIPTPATH end
return M
"#;

fn test_bundle() -> String {
    let units = vec![
        SourceUnit::new("_init.lua", INIT.to_string()),
        SourceUnit::new("tools\\greet.lua", GREET.to_string()),
        SourceUnit::new("utils/common.lua", COMMON.to_string()),
        SourceUnit::new("cli/exec_script.lua", EXEC_SCRIPT.to_string()),
    ];
    bundle_sources(&units).unwrap()
}

fn bridge(lua: &Lua) -> Value {
    let t = lua.create_table().unwrap();
    t.set("name", "bridge").unwrap();
    Value::Table(t)
}

fn executor() -> (Lua, LuaExecutor) {
    let lua = Lua::new();
    let b = bridge(&lua);
    let x = LuaExecutor::new(lua.clone(), b, &test_bundle()).unwrap();
    (lua, x)
}

#[test]
fn test_shaderloom_creation() {
    let lua = Lua::new();
    let b = bridge(&lua);
    let _shaderloom = Shaderloom::new(lua, b, &test_bundle()).unwrap();
}

#[test]
fn test_run_module() {
    let lua = Lua::new();
    let b = bridge(&lua);
    let shaderloom = Shaderloom::new(lua.clone(), b, &test_bundle()).unwrap();
    shaderloom
        .run_module("utils.common", None)
        .expect("Failed to run utils.common module");
    assert!(lua.globals().get::<bool>("COMMON_RAN").unwrap());
}

#[test]
fn test_build_wgpu_example() {
    let lua = Lua::new();
    let b = bridge(&lua);
    let mut shaderloom = Shaderloom::new(lua, b, &test_bundle()).unwrap();
    let example_path = "examples/wgpu_bundle/loom.lua";
    if std::path::Path::new(example_path).exists() {
        shaderloom
            .build_from_file(example_path)
            .expect("Failed to build example shader bundle");
    }
}

#[test]
fn bootstrap_runs_once_and_bridge_is_attached() {
    let (lua, x) = executor();
    assert_eq!(lua.globals().get::<i64>("BOOTED").unwrap(), 1);
    let name: String = lua.load("return loom.name").eval().unwrap();
    assert_eq!(name, "bridge");
    assert!(lua.load("return null ~= nil").eval::<bool>().unwrap());
    assert!(x.config().is_none());
    let _ = LuaLoomInterface::new();
}

#[test]
fn identical_instances_give_identical_output() {
    let (lua1, x1) = executor();
    let (lua2, x2) = executor();
    x1.run_module("tools.greet", Some("world".to_string())).unwrap();
    x2.run_module("tools.greet", Some("world".to_string())).unwrap();
    let o1: String = lua1.globals().get("OUTPUT").unwrap();
    let o2: String = lua2.globals().get("OUTPUT").unwrap();
    assert_eq!(o1, "hello world;");
    assert_eq!(o1, o2);
}

#[test]
fn module_body_runs_once_per_instance() {
    let (lua, x) = executor();
    x.run_module("tools.greet", None).unwrap();
    x.run_module("tools.greet", Some("again".to_string())).unwrap();
    assert_eq!(lua.globals().get::<i64>("LOADS").unwrap(), 1);
    assert_eq!(lua.globals().get::<String>("OUTPUT").unwrap(), "hello nil;hello again;");
}

#[test]
fn unknown_module_is_an_error_that_names_it() {
    let (_lua, x) = executor();
    match x.run_module("no.such.module", None) {
        Err(RuntimeError::Module { module, message }) => {
            assert_eq!(module, "no.such.module");
            assert!(message.contains("no.such.module"));
        }
        other => panic!("expected a module error, got {:?}", other),
    }
    match x.run_tests("no.such.module") {
        Err(e) => assert!(e.message().contains("no.such.module")),
        Ok(()) => panic!("expected a module error"),
    }
}

#[test]
fn self_tests_run() {
    let (_lua, x) = executor();
    x.run_tests("tools.greet").unwrap();
}

fn config_field(t: &Table, key: &str) -> Option<String> {
    t.get::<Option<String>>(key).unwrap()
}

#[test]
fn later_config_replaces_earlier() {
    let (lua, mut x) = executor();
    let a = InvocationConfig::from_parts("/a/one.lua", Some("/a".to_string()), Some("/a/one.lua".to_string()), Some("/a".to_string()));
    let b = InvocationConfig::from_parts("two.lua", None, None, None);
    x.update_config(a).unwrap();
    x.update_config(b).unwrap();
    let t: Table = lua.globals().get("_CONFIG").unwrap();
    assert_eq!(config_field(&t, "SCRIPTPATH"), Some("two.lua".to_string()));
    assert_eq!(config_field(&t, "SCRIPTDIR"), None);
    assert_eq!(config_field(&t, "ABSSCRIPTDIR"), None);
    assert_eq!(config_field(&t, "ABSSCRIPTPATH"), None);
    assert_eq!(x.config().as_ref().unwrap().script_path, "two.lua");
}

#[test]
fn build_delivers_config_then_runs_exec_script() {
    let (lua, mut x) = executor();
    x.run_script("shaders/loom.lua").unwrap();
    assert_eq!(lua.globals().get::<String>("BUILT").unwrap(), "shaders/loom.lua");
    let t: Table = lua.globals().get("_CONFIG").unwrap();
    assert_eq!(config_field(&t, "SCRIPTDIR"), Some("shaders".to_string()));
    assert!(config_field(&t, "ABSSCRIPTPATH").unwrap().ends_with("shaders/loom.lua"));
}

#[test]
fn artifact_without_bootstrap_unit_fails_to_load() {
    let text = bundle_sources(&vec![]).unwrap();
    assert!(!defines_bootstrap(&text));
    let text = bundle_sources(&vec![SourceUnit::new("a.lua", "return 1".to_string())]).unwrap();
    assert!(!defines_bootstrap(&text));
}

#[test]
fn bootstrap_that_fails_aborts_loading() {
    let units = vec![SourceUnit::new("_init.lua", "error('boom')".to_string())];
    let text = bundle_sources(&units).unwrap();
    let lua = Lua::new();
    let b = bridge(&lua);
    match LuaExecutor::new(lua, b, &text) {
        Err(RuntimeError::Load { message }) => assert!(message.contains("boom")),
        _ => panic!("expected a load error"),
    }
}

#[test]
fn artifact_with_syntax_error_fails_to_load() {
    let units = vec![SourceUnit::new("_init.lua", "this is not lua".to_string())];
    let text = bundle_sources(&units).unwrap();
    let lua = Lua::new();
    let b = bridge(&lua);
    assert!(matches!(LuaExecutor::new(lua, b, &text), Err(RuntimeError::Load { .. })));
}

#[test]
fn build_with_empty_path_leaves_no_trace_of_earlier_build() {
    let (lua, mut x) = executor();
    x.run_script("a/loom.lua").unwrap();
    x.run_script("").unwrap();
    let t: Table = lua.globals().get("_CONFIG").unwrap();
    assert_eq!(config_field(&t, "SCRIPTPATH"), Some(String::new()));
    assert_eq!(config_field(&t, "SCRIPTDIR"), None);
    assert_eq!(config_field(&t, "ABSSCRIPTDIR"), None);
    assert_eq!(config_field(&t, "ABSSCRIPTPATH"), None);
    assert_eq!(t.pairs::<String, String>().count(), 1);
}
