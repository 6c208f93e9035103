use shaderloom::config::InvocationConfig;
use shaderloom::{pathbuf_to_item, GlobItem};

#[test]
fn bare_file_name_has_no_script_directory() {
    let c = InvocationConfig::for_script("loom.lua");
    assert_eq!(c.script_dir, None);
    assert_eq!(c.script_path, "loom.lua");
    assert!(c.abs_script_path.as_deref().unwrap().ends_with("loom.lua"));
    assert!(c.abs_script_dir.is_some());
}

#[test]
fn nested_script_path_has_its_directory() {
    let c = InvocationConfig::for_script("examples/wgpu_bundle/loom.lua");
    assert_eq!(c.script_dir, Some("examples/wgpu_bundle".to_string()));
    let abs = c.abs_script_path.clone().unwrap();
    assert!(abs.ends_with("examples/wgpu_bundle/loom.lua"));
    assert!(c.abs_script_dir.unwrap().ends_with("examples/wgpu_bundle"));
}

#[test]
fn empty_path_leaves_parts_out() {
    let c = InvocationConfig::for_script("");
    assert_eq!(c.script_dir, None);
    assert_eq!(c.script_path, "");
    assert_eq!(c.abs_script_dir, None);
    assert_eq!(c.abs_script_path, None);
}

#[test]
fn parts_are_taken_as_given() {
    let c = InvocationConfig::from_parts("/x/y.lua", Some("/x".to_string()), Some("/x/y.lua".to_string()), Some("/x".to_string()));
    assert_eq!(c.script_dir, Some("/x".to_string()));
    assert_eq!(c.abs_script_dir, Some("/x".to_string()));
    let c = InvocationConfig::from_parts("y.lua", Some(String::new()), None, Some("/ignored".to_string()));
    assert_eq!(c.script_dir, None);
    assert_eq!(c.abs_script_dir, None);
}

#[test]
fn glob_item_takes_file_name_from_path() {
    let item: GlobItem = pathbuf_to_item("shaders/a.wgsl".to_string(), Some("/p/shaders/a.wgsl".to_string()), true, false);
    assert_eq!(item.path, "shaders/a.wgsl");
    assert_eq!(item.file_name, Some("a.wgsl".to_string()));
    assert_eq!(item.abspath, Some("/p/shaders/a.wgsl".to_string()));
    assert!(item.is_file && !item.is_dir);
    let dir = pathbuf_to_item("..".to_string(), None, false, true);
    assert_eq!(dir.file_name, None);
}

fn pair(k: &str, v: &str) -> (String, String) {
    (k.to_string(), v.to_string())
}

#[test]
fn entries_hold_present_parts_only() {
    let c = InvocationConfig::from_parts("two.lua", None, None, None);
    assert_eq!(c.entries(), vec![pair("SCRIPTPATH", "two.lua")]);
    let c = InvocationConfig::from_parts(
        "a/b.lua",
        Some("a".to_string()),
        Some("/r/a/b.lua".to_string()),
        Some("/r/a".to_string()),
    );
    assert_eq!(
        c.entries(),
        vec![
            pair("SCRIPTDIR", "a"),
            pair("SCRIPTPATH", "a/b.lua"),
            pair("ABSSCRIPTDIR", "/r/a"),
            pair("ABSSCRIPTPATH", "/r/a/b.lua")
        ]
    );
}
