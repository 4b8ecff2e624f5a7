use vulkan_object::loader::{FieldProblem, LoadError};
use vulkan_object::vulkan_object::{CommandScope, ConstantValue, ExternSync};
use vulkan_object::{load_vulkan_object, load_vulkan_object_from_json_str};

fn extension(name: &str, instance: bool, device: bool) -> String {
    format!(
        r#""{name}": {{"name": "{name}", "nameString": "N", "specVersion": "S",
            "instance": {instance}, "device": {device}, "provisional": false,
            "specialUse": [], "featureRequirement": [], "ratified": true}}"#
    )
}

fn handle(name: &str, parent: &str, extensions: &str) -> String {
    format!(
        r#""{name}": {{"name": "{name}", "aliases": [], "type": "T", "parent": {parent},
            "instance": true, "device": false, "dispatchable": false,
            "extensions": [{extensions}]}}"#
    )
}

fn parent(name: &str) -> String {
    format!(
        r#"{{"name": "{name}", "aliases": [], "type": "T", "parent": null,
            "instance": true, "device": false, "dispatchable": true, "extensions": []}}"#
    )
}

fn constant(name: &str, value: &str) -> String {
    format!(
        r#""{name}": {{"name": "{name}", "type": "uint32_t", "value": {value}, "valueStr": "{value}"}}"#
    )
}

fn document(extensions: &str, handles: &str, structs: &str, constants: &str) -> String {
    format!(
        r#"{{"headerVersion": "1", "headerVersionComplete": "1.0.1",
            "extensions": {{{extensions}}}, "versions": {{}}, "handles": {{{handles}}},
            "commands": {{}}, "structs": {{{structs}}}, "enums": {{}}, "bitmasks": {{}},
            "flags": {{}}, "constants": {{{constants}}}, "formats": {{}},
            "syncStage": [], "syncAccess": [], "syncPipeline": [], "spirv": [],
            "platforms": {{}}, "vendorTags": [], "videoCodecs": {{}}, "videoStd": null}}"#
    )
}

#[test]
fn test_load_vulkan_object() {
    let vo = load_vulkan_object().unwrap();
    assert!(!vo.commands.is_empty());
}

#[test]
fn bundled_document_is_indexed() {
    let vo = load_vulkan_object().unwrap();
    let surface = vo.get_extension(&"VK_KHR_surface".to_string()).unwrap();
    assert_eq!(surface.handles, vec!["VkSurfaceKHR".to_string()]);
    assert_eq!(surface.commands, vec!["vkDestroySurfaceKHR".to_string()]);
    let cmd = vo.get_command(&"vkDestroySurfaceKHR".to_string()).unwrap();
    assert_eq!(cmd.params.len(), 2);
    assert_eq!(cmd.params[0].extern_sync, ExternSync::Never);
    assert_eq!(cmd.params[1].extern_sync, ExternSync::Always);
    assert_eq!(cmd.render_pass, CommandScope::Neither);
    assert_eq!(vo.platforms, vec![("xlib".to_string(), "VK_USE_PLATFORM_XLIB_KHR".to_string())]);
}

#[test]
fn surface_extension_lists_its_handle() {
    let text = document(
        &extension("VK_KHR_surface", true, false),
        &handle("VkSurfaceKHR", "null", r#""VK_KHR_surface""#),
        "",
        "",
    );
    let vo = load_vulkan_object_from_json_str(&text).unwrap();
    let ext = vo.get_extension(&"VK_KHR_surface".to_string()).unwrap();
    assert_eq!(ext.handles, vec!["VkSurfaceKHR".to_string()]);
    assert!(ext.commands.is_empty());
    let h = vo.get_handle(&"VkSurfaceKHR".to_string()).unwrap();
    assert!(h.instance);
    assert!(!h.device);
}

#[test]
fn reverse_index_follows_every_enabling_extension() {
    let exts = format!("{}, {}", extension("VK_A", false, true), extension("VK_B", false, true));
    let handles = format!(
        "{}, {}",
        handle("H1", "null", r#""VK_A", "VK_B""#),
        handle("H2", "null", r#""VK_B""#)
    );
    let vo = load_vulkan_object_from_json_str(&document(&exts, &handles, "", "")).unwrap();
    let a = vo.get_extension(&"VK_A".to_string()).unwrap();
    let b = vo.get_extension(&"VK_B".to_string()).unwrap();
    assert_eq!(a.handles, vec!["H1".to_string()]);
    assert_eq!(b.handles, vec!["H1".to_string(), "H2".to_string()]);
}

#[test]
fn dangling_extension_fails_to_load() {
    let text = document(
        &extension("VK_KHR_surface", true, false),
        &handle("VkSurfaceKHR", "null", r#""VK_KHR_swapchain""#),
        "",
        "",
    );
    match load_vulkan_object_from_json_str(&text) {
        Err(LoadError::DanglingExtension { entity, extension }) => {
            assert_eq!(entity, "VkSurfaceKHR");
            assert_eq!(extension, "VK_KHR_swapchain");
        }
        other => panic!("unexpected {:?}", other.map(|_| ())),
    }
}

#[test]
fn mutual_parents_fail_with_cycle() {
    let handles = format!("{}, {}", handle("A", &parent("B"), ""), handle("B", &parent("A"), ""));
    match load_vulkan_object_from_json_str(&document("", &handles, "", "")) {
        Err(LoadError::HandleCycle { handle }) => assert_eq!(handle, "A"),
        other => panic!("unexpected {:?}", other.map(|_| ())),
    }
}

#[test]
fn parent_chain_without_cycle_loads() {
    let handles = format!("{}, {}", handle("A", "null", ""), handle("B", &parent("A"), ""));
    let vo = load_vulkan_object_from_json_str(&document("", &handles, "", "")).unwrap();
    let b = vo.get_handle(&"B".to_string()).unwrap();
    assert_eq!(b.parent.as_ref().unwrap().name, "A");
}

#[test]
fn constant_with_decimal_point_is_float() {
    let consts = format!("{}, {}", constant("C_FLOAT", "1000.0"), constant("C_INT", "256"));
    let vo = load_vulkan_object_from_json_str(&document("", "", "", &consts)).unwrap();
    let f = vo.get_constant(&"C_FLOAT".to_string()).unwrap();
    let i = vo.get_constant(&"C_INT".to_string()).unwrap();
    match &f.value {
        ConstantValue::Float(text) => assert_eq!(text.parse::<f64>().unwrap(), 1000.0),
        other => panic!("unexpected {:?}", other),
    }
    match &i.value {
        ConstantValue::Int(n) => assert_eq!(*n, 256),
        other => panic!("unexpected {:?}", other),
    }
}

#[test]
fn constant_with_exponent_is_float() {
    let consts = constant("C_EXP", "1e3");
    let vo = load_vulkan_object_from_json_str(&document("", "", "", &consts)).unwrap();
    let c = vo.get_constant(&"C_EXP".to_string()).unwrap();
    assert!(matches!(c.value, ConstantValue::Float(_)));
}

#[test]
fn syntax_error_is_reported() {
    assert!(matches!(load_vulkan_object_from_json_str("{"), Err(LoadError::Syntax(_))));
}

#[test]
fn missing_field_names_its_path() {
    let text = document(
        r#""VK_X": {"name": "VK_X", "nameString": "N", "specVersion": "S", "instance": true}"#,
        "",
        "",
        "",
    );
    match load_vulkan_object_from_json_str(&text) {
        Err(LoadError::Field { path, problem }) => {
            assert_eq!(path, vec!["extensions", "VK_X", "device"]);
            assert_eq!(problem, FieldProblem::Missing);
        }
        other => panic!("unexpected {:?}", other.map(|_| ())),
    }
}

#[test]
fn wrong_type_is_reported() {
    let text = document("", "", "", r#""C": {"name": "C", "type": "t", "value": "x", "valueStr": "x"}"#);
    match load_vulkan_object_from_json_str(&text) {
        Err(LoadError::Field { path, problem }) => {
            assert_eq!(path, vec!["constants", "C", "value"]);
            assert_eq!(problem, FieldProblem::WrongType);
        }
        other => panic!("unexpected {:?}", other.map(|_| ())),
    }
}

#[test]
fn unknown_fields_are_ignored() {
    let text = document(
        &extension("VK_KHR_surface", true, false),
        &handle("VkSurfaceKHR", "null", r#""VK_KHR_surface""#).replace(r#""type": "T""#, r#""type": "T", "future": [1, 2]"#),
        "",
        "",
    );
    assert!(load_vulkan_object_from_json_str(&text).is_ok());
}

#[test]
fn extern_sync_codes() {
    assert_eq!(ExternSync::from_code(1), Some(ExternSync::Never));
    assert_eq!(ExternSync::from_code(5), Some(ExternSync::SubtypeMaybe));
    assert_eq!(ExternSync::from_code(0), None);
    assert_eq!(ExternSync::from_code(6), None);
    assert_eq!(ExternSync::Maybe.code(), 3);
    assert_eq!(CommandScope::from_code(4), Some(CommandScope::Both));
    assert_eq!(CommandScope::from_code(5), None);
    assert_eq!(CommandScope::Inside.code(), 2);
}

#[test]
fn lookup_of_unknown_name_is_none() {
    let vo = load_vulkan_object().unwrap();
    assert!(vo.get_handle(&"VkNothing".to_string()).is_none());
    assert!(vo.get_struct(&"VkNothing".to_string()).is_none());
}

#[test]
fn duplicate_handle_name_fails_to_load() {
    let handles = format!("{}, {}", handle("A", "null", ""), handle("A2", "null", "").replace(r#""name": "A2""#, r#""name": "A""#));
    match load_vulkan_object_from_json_str(&document("", &handles, "", "")) {
        Err(LoadError::DuplicateName { name }) => assert_eq!(name, "A"),
        other => panic!("unexpected {:?}", other.map(|_| ())),
    }
}

#[test]
fn repeated_name_in_nested_parent_chain_fails_to_load() {
    let nested = format!(
        r#"{{"name": "B", "aliases": [], "type": "T", "parent": {},
            "instance": true, "device": false, "dispatchable": true, "extensions": []}}"#,
        parent("A")
    );
    let handles = handle("A", &nested, "");
    match load_vulkan_object_from_json_str(&document("", &handles, "", "")) {
        Err(LoadError::HandleCycle { handle }) => assert_eq!(handle, "A"),
        other => panic!("unexpected {:?}", other.map(|_| ())),
    }
}

fn command_with_codes(extern_sync: &str, render_pass: &str) -> String {
    format!(
        r#""vkCmdX": {{"name": "vkCmdX", "extensions": [], "returnType": "void",
            "params": [{{"name": "p", "type": "T", "fullType": "T", "noAutoValidity": false,
              "const": false, "nullTerminated": false, "pointer": false, "fixedSizeArray": [],
              "optional": false, "optionalPointer": false, "externSync": {extern_sync}, "cDeclaration": "T p"}}],
            "instance": false, "device": true, "tasks": [], "queues": [], "allowNoQueues": false,
            "successCodes": [], "errorCodes": [], "primary": true, "secondary": true,
            "renderPass": {render_pass}, "videoCoding": 1, "implicitExternSyncParams": [],
            "cPrototype": "c", "cFunctionPointer": "f"}}"#
    )
}

fn document_with_commands(commands: &str) -> String {
    document("", "", "", "").replace(r#""commands": {}"#, &format!(r#""commands": {{{commands}}}"#))
}

#[test]
fn enumeration_codes_in_range_load() {
    let vo = load_vulkan_object_from_json_str(&document_with_commands(&command_with_codes("5", "4"))).unwrap();
    let c = vo.get_command(&"vkCmdX".to_string()).unwrap();
    assert_eq!(c.params[0].extern_sync, ExternSync::SubtypeMaybe);
    assert_eq!(c.render_pass, CommandScope::Both);
}

#[test]
fn extern_sync_out_of_range_fails_to_load() {
    match load_vulkan_object_from_json_str(&document_with_commands(&command_with_codes("6", "1"))) {
        Err(LoadError::Field { path, problem }) => {
            assert_eq!(path, vec!["commands", "vkCmdX", "params", "0", "externSync"]);
            assert_eq!(problem, FieldProblem::OutOfRange);
        }
        other => panic!("unexpected {:?}", other.map(|_| ())),
    }
}

#[test]
fn render_pass_out_of_range_fails_to_load() {
    match load_vulkan_object_from_json_str(&document_with_commands(&command_with_codes("1", "5"))) {
        Err(LoadError::Field { problem, .. }) => assert_eq!(problem, FieldProblem::OutOfRange),
        other => panic!("unexpected {:?}", other.map(|_| ())),
    }
}

#[test]
fn constant_beyond_i64_is_out_of_range() {
    let consts = constant("C_BIG", "18446744073709551615");
    match load_vulkan_object_from_json_str(&document("", "", "", &consts)) {
        Err(LoadError::Field { problem, .. }) => assert_eq!(problem, FieldProblem::OutOfRange),
        other => panic!("unexpected {:?}", other.map(|_| ())),
    }
}

#[test]
fn negative_constant_is_int() {
    let vo = load_vulkan_object_from_json_str(&document("", "", "", &constant("C_NEG", "-3"))).unwrap();
    let c = vo.get_constant(&"C_NEG".to_string()).unwrap();
    assert!(matches!(c.value, ConstantValue::Int(-3)));
}
