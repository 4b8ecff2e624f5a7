use vulkan_object::load_vulkan_object_from_json_str;
use vulkan_object::validate::{validate, ScopedKind, Violation};
use vulkan_object::load_vulkan_object;

fn structure(name: &str, extends: &str, extended_by: &str) -> String {
    format!(
        r#""{name}": {{"name": "{name}", "aliases": [], "extensions": [], "members": [],
            "union": false, "returnedOnly": false, "allowDuplicate": false,
            "extends": [{extends}], "extendedBy": [{extended_by}]}}"#
    )
}

fn scoped_handle(name: &str, instance: bool, device: bool) -> String {
    format!(
        r#""{name}": {{"name": "{name}", "aliases": [], "type": "T", "parent": null,
            "instance": {instance}, "device": {device}, "dispatchable": false, "extensions": []}}"#
    )
}

fn document(handles: &str, structs: &str) -> String {
    format!(
        r#"{{"headerVersion": "1", "headerVersionComplete": "1.0.1",
            "extensions": {{}}, "versions": {{}}, "handles": {{{handles}}},
            "commands": {{}}, "structs": {{{structs}}}, "enums": {{}}, "bitmasks": {{}},
            "flags": {{}}, "constants": {{}}, "formats": {{}},
            "syncStage": [], "syncAccess": [], "syncPipeline": [], "spirv": [],
            "platforms": {{}}, "vendorTags": [], "videoCodecs": {{}}, "videoStd": null}}"#
    )
}

#[test]
fn extends_missing_struct_is_a_symmetry_violation() {
    let text = document("", &structure("VkChild", r#""VkBase""#, ""));
    let vo = load_vulkan_object_from_json_str(&text).unwrap();
    let found = validate(&vo);
    assert_eq!(found.len(), 1);
    match &found[0] {
        Violation::ExtendsUnmatched { name, target } => {
            assert_eq!(name, "VkChild");
            assert_eq!(target, "VkBase");
        }
        other => panic!("unexpected {:?}", other),
    }
}

#[test]
fn mirrored_structs_validate() {
    let structs = format!(
        "{}, {}",
        structure("VkBase", "", r#""VkChild""#),
        structure("VkChild", r#""VkBase""#, "")
    );
    let vo = load_vulkan_object_from_json_str(&document("", &structs)).unwrap();
    assert!(validate(&vo).is_empty());
}

#[test]
fn one_sided_extended_by_is_reported() {
    let structs = format!(
        "{}, {}",
        structure("VkBase", "", r#""VkChild""#),
        structure("VkChild", "", "")
    );
    let vo = load_vulkan_object_from_json_str(&document("", &structs)).unwrap();
    let found = validate(&vo);
    assert_eq!(found.len(), 1);
    match &found[0] {
        Violation::ExtendedByUnmatched { name, source } => {
            assert_eq!(name, "VkBase");
            assert_eq!(source, "VkChild");
        }
        other => panic!("unexpected {:?}", other),
    }
}

#[test]
fn every_violation_is_reported() {
    let handles = format!(
        "{}, {}, {}",
        scoped_handle("HBoth", true, true),
        scoped_handle("HGood", true, false),
        scoped_handle("HNeither", false, false)
    );
    let structs = structure("VkChild", r#""VkBase""#, "");
    let vo = load_vulkan_object_from_json_str(&document(&handles, &structs)).unwrap();
    let found = validate(&vo);
    assert_eq!(found.len(), 3);
    match &found[0] {
        Violation::NotExclusive { kind, name } => {
            assert_eq!(*kind, ScopedKind::Handle);
            assert_eq!(name, "HBoth");
        }
        other => panic!("unexpected {:?}", other),
    }
    match &found[1] {
        Violation::NotExclusive { kind, name } => {
            assert_eq!(*kind, ScopedKind::Handle);
            assert_eq!(name, "HNeither");
        }
        other => panic!("unexpected {:?}", other),
    }
    assert!(matches!(found[2], Violation::ExtendsUnmatched { .. }));
}

#[test]
fn bundled_document_validates() {
    assert!(validate(&load_vulkan_object().unwrap()).is_empty());
}

#[test]
fn extends_cycle_fails_to_load() {
    let structs = format!(
        "{}, {}",
        structure("VkA", r#""VkB""#, r#""VkB""#),
        structure("VkB", r#""VkA""#, r#""VkA""#)
    );
    match load_vulkan_object_from_json_str(&document("", &structs)) {
        Err(vulkan_object::loader::LoadError::ExtendsCycle { structure }) => assert_eq!(structure, "VkA"),
        other => panic!("unexpected {:?}", other.map(|_| ())),
    }
}

#[test]
fn self_extending_struct_fails_to_load() {
    let structs = structure("VkSelf", r#""VkSelf""#, r#""VkSelf""#);
    assert!(matches!(
        load_vulkan_object_from_json_str(&document("", &structs)),
        Err(vulkan_object::loader::LoadError::ExtendsCycle { .. })
    ));
}

#[test]
fn extends_chain_without_cycle_loads() {
    let structs = format!(
        "{}, {}, {}",
        structure("VkA", r#""VkB""#, ""),
        structure("VkB", r#""VkC""#, r#""VkA""#),
        structure("VkC", "", r#""VkB""#)
    );
    let vo = load_vulkan_object_from_json_str(&document("", &structs)).unwrap();
    assert!(validate(&vo).is_empty());
}

#[test]
fn load_and_validate_returns_graph_and_violations() {
    let text = document(&scoped_handle("HBoth", true, true), &structure("VkChild", r#""VkBase""#, ""));
    let (vo, found) = vulkan_object::load_and_validate(&text).unwrap();
    assert_eq!(vo.handles.len(), 1);
    assert_eq!(found.len(), 2);
    assert!(vulkan_object::load_and_validate("[").is_err());
}
