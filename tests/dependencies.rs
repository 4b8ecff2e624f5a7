use vulkan_object::depends::factors;
use vulkan_object::load_vulkan_object_from_json_str;
use vulkan_object::validate::{validate, Violation};
use vulkan_object::vulkan_object::FieldAddition;

fn extension(name: &str, depends: &str, requirements: &str) -> String {
    format!(
        r#""{name}": {{"name": "{name}", "nameString": "N", "specVersion": "S",
            "instance": false, "device": true, "depends": {depends}, "provisional": false,
            "specialUse": [], "featureRequirement": [{requirements}], "ratified": true}}"#
    )
}

fn requirement(structure: &str, field: &str, depends: &str) -> String {
    format!(r#"{{"struct": "{structure}", "field": "{field}", "depends": {depends}}}"#)
}

fn member(name: &str) -> String {
    format!(
        r#"{{"name": "{name}", "type": "VkBool32", "fullType": "VkBool32", "noAutoValidity": false,
            "const": false, "nullTerminated": false, "pointer": false, "fixedSizeArray": [],
            "optional": false, "optionalPointer": false, "externSync": 1,
            "cDeclaration": "VkBool32 {name}", "selection": []}}"#
    )
}

fn features_struct() -> String {
    format!(
        r#""VkFeatures": {{"name": "VkFeatures", "aliases": [], "extensions": [], "members": [{}, {}],
            "union": false, "returnedOnly": false, "allowDuplicate": false,
            "extends": [], "extendedBy": []}}"#,
        member("alpha"),
        member("beta")
    )
}

fn enum_with_fields(field_extensions: &str) -> String {
    format!(
        r#""VkMode": {{"name": "VkMode", "aliases": [], "bitWidth": 32, "returnedOnly": false,
            "fields": [
              {{"name": "VK_MODE_A", "aliases": [], "negative": false, "value": 0, "valueStr": "0", "extensions": []}},
              {{"name": "VK_MODE_B", "aliases": [], "negative": false, "value": 1, "valueStr": "1", "extensions": ["VK_A"]}}
            ],
            "extensions": [], "fieldExtensions": [{field_extensions}]}}"#
    )
}

fn bitmask_with_flags(flag_extensions: &str) -> String {
    format!(
        r#""VkBits": {{"name": "VkBits", "aliases": [], "flagName": "VkFlagsX", "bitWidth": 64, "returnedOnly": false,
            "flags": [
              {{"name": "VK_BIT_X", "value": 18446744073709551615, "valueStr": "~0ULL", "multiBit": true, "zero": false, "extensions": ["VK_A"]}}
            ],
            "extensions": [], "flagExtensions": [{flag_extensions}]}}"#
    )
}

fn document(extensions: &str, structs: &str, enums: &str, bitmasks: &str) -> String {
    format!(
        r#"{{"headerVersion": "1", "headerVersionComplete": "1.0.1",
            "extensions": {{{extensions}}},
            "versions": {{"VK_VERSION_1_1": {{"name": "VK_VERSION_1_1", "nameString": "V", "nameApi": "A", "featureRequirement": []}}}},
            "handles": {{}}, "commands": {{}}, "structs": {{{structs}}}, "enums": {{{enums}}},
            "bitmasks": {{{bitmasks}}}, "flags": {{}}, "constants": {{}}, "formats": {{}},
            "syncStage": [], "syncAccess": [], "syncPipeline": [], "spirv": [],
            "platforms": {{}}, "vendorTags": [], "videoCodecs": {{}}, "videoStd": null}}"#
    )
}

#[test]
fn expression_factors_split_on_both_operators() {
    let f = factors(&"VK_A+VK_B,VK_VERSION_1_1".to_string());
    assert_eq!(f, vec!["VK_A", "VK_B", "VK_VERSION_1_1"]);
    assert_eq!(factors(&"".to_string()), vec![""]);
    assert_eq!(factors(&"VK_A,".to_string()), vec!["VK_A", ""]);
}

#[test]
fn resolvable_dependencies_validate() {
    let exts = format!(
        "{}, {}",
        extension("VK_A", "null", ""),
        extension(
            "VK_B",
            r#""VK_A+VK_VERSION_1_1,VkFeatures::alpha""#,
            &requirement("VkFeatures", "alpha,beta", r#""VK_A""#)
        )
    );
    let vo = load_vulkan_object_from_json_str(&document(&exts, &features_struct(), "", "")).unwrap();
    assert!(validate(&vo).is_empty());
}

#[test]
fn unresolved_factors_are_reported() {
    let exts = format!(
        "{}, {}",
        extension("VK_A", "null", ""),
        extension("VK_B", r#""VK_A+VK_MISSING,(VK_A),VkFeatures::gamma""#, "")
    );
    let vo = load_vulkan_object_from_json_str(&document(&exts, &features_struct(), "", "")).unwrap();
    let found = validate(&vo);
    let factors: Vec<String> = found
        .iter()
        .map(|v| match v {
            Violation::UnresolvedFactor { owner, factor } => {
                assert_eq!(owner, "VK_B");
                factor.clone()
            }
            other => panic!("unexpected {:?}", other),
        })
        .collect();
    assert_eq!(factors, vec!["VK_MISSING", "(VK_A)", "VkFeatures::gamma"]);
}

#[test]
fn unknown_feature_field_is_reported() {
    let exts = extension("VK_A", "null", &requirement("VkFeatures", "alpha,delta", "null"));
    let vo = load_vulkan_object_from_json_str(&document(&exts, &features_struct(), "", "")).unwrap();
    let found = validate(&vo);
    assert_eq!(found.len(), 1);
    match &found[0] {
        Violation::UnknownFeature { owner, structure, field } => {
            assert_eq!(owner, "VK_A");
            assert_eq!(structure, "VkFeatures");
            assert_eq!(field, "delta");
        }
        other => panic!("unexpected {:?}", other),
    }
}

#[test]
fn enum_fields_and_flag_bits_are_indexed() {
    let exts = extension("VK_A", "null", "");
    let text = document(&exts, "", &enum_with_fields(r#""VK_A""#), &bitmask_with_flags(r#""VK_A""#));
    let vo = load_vulkan_object_from_json_str(&text).unwrap();
    let a = vo.get_extension(&"VK_A".to_string()).unwrap();
    let pairs = |v: &Vec<FieldAddition>| v.iter().map(|f| (f.owner.clone(), f.name.clone())).collect::<Vec<_>>();
    assert_eq!(pairs(&a.enum_fields), vec![("VkMode".to_string(), "VK_MODE_B".to_string())]);
    assert_eq!(pairs(&a.flag_bits), vec![("VkBits".to_string(), "VK_BIT_X".to_string())]);
    assert!(a.enums.is_empty());
    let bits = vo.get_bitmask(&"VkBits".to_string()).unwrap();
    assert_eq!(bits.flags[0].value, u64::MAX);
    assert!(validate(&vo).is_empty());
}

#[test]
fn field_extension_mismatch_is_reported() {
    let exts = extension("VK_A", "null", "");
    let text = document(&exts, "", &enum_with_fields(""), &bitmask_with_flags(r#""VK_A", "VK_A""#));
    let vo = load_vulkan_object_from_json_str(&text).unwrap();
    let found = validate(&vo);
    assert_eq!(found.len(), 1);
    match &found[0] {
        Violation::FieldExtensionsMismatch { bitmask, name } => {
            assert!(!*bitmask);
            assert_eq!(name, "VkMode");
        }
        other => panic!("unexpected {:?}", other),
    }
}

#[test]
fn dangling_enum_field_extension_fails_to_load() {
    let text = document("", "", &enum_with_fields(r#""VK_A""#), "");
    assert!(matches!(
        load_vulkan_object_from_json_str(&text),
        Err(vulkan_object::loader::LoadError::DanglingExtension { .. })
    ));
}
