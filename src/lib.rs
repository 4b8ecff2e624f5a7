//! A typed, validated model of a Vulkan API description.
//!
//! A document is loaded in three steps: the JSON text is decoded into the
//! entity schema, the reverse lookup fields of every extension are built
//! from the entities that name it, and the handle parent and struct
//! `extends` relations are checked for cycles. The validator then reports
//! the invariants that a loaded document breaks, all of them, without
//! stopping at the first.

use vstd::prelude::*;

pub mod cycles;
pub mod depends;
pub mod index;
pub mod json;
pub mod loader;
pub mod query;
pub mod validate;
pub mod vulkan_object;

use crate::cycles::{
    chains_distinct, check_handle_parents, check_struct_extends, extends_acyclic, handle_cycle_at,
    handles_acyclic, reach,
};
use crate::index::{
    all_resolve, build_indices, dangling_reference, first_duplicate_name, indexed,
    lemma_same_document_names, names_unique, same_document, same_extension,
};
use crate::json::{json_of, parse_json, Json};
use crate::loader::{
    decode_document, extension_from, fits_vulkan_object, object_at, vulkan_object_from, LoadError,
};
use crate::validate::{validate, views, violations, Violation};
use crate::vulkan_object::VulkanObject;

verus! {

/// A document is loaded: every name-keyed collection holds each name once,
/// every extension that an entity names exists, the reverse lookup fields
/// list what names each extension, no handle is its own ancestor and no
/// struct extends itself.
pub open spec fn loaded(o: VulkanObject) -> bool {
    &&& names_unique(o)
    &&& all_resolve(o)
    &&& indexed(o)
    &&& chains_distinct(o.handles@)
    &&& handles_acyclic(o.handles@)
    &&& extends_acyclic(o.structs@)
}

/// The checks that a decoded document must pass to be loaded.
pub open spec fn sound(o: VulkanObject) -> bool {
    &&& all_resolve(o)
    &&& names_unique(o)
    &&& chains_distinct(o.handles@)
    &&& handles_acyclic(o.handles@)
    &&& extends_acyclic(o.structs@)
}

/// Turns a decoded document into a loaded one: builds the reverse lookup
/// fields, then checks names, handle parents and struct `extends` links.
pub fn assemble(o: VulkanObject) -> (r: Result<VulkanObject, LoadError>)
    ensures
        r is Ok <==> sound(o),
        r matches Ok(n) ==> loaded(n) && same_document(n, o),
        r matches Err(e) ==> (e is DanglingExtension <==> !all_resolve(o)),
        r matches Err(e) ==> (e is DuplicateName <==> all_resolve(o) && !names_unique(o)),
        r matches Err(e) ==> (e is HandleCycle <==> all_resolve(o) && names_unique(o) && !(chains_distinct(
            o.handles@,
        ) && handles_acyclic(o.handles@))),
        r matches Err(e) ==> (e is ExtendsCycle <==> all_resolve(o) && names_unique(o) && chains_distinct(
            o.handles@,
        ) && handles_acyclic(o.handles@) && !extends_acyclic(o.structs@)),
        r matches Err(LoadError::DanglingExtension { entity, extension }) ==> dangling_reference(
            o,
            entity@,
            extension@,
        ),
        r matches Err(LoadError::HandleCycle { handle }) ==> handle_cycle_at(o.handles@, handle@),
        r matches Err(LoadError::ExtendsCycle { structure }) ==> exists|i: int|
            0 <= i < o.structs@.len() && o.structs@[i].name@ == structure@ && (#[trigger] reach(
                o.structs@,
                o.structs@[i].name@,
                o.structs@.len() as nat,
            )).contains(o.structs@[i].name@),
        !(r matches Err(LoadError::Syntax(_))) && !(r matches Err(LoadError::Field { .. })),
{
    let n = build_indices(o)?;
    proof {
        lemma_same_document_names(n, o);
    }
    match first_duplicate_name(&n) {
        Some(name) => {
            assert(!names_unique(o));
            return Err(LoadError::DuplicateName { name });
        },
        None => {},
    }
    check_handle_parents(&n.handles)?;
    check_struct_extends(&n.structs)?;
    Ok(n)
}

/// Decoding `text` succeeds, and every document that it decodes to passes
/// the checks.
pub open spec fn loadable(text: Seq<char>) -> bool {
    &&& json_of(text) matches Some(j)
    &&& fits_vulkan_object(j)
    &&& forall|d: VulkanObject| vulkan_object_from(j, d) ==> #[trigger] sound(d)
}

/// What loading `text` may give. A success is a loaded document that holds
/// what the JSON tree of `text` holds; a syntax error comes exactly when the
/// text is not JSON, a field error exactly when the tree does not fit the
/// schema, and any other error only where the decoded document fails a
/// check.
pub open spec fn load_outcome(text: Seq<char>, r: Result<VulkanObject, LoadError>) -> bool {
    &&& loadable(text) ==> r is Ok
    &&& r matches Ok(o) ==> json_of(text) matches Some(j) && fits_vulkan_object(j) && vulkan_object_from(j, o)
        && loaded(o)
    &&& r matches Err(e) ==> (e is Syntax <==> json_of(text) is None)
    &&& r matches Err(e) ==> (e is Field <==> (json_of(text) matches Some(j) && !fits_vulkan_object(j)))
    &&& r matches Err(e) ==> (!(e is Syntax) && !(e is Field) ==> (json_of(text) matches Some(j) && exists|
        d: VulkanObject,
    | vulkan_object_from(j, d) && !(#[trigger] sound(d))))
}

/// A document whose extensions differ only in reverse lookup fields holds
/// what the same tree holds.
proof fn lemma_from_same_document(j: Json, d: VulkanObject, o: VulkanObject)
    requires
        vulkan_object_from(j, d),
        same_document(o, d),
    ensures
        vulkan_object_from(j, o),
{
    let es = object_at(j, "extensions"@)->Some_0;
    assert forall|i: int| 0 <= i < es.len() implies #[trigger] extension_from(es[i].1, o.extensions@[i]) by {
        assert(same_extension(o.extensions@[i], d.extensions@[i]));
        assert(extension_from(es[i].1, d.extensions@[i]));
    }
}

/// Loads a document from its JSON text.
pub fn load_vulkan_object_from_json_str(s: &str) -> (r: Result<VulkanObject, LoadError>)
    ensures
        load_outcome(s@, r),
{
    let j = match parse_json(s) {
        Ok(j) => j,
        Err(message) => return Err(LoadError::Syntax(message)),
    };
    let d = decode_document(&j)?;
    match assemble(d) {
        Ok(o) => {
            proof {
                lemma_from_same_document(j, d, o);
            }
            Ok(o)
        },
        Err(e) => Err(e),
    }
}

/// The document of a load that also validates.
pub open spec fn document_part(r: Result<(VulkanObject, Vec<Violation>), LoadError>) -> Result<VulkanObject, LoadError> {
    match r {
        Ok((o, _)) => Ok(o),
        Err(e) => Err(e),
    }
}

/// Loads a document from its JSON text and validates it: the loaded
/// document comes back together with every invariant that it breaks.
pub fn load_and_validate(s: &str) -> (r: Result<(VulkanObject, Vec<Violation>), LoadError>)
    ensures
        load_outcome(s@, document_part(r)),
        r matches Ok((o, found)) ==> views(found@) == violations(o),
{
    match load_vulkan_object_from_json_str(s) {
        Ok(o) => {
            let found = validate(&o);
            Ok((o, found))
        },
        Err(e) => Err(e),
    }
}

/// Loads the document that ships with the library. A failure there is a
/// packaging defect: the caller should stop.
pub fn load_vulkan_object() -> (r: Result<VulkanObject, LoadError>)
    ensures
        load_outcome(BUNDLED_DOCUMENT@, r),
{
    load_vulkan_object_from_json_str(BUNDLED_DOCUMENT)
}

/// The document that ships with the library.
pub const BUNDLED_DOCUMENT: &'static str = r#"{
  "headerVersion": "330",
  "headerVersionComplete": "1.4.330",
  "extensions": {
    "VK_KHR_surface": {
      "name": "VK_KHR_surface",
      "nameString": "VK_KHR_SURFACE_EXTENSION_NAME",
      "specVersion": "VK_KHR_SURFACE_SPEC_VERSION",
      "instance": true,
      "device": false,
      "depends": null,
      "vendorTag": "KHR",
      "platform": null,
      "protect": null,
      "provisional": false,
      "promotedTo": null,
      "deprecatedBy": null,
      "obsoletedBy": null,
      "specialUse": [],
      "featureRequirement": [],
      "ratified": true
    }
  },
  "versions": {
    "VK_VERSION_1_1": {
      "name": "VK_VERSION_1_1",
      "nameString": "\"VK_VERSION_1_1\"",
      "nameApi": "VK_API_VERSION_1_1",
      "featureRequirement": []
    }
  },
  "handles": {
    "VkInstance": {
      "name": "VkInstance",
      "aliases": [],
      "type": "VK_OBJECT_TYPE_INSTANCE",
      "protect": null,
      "parent": null,
      "instance": true,
      "device": false,
      "dispatchable": true,
      "extensions": []
    },
    "VkSurfaceKHR": {
      "name": "VkSurfaceKHR",
      "aliases": [],
      "type": "VK_OBJECT_TYPE_SURFACE_KHR",
      "protect": null,
      "parent": {
        "name": "VkInstance",
        "aliases": [],
        "type": "VK_OBJECT_TYPE_INSTANCE",
        "protect": null,
        "parent": null,
        "instance": true,
        "device": false,
        "dispatchable": true,
        "extensions": []
      },
      "instance": true,
      "device": false,
      "dispatchable": false,
      "extensions": ["VK_KHR_surface"]
    }
  },
  "commands": {
    "vkDestroySurfaceKHR": {
      "name": "vkDestroySurfaceKHR",
      "alias": null,
      "protect": null,
      "extensions": ["VK_KHR_surface"],
      "version": null,
      "returnType": "void",
      "params": [
        {
          "name": "instance",
          "alias": null,
          "type": "VkInstance",
          "fullType": "VkInstance",
          "noAutoValidity": false,
          "const": false,
          "length": null,
          "nullTerminated": false,
          "pointer": false,
          "fixedSizeArray": [],
          "optional": false,
          "optionalPointer": false,
          "externSync": 1,
          "externSyncPointer": null,
          "cDeclaration": "VkInstance instance"
        },
        {
          "name": "surface",
          "alias": null,
          "type": "VkSurfaceKHR",
          "fullType": "VkSurfaceKHR",
          "noAutoValidity": false,
          "const": false,
          "length": null,
          "nullTerminated": false,
          "pointer": false,
          "fixedSizeArray": [],
          "optional": true,
          "optionalPointer": false,
          "externSync": 2,
          "externSyncPointer": null,
          "cDeclaration": "VkSurfaceKHR surface"
        }
      ],
      "instance": true,
      "device": false,
      "tasks": [],
      "queues": [],
      "allowNoQueues": false,
      "successCodes": [],
      "errorCodes": [],
      "primary": false,
      "secondary": false,
      "renderPass": 1,
      "videoCoding": 1,
      "implicitExternSyncParams": [],
      "legacy": null,
      "cPrototype": "VKAPI_ATTR void VKAPI_CALL vkDestroySurfaceKHR(VkInstance instance, VkSurfaceKHR surface);",
      "cFunctionPointer": "typedef void (VKAPI_PTR *PFN_vkDestroySurfaceKHR)(VkInstance instance, VkSurfaceKHR surface);"
    }
  },
  "structs": {},
  "enums": {},
  "bitmasks": {},
  "flags": {},
  "constants": {
    "VK_UUID_SIZE": {
      "name": "VK_UUID_SIZE",
      "type": "uint32_t",
      "value": 16,
      "valueStr": "16U",
      "videoStdHeader": null
    },
    "VK_LOD_CLAMP_NONE": {
      "name": "VK_LOD_CLAMP_NONE",
      "type": "float",
      "value": 1000.0,
      "valueStr": "1000.0F",
      "videoStdHeader": null
    }
  },
  "formats": {},
  "syncStage": [],
  "syncAccess": [],
  "syncPipeline": [],
  "spirv": [],
  "platforms": {"xlib": "VK_USE_PLATFORM_XLIB_KHR"},
  "vendorTags": ["KHR", "EXT"],
  "videoCodecs": {},
  "videoStd": null
}"#;

} // verus!
