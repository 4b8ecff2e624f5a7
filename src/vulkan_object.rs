//! The entity schema: every kind of item that a specification document
//! describes, as plain data. Cross references between entities are by name.

use vstd::prelude::*;

verus! {

/// Marks an enum field or a flag bit that an extension adds to the enum or
/// bitmask named `owner`.
#[derive(Clone, Debug)]
pub struct FieldAddition {
    /// ex) VkDynamicState, VkAccessFlagBits2
    pub owner: String,
    /// ex) VK_DYNAMIC_STATE_SCISSOR_WITH_COUNT
    pub name: String,
}

/// External synchronization of a parameter or member.
#[derive(Clone, Copy, Debug, PartialEq, Eq, Structural)]
pub enum ExternSync {
    /// no externsync attribute
    Never,
    /// externsync="true"
    Always,
    /// externsync="maybe"
    Maybe,
    /// externsync="param->member"
    Subtype,
    /// externsync="maybe:param->member"
    SubtypeMaybe,
}

/// Whether a command may be recorded inside a render pass or video coding scope.
#[derive(Clone, Copy, Debug, PartialEq, Eq, Structural)]
pub enum CommandScope {
    Neither,
    Inside,
    Outside,
    Both,
}

/// Value for a constant: an integer, or a floating-point number kept as the
/// text that serde_json prints for the f64 it parsed.
#[derive(Clone, Debug)]
pub enum ConstantValue {
    Int(i64),
    Float(String),
}

/// Each instance of FeatureRequirement is one part of the AND operation,
/// unless the struct/field are the same, then the depends are AND together.
#[derive(Clone, Debug)]
pub struct FeatureRequirement {
    pub struct_: String,
    /// Can have comma delimiter, which are expressed as OR
    pub field: String,
    /// ex) "VK_EXT_descriptor_indexing", "VK_VERSION_1_2+VkPhysicalDeviceVulkan12Features::descriptorIndexing"
    pub depends: Option<String>,
}

/// `<extension>`
#[derive(Clone, Debug)]
pub struct Extension {
    /// ex) VK_KHR_SURFACE
    pub name: String,
    /// Macro with string, ex) VK_KHR_SURFACE_EXTENSION_NAME
    pub name_string: String,
    /// Macro with string, ex) VK_KHR_SURFACE_SPEC_VERSION
    pub spec_version: String,
    /// Only one will be True, the other is False
    pub instance: bool,
    pub device: bool,
    pub depends: Option<String>,
    /// ex) EXT, KHR, etc
    pub vendor_tag: Option<String>,
    /// ex) android
    pub platform: Option<String>,
    /// ex) VK_USE_PLATFORM_ANDROID_KHR
    pub protect: Option<String>,
    pub provisional: bool,
    /// ex) VK_VERSION_1_1
    pub promoted_to: Option<String>,
    pub deprecated_by: Option<String>,
    pub obsoleted_by: Option<String>,
    pub special_use: Vec<String>,
    pub feature_requirement: Vec<FeatureRequirement>,
    pub ratified: bool,
    /// Handles that this extension enables, by name (derived by the index builder)
    pub handles: Vec<String>,
    /// Commands that this extension enables, by name (derived by the index builder)
    pub commands: Vec<String>,
    /// Structs that this extension enables, by name (derived by the index builder)
    pub structs: Vec<String>,
    /// Enums that this extension enables, by name (derived by the index builder)
    pub enums: Vec<String>,
    /// Bitmasks that this extension enables, by name (derived by the index builder)
    pub bitmasks: Vec<String>,
    /// Flags types that this extension enables, by name (derived by the index builder)
    pub flags: Vec<String>,
    /// Enum fields that this extension adds, with the enum they belong to (derived by the index builder)
    pub enum_fields: Vec<FieldAddition>,
    /// Flag bits that this extension adds, with the bitmask they belong to (derived by the index builder)
    pub flag_bits: Vec<FieldAddition>,
}

/// `<feature>` which represents a version.
/// This will NEVER be Version 1.0, since having 'no version' is same as being 1.0.
#[derive(Clone, Debug)]
pub struct Version {
    /// ex) VK_VERSION_1_1
    pub name: String,
    /// ex) "VK_VERSION_1_1" (no macro, so has quotes)
    pub name_string: String,
    /// ex) VK_API_VERSION_1_1
    pub name_api: String,
    pub feature_requirement: Vec<FeatureRequirement>,
}

/// `<deprecate>`
/// For historical reasons, the XML tag is "deprecate" but we decided in the WG
/// to not use that as the public facing name.
#[derive(Clone, Debug)]
pub struct Legacy {
    /// Spec URL Anchor - ex) legacy-dynamicrendering
    pub link: Option<String>,
    pub version: Option<Box<Version>>,
    pub extensions: Vec<String>,
}

/// `<type>` which represents a dispatch handle
#[derive(Debug)]
pub struct Handle {
    /// ex) VkBuffer
    pub name: String,
    /// ex) ['VkSamplerYcbcrConversionKHR']
    pub aliases: Vec<String>,
    /// ex) VK_OBJECT_TYPE_BUFFER
    pub type_: String,
    /// ex) VK_USE_PLATFORM_ANDROID_KHR
    pub protect: Option<String>,
    /// Chain of parent handles, can be None
    pub parent: Option<Box<Handle>>,
    /// Only one will be True, the other is False
    pub instance: bool,
    pub device: bool,
    pub dispatchable: bool,
    /// All extensions that enable the handle
    pub extensions: Vec<String>,
}

/// `<command/param>`
#[derive(Clone, Debug)]
pub struct Param {
    /// ex) pCreateInfo, pAllocator, pBuffer
    pub name: String,
    pub alias: Option<String>,
    /// The "base type" - will not preserve the 'const' or pointer info.
    /// ex) void, uint32_t, VkFormat, VkBuffer, etc
    pub type_: String,
    /// The "full type" - will be cDeclaration without the type name.
    /// ex) const void*, uint32_t, const VkFormat, VkBuffer*, etc
    /// For arrays, this will only display the type, fixedSizeArray can be used to get the length.
    pub full_type: String,
    pub no_auto_validity: bool,
    /// type contains 'const'
    pub const_: bool,
    /// The known length of pointer, will never be 'null-terminated'
    pub length: Option<String>,
    /// If a UTF-8 string, it will be null-terminated
    pub null_terminated: bool,
    /// type contains a pointer (includes 'PFN' function pointers)
    pub pointer: bool,
    /// Used to list how large an array of the type is.
    /// ex) lineWidthRange is ['2']
    /// ex) memoryTypes is ['VK_MAX_MEMORY_TYPES']
    /// ex) VkTransformMatrixKHR:matrix is ['3', '4']
    pub fixed_size_array: Vec<String>,
    pub optional: bool,
    /// If type contains a pointer, is the pointer value optional
    pub optional_pointer: bool,
    pub extern_sync: ExternSync,
    /// If type contains a pointer (externSync is SUBTYPE*),
    /// only a specific member is externally synchronized.
    pub extern_sync_pointer: Option<String>,
    /// C string of member, example:
    ///   - const void* pNext
    ///   - VkFormat format
    ///   - VkStructureType sType
    pub c_declaration: String,
}

/// `<command>`
#[derive(Clone, Debug)]
pub struct Command {
    /// ex) vkCmdDraw
    pub name: String,
    /// Because commands are interfaces into layers/drivers, we need all command alias
    pub alias: Option<String>,
    /// ex) 'VK_ENABLE_BETA_EXTENSIONS'
    pub protect: Option<String>,
    /// All extensions that enable the struct
    pub extensions: Vec<String>,
    /// None if Version 1.0
    pub version: Option<Box<Version>>,
    /// ex) void, VkResult, etc
    pub return_type: String,
    /// Each parameter of the command
    pub params: Vec<Param>,
    /// Only one will be True, the other is False
    pub instance: bool,
    pub device: bool,
    /// ex) [ action, state, synchronization ]
    pub tasks: Vec<String>,
    /// ex) [ VK_QUEUE_GRAPHICS_BIT, VK_QUEUE_COMPUTE_BIT ]
    pub queues: Vec<String>,
    /// VK_KHR_maintenance9 allows some calls to be done with zero queues
    pub allow_no_queues: bool,
    /// ex) [ VK_SUCCESS, VK_INCOMPLETE ]
    pub success_codes: Vec<String>,
    /// ex) [ VK_ERROR_OUT_OF_HOST_MEMORY ]
    pub error_codes: Vec<String>,
    /// Shows support if command can be in a primary and/or secondary command buffer
    pub primary: bool,
    pub secondary: bool,
    pub render_pass: CommandScope,
    pub video_coding: CommandScope,
    pub implicit_extern_sync_params: Vec<String>,
    pub legacy: Option<Box<Legacy>>,
    /// C prototype string - ex:
    /// VKAPI_ATTR VkResult VKAPI_CALL vkCreateInstance(
    ///   const VkInstanceCreateInfo* pCreateInfo,
    ///   const VkAllocationCallbacks* pAllocator,
    ///   VkInstance* pInstance);
    pub c_prototype: String,
    /// Function pointer typedef - ex:
    /// typedef VkResult (VKAPI_PTR *PFN_vkCreateInstance)
    ///   (const VkInstanceCreateInfo* pCreateInfo, const VkAllocationCallbacks* pAllocator, VkInstance* pInstance);
    pub c_function_pointer: String,
}

/// `<member>`
#[derive(Clone, Debug)]
pub struct Member {
    /// ex) sType, pNext, flags, size, usage
    pub name: String,
    /// The "base type" - will not preserve the 'const' or pointer info.
    /// ex) void, uint32_t, VkFormat, VkBuffer, etc
    pub type_: String,
    /// The "full type" - will be cDeclaration without the type name.
    /// ex) const void*, uint32_t, const VkFormat, VkBuffer*, etc
    /// For arrays, this will only display the type, fixedSizeArray can be used to get the length.
    pub full_type: String,
    pub no_auto_validity: bool,
    /// ex) 'max', 'bitmask', 'bits', 'min,mul'
    pub limit_type: Option<String>,
    /// type contains 'const'
    pub const_: bool,
    /// The known length of pointer, will never be 'null-terminated'
    pub length: Option<String>,
    /// If a UTF-8 string, it will be null-terminated
    pub null_terminated: bool,
    /// type contains a pointer (includes 'PFN' function pointers)
    pub pointer: bool,
    /// Used to list how large an array of the type is.
    /// ex) lineWidthRange is ['2']
    /// ex) memoryTypes is ['VK_MAX_MEMORY_TYPES']
    /// ex) VkTransformMatrixKHR:matrix is ['3', '4']
    pub fixed_size_array: Vec<String>,
    pub optional: bool,
    /// If type contains a pointer, is the pointer value optional
    pub optional_pointer: bool,
    pub extern_sync: ExternSync,
    /// C string of member, example:
    ///   - const void* pNext
    ///   - VkFormat format
    ///   - VkStructureType sType
    pub c_declaration: String,
    /// Bit width (only for bit field struct members)
    pub bit_field_width: Option<i32>,
    /// Selector for the union, this type determines the used data type in the union
    pub selector: Option<String>,
    /// Valid selections for the union member
    pub selection: Vec<String>,
}

/// `<type category="struct">` or `<type category="union">`
#[derive(Clone, Debug)]
pub struct Struct {
    /// ex) VkImageSubresource2
    pub name: String,
    /// ex) ['VkImageSubresource2KHR', 'VkImageSubresource2EXT']
    pub aliases: Vec<String>,
    /// All extensions that enable the struct
    pub extensions: Vec<String>,
    /// None if Version 1.0
    pub version: Option<Box<Version>>,
    /// ex) VK_ENABLE_BETA_EXTENSIONS
    pub protect: Option<String>,
    pub members: Vec<Member>,
    /// Unions are just a subset of a Structs
    pub union: bool,
    pub returned_only: bool,
    /// ex) VK_STRUCTURE_TYPE_BUFFER_CREATE_INFO
    pub s_type: Option<String>,
    /// Can have a pNext point to itself
    pub allow_duplicate: bool,
    /// Struct names that this struct extends
    pub extends: Vec<String>,
    /// Struct names that can be extended by this struct
    pub extended_by: Vec<String>,
    /// This field is only set for enum definitions coming from Video Std headers
    pub video_std_header: Option<String>,
}

/// `<enum>` of type enum
#[derive(Clone, Debug)]
pub struct EnumField {
    /// ex) VK_DYNAMIC_STATE_SCISSOR_WITH_COUNT
    pub name: String,
    /// ex) ['VK_DYNAMIC_STATE_SCISSOR_WITH_COUNT_EXT']
    pub aliases: Vec<String>,
    /// ex) VK_ENABLE_BETA_EXTENSIONS
    pub protect: Option<String>,
    /// True if negative values are allowed (ex. VkResult)
    pub negative: bool,
    pub value: i64,
    /// Value as shown in spec (ex. "0", "2", "1000267000", "0x00000004")
    pub value_str: String,
    /// Some fields are enabled from 2 extensions (ex) VK_DESCRIPTOR_UPDATE_TEMPLATE_TYPE_PUSH_DESCRIPTORS_KHR)
    /// None if part of 1.0 core
    pub extensions: Vec<String>,
}

/// `<enums>` of type enum
#[derive(Clone, Debug)]
pub struct Enum {
    /// ex) VkLineRasterizationMode
    pub name: String,
    /// ex) ['VkLineRasterizationModeKHR', 'VkLineRasterizationModeEXT']
    pub aliases: Vec<String>,
    /// ex) VK_ENABLE_BETA_EXTENSIONS
    pub protect: Option<String>,
    /// 32 or 64 (currently all are 32, but field is to match with Bitmask)
    pub bit_width: i32,
    pub returned_only: bool,
    pub fields: Vec<EnumField>,
    /// None if part of 1.0 core
    pub extensions: Vec<String>,
    /// Unique list of all extensions that are involved in 'fields' (superset of 'extensions')
    pub field_extensions: Vec<String>,
    /// This field is only set for enum definitions coming from Video Std headers
    pub video_std_header: Option<String>,
}

/// `<enum>` of type bitmask
#[derive(Clone, Debug)]
pub struct Flag {
    /// ex) VK_ACCESS_2_SHADER_READ_BIT
    pub name: String,
    /// ex) ['VK_ACCESS_2_SHADER_READ_BIT_KHR']
    pub aliases: Option<Vec<String>>,
    /// ex) VK_ENABLE_BETA_EXTENSIONS
    pub protect: Option<String>,
    pub value: u64,
    /// Value as shown in spec (ex. "0x00000000", "0x00000004", "0x0000000F", "0x800000000ULL")
    pub value_str: String,
    /// If true, more than one bit is set (ex) VK_SHADER_STAGE_ALL_GRAPHICS)
    pub multi_bit: bool,
    /// If true, the value is zero (ex) VK_PIPELINE_STAGE_NONE)
    pub zero: bool,
    /// Some fields are enabled from 2 extensions (ex) VK_TOOL_PURPOSE_DEBUG_REPORTING_BIT_EXT)
    /// None if part of 1.0 core
    pub extensions: Vec<String>,
}

/// `<enums>` of type bitmask
#[derive(Clone, Debug)]
pub struct Bitmask {
    /// ex) VkAccessFlagBits2
    pub name: String,
    /// ex) ['VkAccessFlagBits2KHR']
    pub aliases: Vec<String>,
    /// ex) VkAccessFlags2
    pub flag_name: String,
    /// ex) VK_ENABLE_BETA_EXTENSIONS
    pub protect: Option<String>,
    /// 32 or 64
    pub bit_width: i32,
    pub returned_only: bool,
    pub flags: Vec<Flag>,
    /// None if part of 1.0 core
    pub extensions: Vec<String>,
    /// Unique list of all extensions that are involved in 'flag' (superset of 'extensions')
    pub flag_extensions: Vec<String>,
}

/// `<type>` defining flags types
#[derive(Clone, Debug)]
pub struct Flags {
    /// ex) VkAccessFlags2
    pub name: String,
    /// ex) ['VkAccessFlags2KHR']
    pub aliases: Vec<String>,
    /// ex) VkAccessFlagBits2
    pub bitmask_name: Option<String>,
    /// ex) VK_ENABLE_BETA_EXTENSIONS
    pub protect: Option<String>,
    /// ex) VkFlags
    pub base_flags_type: String,
    /// 32 or 64
    pub bit_width: i32,
    pub returned_only: bool,
    /// None if part of 1.0 core
    pub extensions: Vec<String>,
}

#[derive(Clone, Debug)]
pub struct Constant {
    /// ex) VK_UUID_SIZE
    pub name: String,
    /// ex) uint32_t, float
    pub type_: String,
    pub value: ConstantValue,
    /// Value as shown in spec (ex. "(~0U)", "256U", etc)
    pub value_str: String,
    /// This field is only set for enum definitions coming from Video Std headers
    pub video_std_header: Option<String>,
}

/// `<format/component>`
#[derive(Clone, Debug)]
pub struct FormatComponent {
    /// ex) R, G, B, A, D, S, etc
    pub type_: String,
    /// Will be an INT or 'compressed'
    pub bits: String,
    /// ex) UNORM, SINT, etc
    pub numeric_format: String,
    /// None if no planeIndex in format
    pub plane_index: Option<i32>,
}

/// `<format/plane>`
#[derive(Clone, Debug)]
pub struct FormatPlane {
    pub index: i32,
    pub width_divisor: i32,
    pub height_divisor: i32,
    pub compatible: String,
}

/// `<format>`
#[derive(Clone, Debug)]
pub struct Format {
    pub name: String,
    pub class_name: String,
    pub block_size: i32,
    pub texels_per_block: i32,
    pub block_extent: Vec<String>,
    /// None == not-packed
    pub packed: Option<i32>,
    pub chroma: Option<String>,
    pub compressed: Option<String>,
    /// `<format/component>`
    pub components: Vec<FormatComponent>,
    /// `<format/plane>`
    pub planes: Vec<FormatPlane>,
    pub spirv_image_format: Option<String>,
}

/// `<syncsupport>`
#[derive(Clone, Debug)]
pub struct SyncSupport {
    /// ex) [ VK_QUEUE_GRAPHICS_BIT, VK_QUEUE_COMPUTE_BIT ]
    pub queues: Option<Vec<String>>,
    /// VkPipelineStageFlagBits2
    pub stages: Option<Vec<Flag>>,
    /// If this supports max values
    pub max: bool,
}

/// `<syncequivalent>`
#[derive(Clone, Debug)]
pub struct SyncEquivalent {
    /// VkPipelineStageFlagBits2
    pub stages: Option<Vec<Flag>>,
    /// VkAccessFlagBits2
    pub accesses: Option<Vec<Flag>>,
    /// If this equivalent to everything
    pub max: bool,
}

/// `<syncstage>`
#[derive(Clone, Debug)]
pub struct SyncStage {
    /// VkPipelineStageFlagBits2
    pub flag: Flag,
    pub support: SyncSupport,
    pub equivalent: SyncEquivalent,
}

/// `<syncaccess>`
#[derive(Clone, Debug)]
pub struct SyncAccess {
    /// VkAccessFlagBits2
    pub flag: Flag,
    pub support: SyncSupport,
    pub equivalent: SyncEquivalent,
}

/// `<syncpipelinestage>`
#[derive(Clone, Debug)]
pub struct SyncPipelineStage {
    pub order: Option<String>,
    pub before: Option<String>,
    pub after: Option<String>,
    pub value: String,
}

/// `<syncpipeline>`
#[derive(Clone, Debug)]
pub struct SyncPipeline {
    pub name: String,
    pub depends: Vec<String>,
    pub stages: Vec<SyncPipelineStage>,
}

/// What is needed to enable the SPIR-V element
#[derive(Clone, Debug)]
pub struct SpirvEnables {
    pub version: Option<String>,
    pub extension: Option<String>,
    pub struct_: Option<String>,
    pub feature: Option<String>,
    pub requires: Option<String>,
    pub property: Option<String>,
    pub member: Option<String>,
    pub value: Option<String>,
}

/// `<spirvextension>` and `<spirvcapability>`
#[derive(Clone, Debug)]
pub struct Spirv {
    pub name: String,
    /// Only one will be True, the other is False
    pub extension: bool,
    pub capability: bool,
    pub enable: Vec<SpirvEnables>,
}

/// `<videorequirecapabilities>`
#[derive(Clone, Debug)]
pub struct VideoRequiredCapabilities {
    /// ex) VkVideoEncodeCapabilitiesKHR
    pub struct_: String,
    /// ex) flags
    pub member: String,
    /// ex) VK_VIDEO_ENCODE_CAPABILITY_QUANTIZATION_DELTA_MAP_BIT_KHR
    /// May contain XML boolean expressions ("+" means AND, "," means OR)
    pub value: String,
}

/// `<videoformat>`
#[derive(Clone, Debug)]
pub struct VideoFormat {
    /// ex) Decode Output
    pub name: String,
    /// ex) VK_IMAGE_USAGE_VIDEO_DECODE_DST_BIT_KHR
    /// May contain XML boolean expressions ("+" means AND, "," means OR)
    pub usage: String,
    pub required_caps: Vec<VideoRequiredCapabilities>,
    pub properties: Vec<(String, String)>,
}

/// `<videoprofilemember>` and `<videoprofile>`
#[derive(Clone, Debug)]
pub struct VideoProfileMember {
    pub name: String,
    /// Video profile struct member (value attribute of `<videoprofile>`) value as key,
    /// profile name substring (name attribute of `<videoprofile>`) as value
    pub values: Vec<(String, String)>,
}

/// `<videoprofiles>`
#[derive(Clone, Debug)]
pub struct VideoProfiles {
    pub name: String,
    pub members: Vec<VideoProfileMember>,
}

/// `<videocodec>`
#[derive(Clone, Debug)]
pub struct VideoCodec {
    /// ex) H.264 Decode
    pub name: String,
    /// If no video codec operation flag bit is associated with the codec
    /// then it is a codec category (e.g. decode, encode), not a specific codec
    pub value: Option<String>,
    pub profiles: Vec<VideoProfiles>,
    pub capabilities: Vec<(String, String)>,
    pub formats: Vec<VideoFormat>,
}

/// `<extension>` in video.xml
#[derive(Clone, Debug)]
pub struct VideoStdHeader {
    /// ex) vulkan_video_codec_h264std_decode
    pub name: String,
    /// ex) VK_STD_VULKAN_VIDEO_CODEC_H264_DECODE_API_VERSION_1_0_0
    /// None if it is a shared common Video Std header
    pub version: Option<String>,
    /// ex) vk_video/vulkan_video_codec_h264std_decode.h
    pub header_file: String,
    /// Other Video Std headers that this one depends on
    pub depends: Vec<String>,
}

#[derive(Clone, Debug)]
pub struct VideoStd {
    pub headers: Vec<VideoStdHeader>,
    pub enums: Vec<Enum>,
    pub structs: Vec<Struct>,
    pub constants: Vec<Constant>,
}

/// This is the global Vulkan Object that holds all the information from parsing the XML.
/// This struct is designed so all generator scripts can use this to obtain data.
///
/// Collections that the document keys by name are lists here, in the order
/// of their keys; lookups by name are methods of this type.
#[derive(Debug)]
pub struct VulkanObject {
    /// Value of VK_HEADER_VERSION (ex. '345')
    pub header_version: String,
    /// Value of VK_HEADER_VERSION_COMPLETE (ex. '1.2.345')
    pub header_version_complete: String,
    pub extensions: Vec<Extension>,
    pub versions: Vec<Version>,
    pub handles: Vec<Handle>,
    pub commands: Vec<Command>,
    pub structs: Vec<Struct>,
    pub enums: Vec<Enum>,
    pub bitmasks: Vec<Bitmask>,
    pub flags: Vec<Flags>,
    pub constants: Vec<Constant>,
    pub formats: Vec<Format>,
    pub sync_stage: Vec<SyncStage>,
    pub sync_access: Vec<SyncAccess>,
    pub sync_pipeline: Vec<SyncPipeline>,
    pub spirv: Vec<Spirv>,
    /// ex) { xlib: VK_USE_PLATFORM_XLIB_KHR }
    pub platforms: Vec<(String, String)>,
    /// List of all vendor suffix names (KHR, EXT, etc.)
    pub vendor_tags: Vec<String>,
    /// Video codec information from the vk.xml
    pub video_codecs: Vec<VideoCodec>,
    /// Video Std header information from the video.xml
    pub video_std: Option<VideoStd>,
}

} // verus!
