//! The decisions of the audio-server plug-in (a virtual output device): which
//! audio objects exist, which properties each object has, with which data
//! sizes and values, which of them can be set, the status codes its entry
//! points answer, and its IO clock.
//!
//! The object tree:
//!  - the plug-in (object 1)
//!    - a device (object 2)
//!      - an output stream (object 3) of interleaved 32-bit float samples
//!      - a mute control (even ids) and a volume control (odd ids) for the
//!        master (channel 0, ids 4 and 5) and for each channel `n` in 1..=16
//!        (ids `4 + 2n` and `5 + 2n`).

use vstd::prelude::*;

verus! {

/// Number of output channels.
pub const N_CHANNELS: u32 = 16;
/// A mute and a volume control for each channel and for the master.
pub const N_CONTROLS: u32 = 34;
/// The controls and the output stream.
pub const N_DEVICE_OWNED_OBJS: u32 = 35;

pub const PLUGIN_ID: u32 = 1;
pub const DEVICE_ID: u32 = 2;
pub const STREAM_ID: u32 = 3;
pub const FIRST_CTRL_ID: u32 = 4;
pub const LAST_CTRL_ID: u32 = 37;
/// The unknown object.
pub const UNKNOWN_OBJECT: u32 = 0;

/// Frames between two zero time stamps: half a second at 48 kHz.
pub const FRAMES_PER_TIMESTAMP: u32 = 24000;
/// Nanoseconds between two zero time stamps.
pub const TIMESTAMP_PERIOD_NANOSECS: u64 = 500_000_000;

// Status codes.
pub const STATUS_NO_ERROR: i32 = 0;
pub const STATUS_ILLEGAL_OPERATION: i32 = 0x6e6f7065;
pub const STATUS_UNKNOWN_PROPERTY: i32 = 0x77686f3f;
pub const STATUS_BAD_PROPERTY_SIZE: i32 = 0x2173697a;
pub const STATUS_BAD_OBJECT: i32 = 0x216f626a;
pub const STATUS_UNSUPPORTED_OPERATION: i32 = 0x756e6f70;

// Property scopes.
pub const SCOPE_GLOBAL: u32 = 0x676c6f62;
pub const SCOPE_OUTPUT: u32 = 0x6f757470;
pub const ELEMENT_MAIN: u32 = 0;

// Property selectors.
pub const SEL_BASE_CLASS: u32 = 0x62636c73;
pub const SEL_CLASS: u32 = 0x636c6173;
pub const SEL_OWNER: u32 = 0x73746476;
pub const SEL_NAME: u32 = 0x6c6e616d;
pub const SEL_MANUFACTURER: u32 = 0x6c6d616b;
pub const SEL_ELEMENT_NAME: u32 = 0x6c63686e;
pub const SEL_OWNED_OBJECTS: u32 = 0x6f776e64;
pub const SEL_CONTROL_LIST: u32 = 0x6374726c;
pub const SEL_DEVICE_LIST: u32 = 0x64657623;
pub const SEL_TRANSLATE_UID_TO_DEVICE: u32 = 0x75696464;
pub const SEL_RESOURCE_BUNDLE: u32 = 0x72737263;
pub const SEL_DEVICE_UID: u32 = 0x75696420;
pub const SEL_MODEL_UID: u32 = 0x6d756964;
pub const SEL_TRANSPORT_TYPE: u32 = 0x7472616e;
pub const SEL_RELATED_DEVICES: u32 = 0x616b696e;
pub const SEL_CLOCK_DOMAIN: u32 = 0x636c6b64;
pub const SEL_DEVICE_IS_ALIVE: u32 = 0x6c69766e;
pub const SEL_DEVICE_IS_RUNNING: u32 = 0x676f696e;
pub const SEL_CAN_BE_DEFAULT_DEVICE: u32 = 0x64666c74;
pub const SEL_CAN_BE_DEFAULT_SYSTEM_DEVICE: u32 = 0x73666c74;
pub const SEL_LATENCY: u32 = 0x6c746e63;
pub const SEL_STREAMS: u32 = 0x73746d23;
pub const SEL_SAFETY_OFFSET: u32 = 0x73616674;
pub const SEL_NOMINAL_SAMPLE_RATE: u32 = 0x6e737274;
pub const SEL_AVAILABLE_NOMINAL_SAMPLE_RATES: u32 = 0x6e737223;
pub const SEL_IS_HIDDEN: u32 = 0x6869646e;
pub const SEL_PREFERRED_CHANNEL_LAYOUT: u32 = 0x73726e64;
pub const SEL_ZERO_TIMESTAMP_PERIOD: u32 = 0x72696e67;
pub const SEL_STREAM_IS_ACTIVE: u32 = 0x73616374;
pub const SEL_STREAM_DIRECTION: u32 = 0x73646972;
pub const SEL_STREAM_TERMINAL_TYPE: u32 = 0x7465726d;
pub const SEL_STREAM_STARTING_CHANNEL: u32 = 0x7363686e;
pub const SEL_VIRTUAL_FORMAT: u32 = 0x73666d74;
pub const SEL_AVAILABLE_VIRTUAL_FORMATS: u32 = 0x73666d61;
pub const SEL_PHYSICAL_FORMAT: u32 = 0x70667420;
pub const SEL_AVAILABLE_PHYSICAL_FORMATS: u32 = 0x70667461;
pub const SEL_CONTROL_SCOPE: u32 = 0x63736370;
pub const SEL_CONTROL_ELEMENT: u32 = 0x63656c6d;
pub const SEL_LEVEL_SCALAR_VALUE: u32 = 0x6c637376;
pub const SEL_LEVEL_DECIBEL_VALUE: u32 = 0x6c636476;
pub const SEL_LEVEL_DECIBEL_RANGE: u32 = 0x6c636472;
pub const SEL_LEVEL_SCALAR_TO_DECIBELS: u32 = 0x6c637364;
pub const SEL_LEVEL_DECIBELS_TO_SCALAR: u32 = 0x6c636473;
pub const SEL_BOOLEAN_VALUE: u32 = 0x6263766c;

// Class identifiers.
pub const CLASS_OBJECT: u32 = 0x616f626a;
pub const CLASS_PLUGIN: u32 = 0x61706c67;
pub const CLASS_DEVICE: u32 = 0x61646576;
pub const CLASS_STREAM: u32 = 0x61737472;
pub const CLASS_LEVEL_CONTROL: u32 = 0x6c65766c;
pub const CLASS_VOLUME_CONTROL: u32 = 0x766c6d65;
pub const CLASS_BOOLEAN_CONTROL: u32 = 0x746f676c;
pub const CLASS_MUTE_CONTROL: u32 = 0x6d757465;
pub const TRANSPORT_TYPE_AVB: u32 = 0x65617662;

/// The only IO operation the device performs (writing the mix).
pub const IO_OPERATION_WRITE_MIX: u32 = 0x72697465;

// Sizes, in bytes, of the property values.
pub const CLASS_ID_SIZE: u32 = 4;
pub const OBJECT_ID_SIZE: u32 = 4;
pub const STRING_REF_SIZE: u32 = 8;
pub const U32_SIZE: u32 = 4;
pub const F32_SIZE: u32 = 4;
pub const F64_SIZE: u32 = 8;
pub const VALUE_RANGE_SIZE: u32 = 16;
pub const CHANNEL_LAYOUT_SIZE: u32 = 32;
pub const STREAM_FORMAT_SIZE: u32 = 40;
pub const RANGED_STREAM_FORMAT_SIZE: u32 = 56;

/// The address of a property: selector, scope and element.
#[derive(Clone, Copy, Debug, PartialEq, Eq, Structural)]
pub struct PropertyAddress {
    pub selector: u32,
    pub scope: u32,
    pub element: u32,
}

/// The fixed texts that properties hold.
#[derive(Clone, Copy, Debug, PartialEq, Eq, Structural)]
pub enum Text {
    PluginManufacturer,
    DeviceName,
    DeviceManufacturer,
    DeviceUid,
    ModelUid,
    ResourceBundle,
    StreamName,
}

/// The lists of objects that properties hold.
#[derive(Clone, Copy, Debug, PartialEq, Eq, Structural)]
pub enum ObjectList {
    /// The plug-in's devices: the device.
    PluginDevices,
    /// The device's owned objects: the stream, then every control (only in
    /// the global and output scopes).
    DeviceOwned,
    /// Every control.
    DeviceControls,
    /// The devices related to the device: itself.
    RelatedDevices,
    /// The device's streams: the output stream (only in the global and output scopes).
    DeviceStreams,
    /// No objects (streams and controls own none).
    Empty,
}

/// What a property's data is.
#[derive(Clone, Copy, Debug, PartialEq, Eq, Structural)]
pub enum PropertyValue {
    ClassId(u32),
    ObjectId(u32),
    Number(u32),
    Text(Text),
    Objects(ObjectList),
    /// The name of a channel of the device: "Master" for element 0, else its number.
    ElementName(u32),
    /// The device whose UID is the given string (qualifier), or the unknown object.
    DeviceOfUid,
    /// The number of clients doing IO (zero when none).
    DeviceIsRunning,
    NominalSampleRate,
    AvailableSampleRates,
    PreferredChannelLayout,
    AvailableStreamFormats,
    StreamFormat,
    StreamIsActive,
    VolumeScalar(u32),
    VolumeDecibels(u32),
    DecibelRange,
    ScalarToDecibels,
    DecibelsToScalar,
    Mute(u32),
}

/// A property: the size of its data, the size of the qualifier it needs (if
/// any), whether it can be set, and what its data is.
#[derive(Clone, Copy, Debug, PartialEq, Eq, Structural)]
pub struct PropertyInfo {
    pub data_size: u32,
    pub qualifier_size: Option<u32>,
    pub settable: bool,
    pub value: PropertyValue,
}

/// Why a property was not found.
#[derive(Clone, Copy, Debug, PartialEq, Eq, Structural)]
pub enum LookupError {
    /// The object exists but has no such property.
    UnknownProperty,
    /// There is no such object.
    BadObject,
}

/// A read-only property without qualifier.
pub open spec fn ro(size: u32, value: PropertyValue) -> PropertyInfo {
    PropertyInfo { data_size: size, qualifier_size: None, settable: false, value }
}

/// A settable property without qualifier.
pub open spec fn rw(size: u32, value: PropertyValue) -> PropertyInfo {
    PropertyInfo { data_size: size, qualifier_size: None, settable: true, value }
}

/// The object is one of the controls.
pub open spec fn spec_is_control(id: u32) -> bool {
    FIRST_CTRL_ID <= id <= LAST_CTRL_ID
}

/// The channel of a control (0 for the master).
pub open spec fn spec_control_channel(id: u32) -> u32 {
    ((id - FIRST_CTRL_ID) / 2) as u32
}

/// Whether the object is a control.
pub fn audio_object_is_control(id: u32) -> (r: bool)
    ensures
        r == spec_is_control(id),
{
    FIRST_CTRL_ID <= id && id <= LAST_CTRL_ID
}

/// Whether a control is a volume control (odd ids) rather than a mute control.
pub fn control_is_volume(id: u32) -> (r: bool)
    ensures
        r == (id % 2 == 1),
{
    id % 2 == 1
}

/// The channel index of a control (0 for the master).
pub fn control_channel_index(id: u32) -> (r: u32)
    requires
        id >= FIRST_CTRL_ID,
    ensures
        r == spec_control_channel(id),
{
    (id - FIRST_CTRL_ID) / 2
}

/// Each channel from the master (0) to the last has exactly one mute and one
/// volume control, and every control is one of these.
pub proof fn lemma_controls_cover_channels(channel: u32, volume: bool, id: u32)
    ensures
        channel <= N_CHANNELS ==> {
            let c = (FIRST_CTRL_ID + 2 * channel + if volume { 1int } else { 0int }) as u32;
            spec_is_control(c) && spec_control_channel(c) == channel && (c % 2 == 1) == volume
        },
        spec_is_control(id) ==> spec_control_channel(id) <= N_CHANNELS
            && id == FIRST_CTRL_ID + 2 * spec_control_channel(id) + if id % 2 == 1 { 1int } else { 0int },
{
}

/// The properties of the plug-in object.
pub open spec fn spec_plugin_property(a: PropertyAddress) -> Option<PropertyInfo> {
    if a.scope != SCOPE_GLOBAL || a.element != ELEMENT_MAIN {
        None
    } else if a.selector == SEL_BASE_CLASS {
        Some(ro(CLASS_ID_SIZE, PropertyValue::ClassId(CLASS_OBJECT)))
    } else if a.selector == SEL_CLASS {
        Some(ro(CLASS_ID_SIZE, PropertyValue::ClassId(CLASS_PLUGIN)))
    } else if a.selector == SEL_OWNER {
        Some(ro(OBJECT_ID_SIZE, PropertyValue::ObjectId(UNKNOWN_OBJECT)))
    } else if a.selector == SEL_MANUFACTURER {
        Some(ro(STRING_REF_SIZE, PropertyValue::Text(Text::PluginManufacturer)))
    } else if a.selector == SEL_OWNED_OBJECTS || a.selector == SEL_DEVICE_LIST {
        Some(ro(OBJECT_ID_SIZE, PropertyValue::Objects(ObjectList::PluginDevices)))
    } else if a.selector == SEL_TRANSLATE_UID_TO_DEVICE {
        Some(PropertyInfo {
            data_size: OBJECT_ID_SIZE,
            qualifier_size: Some(STRING_REF_SIZE),
            settable: false,
            value: PropertyValue::DeviceOfUid,
        })
    } else if a.selector == SEL_RESOURCE_BUNDLE {
        Some(ro(STRING_REF_SIZE, PropertyValue::Text(Text::ResourceBundle)))
    } else {
        None
    }
}

/// The scope is the global or the output scope.
pub open spec fn global_or_output(scope: u32) -> bool {
    scope == SCOPE_OUTPUT || scope == SCOPE_GLOBAL
}

/// The properties of the device object.
pub open spec fn spec_device_property(a: PropertyAddress) -> Option<PropertyInfo> {
    if a.selector == SEL_ELEMENT_NAME && a.element <= N_CHANNELS {
        Some(ro(STRING_REF_SIZE, PropertyValue::ElementName(a.element)))
    } else if global_or_output(a.scope) && a.selector == SEL_CAN_BE_DEFAULT_DEVICE {
        Some(ro(U32_SIZE, PropertyValue::Number(1)))
    } else if global_or_output(a.scope) && a.selector == SEL_CAN_BE_DEFAULT_SYSTEM_DEVICE {
        Some(ro(U32_SIZE, PropertyValue::Number(1)))
    } else if global_or_output(a.scope) && a.selector == SEL_PREFERRED_CHANNEL_LAYOUT {
        Some(ro(CHANNEL_LAYOUT_SIZE, PropertyValue::PreferredChannelLayout))
    } else if a.selector == SEL_BASE_CLASS {
        Some(ro(CLASS_ID_SIZE, PropertyValue::ClassId(CLASS_OBJECT)))
    } else if a.selector == SEL_SAFETY_OFFSET {
        Some(ro(U32_SIZE, PropertyValue::Number(0)))
    } else if a.selector == SEL_LATENCY {
        Some(ro(U32_SIZE, PropertyValue::Number(0)))
    } else if a.selector == SEL_CLASS {
        Some(ro(CLASS_ID_SIZE, PropertyValue::ClassId(CLASS_DEVICE)))
    } else if a.selector == SEL_OWNER {
        Some(ro(OBJECT_ID_SIZE, PropertyValue::ObjectId(PLUGIN_ID)))
    } else if a.selector == SEL_NAME {
        Some(ro(STRING_REF_SIZE, PropertyValue::Text(Text::DeviceName)))
    } else if a.selector == SEL_MANUFACTURER {
        Some(ro(STRING_REF_SIZE, PropertyValue::Text(Text::DeviceManufacturer)))
    } else if a.selector == SEL_OWNED_OBJECTS {
        Some(ro((N_DEVICE_OWNED_OBJS * OBJECT_ID_SIZE) as u32, PropertyValue::Objects(ObjectList::DeviceOwned)))
    } else if a.selector == SEL_CONTROL_LIST {
        Some(ro((N_CONTROLS * OBJECT_ID_SIZE) as u32, PropertyValue::Objects(ObjectList::DeviceControls)))
    } else if a.selector == SEL_DEVICE_UID {
        Some(ro(STRING_REF_SIZE, PropertyValue::Text(Text::DeviceUid)))
    } else if a.selector == SEL_MODEL_UID {
        Some(ro(STRING_REF_SIZE, PropertyValue::Text(Text::ModelUid)))
    } else if a.selector == SEL_TRANSPORT_TYPE {
        Some(ro(U32_SIZE, PropertyValue::Number(TRANSPORT_TYPE_AVB)))
    } else if a.selector == SEL_RELATED_DEVICES {
        Some(ro(OBJECT_ID_SIZE, PropertyValue::Objects(ObjectList::RelatedDevices)))
    } else if a.selector == SEL_CLOCK_DOMAIN {
        Some(ro(U32_SIZE, PropertyValue::Number(0)))
    } else if a.selector == SEL_DEVICE_IS_ALIVE {
        Some(ro(U32_SIZE, PropertyValue::Number(1)))
    } else if a.selector == SEL_DEVICE_IS_RUNNING {
        Some(ro(U32_SIZE, PropertyValue::DeviceIsRunning))
    } else if a.selector == SEL_NOMINAL_SAMPLE_RATE {
        Some(ro(F64_SIZE, PropertyValue::NominalSampleRate))
    } else if a.selector == SEL_AVAILABLE_NOMINAL_SAMPLE_RATES {
        Some(ro(VALUE_RANGE_SIZE, PropertyValue::AvailableSampleRates))
    } else if a.selector == SEL_IS_HIDDEN {
        Some(ro(U32_SIZE, PropertyValue::Number(0)))
    } else if a.selector == SEL_ZERO_TIMESTAMP_PERIOD {
        Some(ro(U32_SIZE, PropertyValue::Number(FRAMES_PER_TIMESTAMP)))
    } else if a.selector == SEL_STREAMS {
        Some(ro(OBJECT_ID_SIZE, PropertyValue::Objects(ObjectList::DeviceStreams)))
    } else {
        None
    }
}

/// The properties of the stream object.
pub open spec fn spec_stream_property(a: PropertyAddress) -> Option<PropertyInfo> {
    if a.selector == SEL_BASE_CLASS {
        Some(ro(CLASS_ID_SIZE, PropertyValue::ClassId(CLASS_OBJECT)))
    } else if a.selector == SEL_CLASS {
        Some(ro(CLASS_ID_SIZE, PropertyValue::ClassId(CLASS_STREAM)))
    } else if a.selector == SEL_OWNER {
        Some(ro(OBJECT_ID_SIZE, PropertyValue::ObjectId(DEVICE_ID)))
    } else if a.selector == SEL_OWNED_OBJECTS {
        Some(ro(0, PropertyValue::Objects(ObjectList::Empty)))
    } else if a.selector == SEL_NAME {
        Some(ro(STRING_REF_SIZE, PropertyValue::Text(Text::StreamName)))
    } else if a.selector == SEL_STREAM_DIRECTION {
        Some(ro(U32_SIZE, PropertyValue::Number(0)))
    } else if a.selector == SEL_STREAM_TERMINAL_TYPE {
        Some(ro(U32_SIZE, PropertyValue::Number(0)))
    } else if a.selector == SEL_STREAM_STARTING_CHANNEL {
        Some(ro(U32_SIZE, PropertyValue::Number(1)))
    } else if a.selector == SEL_LATENCY {
        Some(ro(U32_SIZE, PropertyValue::Number(0)))
    } else if a.selector == SEL_AVAILABLE_VIRTUAL_FORMATS || a.selector == SEL_AVAILABLE_PHYSICAL_FORMATS {
        Some(ro(RANGED_STREAM_FORMAT_SIZE, PropertyValue::AvailableStreamFormats))
    } else if a.selector == SEL_VIRTUAL_FORMAT || a.selector == SEL_PHYSICAL_FORMAT {
        Some(ro(STREAM_FORMAT_SIZE, PropertyValue::StreamFormat))
    } else if a.selector == SEL_STREAM_IS_ACTIVE {
        Some(rw(U32_SIZE, PropertyValue::StreamIsActive))
    } else {
        None
    }
}

/// The properties of a control object.
pub open spec fn spec_control_property(is_volume: bool, channel: u32, a: PropertyAddress) -> Option<PropertyInfo> {
    if a.selector == SEL_OWNER {
        Some(ro(OBJECT_ID_SIZE, PropertyValue::ObjectId(DEVICE_ID)))
    } else if a.selector == SEL_OWNED_OBJECTS {
        Some(ro(0, PropertyValue::Objects(ObjectList::Empty)))
    } else if a.selector == SEL_CONTROL_SCOPE {
        Some(ro(U32_SIZE, PropertyValue::Number(SCOPE_OUTPUT)))
    } else if a.selector == SEL_CONTROL_ELEMENT {
        Some(ro(U32_SIZE, PropertyValue::Number(channel)))
    } else if is_volume {
        if a.selector == SEL_BASE_CLASS {
            Some(ro(CLASS_ID_SIZE, PropertyValue::ClassId(CLASS_LEVEL_CONTROL)))
        } else if a.selector == SEL_CLASS {
            Some(ro(CLASS_ID_SIZE, PropertyValue::ClassId(CLASS_VOLUME_CONTROL)))
        } else if a.selector == SEL_LEVEL_SCALAR_VALUE {
            Some(rw(F32_SIZE, PropertyValue::VolumeScalar(channel)))
        } else if a.selector == SEL_LEVEL_DECIBEL_VALUE {
            Some(rw(F32_SIZE, PropertyValue::VolumeDecibels(channel)))
        } else if a.selector == SEL_LEVEL_DECIBEL_RANGE {
            Some(ro(VALUE_RANGE_SIZE, PropertyValue::DecibelRange))
        } else if a.selector == SEL_LEVEL_SCALAR_TO_DECIBELS {
            Some(ro(F32_SIZE, PropertyValue::ScalarToDecibels))
        } else if a.selector == SEL_LEVEL_DECIBELS_TO_SCALAR {
            Some(ro(F32_SIZE, PropertyValue::DecibelsToScalar))
        } else {
            None
        }
    } else {
        if a.selector == SEL_BASE_CLASS {
            Some(ro(CLASS_ID_SIZE, PropertyValue::ClassId(CLASS_BOOLEAN_CONTROL)))
        } else if a.selector == SEL_CLASS {
            Some(ro(CLASS_ID_SIZE, PropertyValue::ClassId(CLASS_MUTE_CONTROL)))
        } else if a.selector == SEL_BOOLEAN_VALUE {
            Some(rw(U32_SIZE, PropertyValue::Mute(channel)))
        } else {
            None
        }
    }
}

/// The property at `a` of object `id`.
pub open spec fn spec_find_property(id: u32, a: PropertyAddress) -> Result<PropertyInfo, LookupError> {
    let found = if id == PLUGIN_ID {
        Some(spec_plugin_property(a))
    } else if id == DEVICE_ID {
        Some(spec_device_property(a))
    } else if id == STREAM_ID {
        Some(spec_stream_property(a))
    } else if spec_is_control(id) {
        Some(spec_control_property(id % 2 == 1, spec_control_channel(id), a))
    } else {
        None
    };
    match found {
        None => Err(LookupError::BadObject),
        Some(None) => Err(LookupError::UnknownProperty),
        Some(Some(p)) => Ok(p),
    }
}

/// A read-only property without qualifier.
fn ro_info(size: u32, value: PropertyValue) -> (r: PropertyInfo)
    ensures
        r == ro(size, value),
{
    PropertyInfo { data_size: size, qualifier_size: None, settable: false, value }
}

/// A settable property without qualifier.
fn rw_info(size: u32, value: PropertyValue) -> (r: PropertyInfo)
    ensures
        r == rw(size, value),
{
    PropertyInfo { data_size: size, qualifier_size: None, settable: true, value }
}

/// Looks up a property of the plug-in object.
pub fn find_plugin_property(a: PropertyAddress) -> (r: Option<PropertyInfo>)
    ensures
        r == spec_plugin_property(a),
{
    if a.scope != SCOPE_GLOBAL || a.element != ELEMENT_MAIN {
        None
    } else if a.selector == SEL_BASE_CLASS {
        Some(ro_info(CLASS_ID_SIZE, PropertyValue::ClassId(CLASS_OBJECT)))
    } else if a.selector == SEL_CLASS {
        Some(ro_info(CLASS_ID_SIZE, PropertyValue::ClassId(CLASS_PLUGIN)))
    } else if a.selector == SEL_OWNER {
        Some(ro_info(OBJECT_ID_SIZE, PropertyValue::ObjectId(UNKNOWN_OBJECT)))
    } else if a.selector == SEL_MANUFACTURER {
        Some(ro_info(STRING_REF_SIZE, PropertyValue::Text(Text::PluginManufacturer)))
    } else if a.selector == SEL_OWNED_OBJECTS || a.selector == SEL_DEVICE_LIST {
        Some(ro_info(OBJECT_ID_SIZE, PropertyValue::Objects(ObjectList::PluginDevices)))
    } else if a.selector == SEL_TRANSLATE_UID_TO_DEVICE {
        Some(PropertyInfo {
            data_size: OBJECT_ID_SIZE,
            qualifier_size: Some(STRING_REF_SIZE),
            settable: false,
            value: PropertyValue::DeviceOfUid,
        })
    } else if a.selector == SEL_RESOURCE_BUNDLE {
        Some(ro_info(STRING_REF_SIZE, PropertyValue::Text(Text::ResourceBundle)))
    } else {
        None
    }
}

fn is_global_or_output(scope: u32) -> (r: bool)
    ensures
        r == global_or_output(scope),
{
    scope == SCOPE_OUTPUT || scope == SCOPE_GLOBAL
}

/// Looks up a property of the device object.
pub fn find_device_property(a: PropertyAddress) -> (r: Option<PropertyInfo>)
    ensures
        r == spec_device_property(a),
{
    let scoped = is_global_or_output(a.scope);
    if a.selector == SEL_ELEMENT_NAME && a.element <= N_CHANNELS {
        Some(ro_info(STRING_REF_SIZE, PropertyValue::ElementName(a.element)))
    } else if scoped && a.selector == SEL_CAN_BE_DEFAULT_DEVICE {
        Some(ro_info(U32_SIZE, PropertyValue::Number(1)))
    } else if scoped && a.selector == SEL_CAN_BE_DEFAULT_SYSTEM_DEVICE {
        Some(ro_info(U32_SIZE, PropertyValue::Number(1)))
    } else if scoped && a.selector == SEL_PREFERRED_CHANNEL_LAYOUT {
        Some(ro_info(CHANNEL_LAYOUT_SIZE, PropertyValue::PreferredChannelLayout))
    } else if a.selector == SEL_BASE_CLASS {
        Some(ro_info(CLASS_ID_SIZE, PropertyValue::ClassId(CLASS_OBJECT)))
    } else if a.selector == SEL_SAFETY_OFFSET {
        Some(ro_info(U32_SIZE, PropertyValue::Number(0)))
    } else if a.selector == SEL_LATENCY {
        Some(ro_info(U32_SIZE, PropertyValue::Number(0)))
    } else if a.selector == SEL_CLASS {
        Some(ro_info(CLASS_ID_SIZE, PropertyValue::ClassId(CLASS_DEVICE)))
    } else if a.selector == SEL_OWNER {
        Some(ro_info(OBJECT_ID_SIZE, PropertyValue::ObjectId(PLUGIN_ID)))
    } else if a.selector == SEL_NAME {
        Some(ro_info(STRING_REF_SIZE, PropertyValue::Text(Text::DeviceName)))
    } else if a.selector == SEL_MANUFACTURER {
        Some(ro_info(STRING_REF_SIZE, PropertyValue::Text(Text::DeviceManufacturer)))
    } else if a.selector == SEL_OWNED_OBJECTS {
        Some(ro_info(N_DEVICE_OWNED_OBJS * OBJECT_ID_SIZE, PropertyValue::Objects(ObjectList::DeviceOwned)))
    } else if a.selector == SEL_CONTROL_LIST {
        Some(ro_info(N_CONTROLS * OBJECT_ID_SIZE, PropertyValue::Objects(ObjectList::DeviceControls)))
    } else if a.selector == SEL_DEVICE_UID {
        Some(ro_info(STRING_REF_SIZE, PropertyValue::Text(Text::DeviceUid)))
    } else if a.selector == SEL_MODEL_UID {
        Some(ro_info(STRING_REF_SIZE, PropertyValue::Text(Text::ModelUid)))
    } else if a.selector == SEL_TRANSPORT_TYPE {
        Some(ro_info(U32_SIZE, PropertyValue::Number(TRANSPORT_TYPE_AVB)))
    } else if a.selector == SEL_RELATED_DEVICES {
        Some(ro_info(OBJECT_ID_SIZE, PropertyValue::Objects(ObjectList::RelatedDevices)))
    } else if a.selector == SEL_CLOCK_DOMAIN {
        Some(ro_info(U32_SIZE, PropertyValue::Number(0)))
    } else if a.selector == SEL_DEVICE_IS_ALIVE {
        Some(ro_info(U32_SIZE, PropertyValue::Number(1)))
    } else if a.selector == SEL_DEVICE_IS_RUNNING {
        Some(ro_info(U32_SIZE, PropertyValue::DeviceIsRunning))
    } else if a.selector == SEL_NOMINAL_SAMPLE_RATE {
        Some(ro_info(F64_SIZE, PropertyValue::NominalSampleRate))
    } else if a.selector == SEL_AVAILABLE_NOMINAL_SAMPLE_RATES {
        Some(ro_info(VALUE_RANGE_SIZE, PropertyValue::AvailableSampleRates))
    } else if a.selector == SEL_IS_HIDDEN {
        Some(ro_info(U32_SIZE, PropertyValue::Number(0)))
    } else if a.selector == SEL_ZERO_TIMESTAMP_PERIOD {
        Some(ro_info(U32_SIZE, PropertyValue::Number(FRAMES_PER_TIMESTAMP)))
    } else if a.selector == SEL_STREAMS {
        Some(ro_info(OBJECT_ID_SIZE, PropertyValue::Objects(ObjectList::DeviceStreams)))
    } else {
        None
    }
}

/// Looks up a property of the stream object.
pub fn find_stream_property(a: PropertyAddress) -> (r: Option<PropertyInfo>)
    ensures
        r == spec_stream_property(a),
{
    let sel = a.selector;
    if sel == SEL_BASE_CLASS {
        Some(ro_info(CLASS_ID_SIZE, PropertyValue::ClassId(CLASS_OBJECT)))
    } else if sel == SEL_CLASS {
        Some(ro_info(CLASS_ID_SIZE, PropertyValue::ClassId(CLASS_STREAM)))
    } else if sel == SEL_OWNER {
        Some(ro_info(OBJECT_ID_SIZE, PropertyValue::ObjectId(DEVICE_ID)))
    } else if sel == SEL_OWNED_OBJECTS {
        Some(ro_info(0, PropertyValue::Objects(ObjectList::Empty)))
    } else if sel == SEL_NAME {
        Some(ro_info(STRING_REF_SIZE, PropertyValue::Text(Text::StreamName)))
    } else if sel == SEL_STREAM_DIRECTION {
        Some(ro_info(U32_SIZE, PropertyValue::Number(0)))
    } else if sel == SEL_STREAM_TERMINAL_TYPE {
        Some(ro_info(U32_SIZE, PropertyValue::Number(0)))
    } else if sel == SEL_STREAM_STARTING_CHANNEL {
        Some(ro_info(U32_SIZE, PropertyValue::Number(1)))
    } else if sel == SEL_LATENCY {
        Some(ro_info(U32_SIZE, PropertyValue::Number(0)))
    } else if sel == SEL_AVAILABLE_VIRTUAL_FORMATS || sel == SEL_AVAILABLE_PHYSICAL_FORMATS {
        Some(ro_info(RANGED_STREAM_FORMAT_SIZE, PropertyValue::AvailableStreamFormats))
    } else if sel == SEL_VIRTUAL_FORMAT || sel == SEL_PHYSICAL_FORMAT {
        Some(ro_info(STREAM_FORMAT_SIZE, PropertyValue::StreamFormat))
    } else if sel == SEL_STREAM_IS_ACTIVE {
        Some(rw_info(U32_SIZE, PropertyValue::StreamIsActive))
    } else {
        None
    }
}

/// Looks up a property of a control object (a volume control if `is_volume`,
/// else a mute control) of the given channel.
pub fn find_control_property(is_volume: bool, channel: u32, a: PropertyAddress) -> (r: Option<PropertyInfo>)
    ensures
        r == spec_control_property(is_volume, channel, a),
{
    let sel = a.selector;
    if sel == SEL_OWNER {
        Some(ro_info(OBJECT_ID_SIZE, PropertyValue::ObjectId(DEVICE_ID)))
    } else if sel == SEL_OWNED_OBJECTS {
        Some(ro_info(0, PropertyValue::Objects(ObjectList::Empty)))
    } else if sel == SEL_CONTROL_SCOPE {
        Some(ro_info(U32_SIZE, PropertyValue::Number(SCOPE_OUTPUT)))
    } else if sel == SEL_CONTROL_ELEMENT {
        Some(ro_info(U32_SIZE, PropertyValue::Number(channel)))
    } else if is_volume {
        if sel == SEL_BASE_CLASS {
            Some(ro_info(CLASS_ID_SIZE, PropertyValue::ClassId(CLASS_LEVEL_CONTROL)))
        } else if sel == SEL_CLASS {
            Some(ro_info(CLASS_ID_SIZE, PropertyValue::ClassId(CLASS_VOLUME_CONTROL)))
        } else if sel == SEL_LEVEL_SCALAR_VALUE {
            Some(rw_info(F32_SIZE, PropertyValue::VolumeScalar(channel)))
        } else if sel == SEL_LEVEL_DECIBEL_VALUE {
            Some(rw_info(F32_SIZE, PropertyValue::VolumeDecibels(channel)))
        } else if sel == SEL_LEVEL_DECIBEL_RANGE {
            Some(ro_info(VALUE_RANGE_SIZE, PropertyValue::DecibelRange))
        } else if sel == SEL_LEVEL_SCALAR_TO_DECIBELS {
            Some(ro_info(F32_SIZE, PropertyValue::ScalarToDecibels))
        } else if sel == SEL_LEVEL_DECIBELS_TO_SCALAR {
            Some(ro_info(F32_SIZE, PropertyValue::DecibelsToScalar))
        } else {
            None
        }
    } else {
        if sel == SEL_BASE_CLASS {
            Some(ro_info(CLASS_ID_SIZE, PropertyValue::ClassId(CLASS_BOOLEAN_CONTROL)))
        } else if sel == SEL_CLASS {
            Some(ro_info(CLASS_ID_SIZE, PropertyValue::ClassId(CLASS_MUTE_CONTROL)))
        } else if sel == SEL_BOOLEAN_VALUE {
            Some(rw_info(U32_SIZE, PropertyValue::Mute(channel)))
        } else {
            None
        }
    }
}

/// Looks up the property at `a` of object `id`: `BadObject` when there is
/// no such object, `UnknownProperty` when the object lacks the property.
pub fn find_property(id: u32, a: PropertyAddress) -> (r: Result<PropertyInfo, LookupError>)
    ensures
        r == spec_find_property(id, a),
{
    let found = if id == PLUGIN_ID {
        find_plugin_property(a)
    } else if id == DEVICE_ID {
        find_device_property(a)
    } else if id == STREAM_ID {
        find_stream_property(a)
    } else if audio_object_is_control(id) {
        find_control_property(control_is_volume(id), control_channel_index(id), a)
    } else {
        return Err(LookupError::BadObject);
    };
    match found {
        None => Err(LookupError::UnknownProperty),
        Some(p) => Ok(p),
    }
}

/// The status code answered for a failed lookup.
pub open spec fn lookup_status(e: LookupError) -> i32 {
    match e {
        LookupError::UnknownProperty => STATUS_UNKNOWN_PROPERTY,
        LookupError::BadObject => STATUS_BAD_OBJECT,
    }
}

fn lookup_error_status(e: LookupError) -> (r: i32)
    ensures
        r == lookup_status(e),
{
    match e {
        LookupError::UnknownProperty => STATUS_UNKNOWN_PROPERTY,
        LookupError::BadObject => STATUS_BAD_OBJECT,
    }
}

/// Whether object `id` has the property at `addr`. `driver_ok` says whether
/// the driver reference handed in is this plug-in's; `addr` is `None` when no
/// address was handed in.
pub fn has_property(driver_ok: bool, id: u32, addr: Option<PropertyAddress>) -> (r: bool)
    ensures
        r == (driver_ok && addr is Some && spec_find_property(id, addr->0) is Ok),
{
    if !driver_ok {
        return false;
    }
    match addr {
        None => false,
        Some(a) => find_property(id, a).is_ok(),
    }
}

/// What `is_property_settable` answers: whether the property can be set, or
/// the status code of the failure. `has_out` says whether a place for the
/// answer was handed in.
pub open spec fn spec_is_property_settable(
    driver_ok: bool,
    id: u32,
    addr: Option<PropertyAddress>,
    has_out: bool,
) -> Result<bool, i32> {
    if !driver_ok {
        Err(STATUS_BAD_OBJECT)
    } else if addr is None || !has_out {
        Err(STATUS_ILLEGAL_OPERATION)
    } else {
        match spec_find_property(id, addr->0) {
            Err(e) => Err(lookup_status(e)),
            Ok(p) => Ok(p.settable),
        }
    }
}

/// Whether the property at `addr` of object `id` can be set.
pub fn is_property_settable(driver_ok: bool, id: u32, addr: Option<PropertyAddress>, has_out: bool) -> (r: Result<bool, i32>)
    ensures
        r == spec_is_property_settable(driver_ok, id, addr, has_out),
{
    if !driver_ok {
        return Err(STATUS_BAD_OBJECT);
    }
    let a = match addr {
        None => return Err(STATUS_ILLEGAL_OPERATION),
        Some(a) => a,
    };
    if !has_out {
        return Err(STATUS_ILLEGAL_OPERATION);
    }
    match find_property(id, a) {
        Err(e) => Err(lookup_error_status(e)),
        Ok(p) => Ok(p.settable),
    }
}

/// What `get_property_data_size` answers: the size in bytes of the
/// property's data, or the status code of the failure.
pub open spec fn spec_get_property_data_size(
    driver_ok: bool,
    id: u32,
    addr: Option<PropertyAddress>,
    has_out: bool,
) -> Result<u32, i32> {
    if !driver_ok {
        Err(STATUS_BAD_OBJECT)
    } else if addr is None || !has_out {
        Err(STATUS_ILLEGAL_OPERATION)
    } else {
        match spec_find_property(id, addr->0) {
            Err(e) => Err(lookup_status(e)),
            Ok(p) => Ok(p.data_size),
        }
    }
}

/// The size in bytes of the data of the property at `addr` of object `id`.
pub fn get_property_data_size(driver_ok: bool, id: u32, addr: Option<PropertyAddress>, has_out: bool) -> (r: Result<u32, i32>)
    ensures
        r == spec_get_property_data_size(driver_ok, id, addr, has_out),
{
    if !driver_ok {
        return Err(STATUS_BAD_OBJECT);
    }
    let a = match addr {
        None => return Err(STATUS_ILLEGAL_OPERATION),
        Some(a) => a,
    };
    if !has_out {
        return Err(STATUS_ILLEGAL_OPERATION);
    }
    match find_property(id, a) {
        Err(e) => Err(lookup_error_status(e)),
        Ok(p) => Ok(p.data_size),
    }
}

/// The checks of a read of a property's data, in the order they are made:
/// the driver reference, the address, the two output places, the lookup, the
/// room handed in for the data, then, where the property needs a qualifier,
/// its presence and size. On success the property to write out.
pub open spec fn spec_get_property_data(
    driver_ok: bool,
    id: u32,
    addr: Option<PropertyAddress>,
    has_written_size: bool,
    has_out: bool,
    data_size: u32,
    has_qualifier: bool,
    qualifier_size: u32,
) -> Result<PropertyInfo, i32> {
    if !driver_ok {
        Err(STATUS_BAD_OBJECT)
    } else if addr is None || !has_written_size || !has_out {
        Err(STATUS_ILLEGAL_OPERATION)
    } else {
        match spec_find_property(id, addr->0) {
            Err(e) => Err(lookup_status(e)),
            Ok(p) => if data_size < p.data_size {
                Err(STATUS_BAD_PROPERTY_SIZE)
            } else {
                match p.qualifier_size {
                    None => Ok(p),
                    Some(q) => if !has_qualifier {
                        Err(STATUS_ILLEGAL_OPERATION)
                    } else if qualifier_size < q {
                        Err(STATUS_BAD_PROPERTY_SIZE)
                    } else {
                        Ok(p)
                    },
                }
            },
        }
    }
}

/// Decides a read of the data of the property at `addr` of object `id`.
pub fn get_property_data(
    driver_ok: bool,
    id: u32,
    addr: Option<PropertyAddress>,
    has_written_size: bool,
    has_out: bool,
    data_size: u32,
    has_qualifier: bool,
    qualifier_size: u32,
) -> (r: Result<PropertyInfo, i32>)
    ensures
        r == spec_get_property_data(driver_ok, id, addr, has_written_size, has_out, data_size, has_qualifier, qualifier_size),
{
    if !driver_ok {
        return Err(STATUS_BAD_OBJECT);
    }
    let a = match addr {
        None => return Err(STATUS_ILLEGAL_OPERATION),
        Some(a) => a,
    };
    if !has_written_size || !has_out {
        return Err(STATUS_ILLEGAL_OPERATION);
    }
    let p = match find_property(id, a) {
        Err(e) => return Err(lookup_error_status(e)),
        Ok(p) => p,
    };
    if data_size < p.data_size {
        return Err(STATUS_BAD_PROPERTY_SIZE);
    }
    match p.qualifier_size {
        None => Ok(p),
        Some(q) => {
            if !has_qualifier {
                Err(STATUS_ILLEGAL_OPERATION)
            } else if qualifier_size < q {
                Err(STATUS_BAD_PROPERTY_SIZE)
            } else {
                Ok(p)
            }
        },
    }
}

/// The checks of a write of a property's data, in the order they are made:
/// the driver reference, the address, the lookup, the data handed in, its
/// size, then whether the property can be set at all. On success the
/// property to change.
pub open spec fn spec_set_property_data(
    driver_ok: bool,
    id: u32,
    addr: Option<PropertyAddress>,
    has_data: bool,
    data_size: u32,
) -> Result<PropertyInfo, i32> {
    if !driver_ok {
        Err(STATUS_BAD_OBJECT)
    } else if addr is None {
        Err(STATUS_ILLEGAL_OPERATION)
    } else {
        match spec_find_property(id, addr->0) {
            Err(e) => Err(lookup_status(e)),
            Ok(p) => if !has_data {
                Err(STATUS_ILLEGAL_OPERATION)
            } else if data_size < p.data_size {
                Err(STATUS_BAD_PROPERTY_SIZE)
            } else if !p.settable {
                Err(STATUS_UNKNOWN_PROPERTY)
            } else {
                Ok(p)
            },
        }
    }
}

/// Decides a write of the data of the property at `addr` of object `id`.
pub fn set_property_data(driver_ok: bool, id: u32, addr: Option<PropertyAddress>, has_data: bool, data_size: u32) -> (r: Result<PropertyInfo, i32>)
    ensures
        r == spec_set_property_data(driver_ok, id, addr, has_data, data_size),
{
    if !driver_ok {
        return Err(STATUS_BAD_OBJECT);
    }
    let a = match addr {
        None => return Err(STATUS_ILLEGAL_OPERATION),
        Some(a) => a,
    };
    let p = match find_property(id, a) {
        Err(e) => return Err(lookup_error_status(e)),
        Ok(p) => p,
    };
    if !has_data {
        Err(STATUS_ILLEGAL_OPERATION)
    } else if data_size < p.data_size {
        Err(STATUS_BAD_PROPERTY_SIZE)
    } else if !p.settable {
        Err(STATUS_UNKNOWN_PROPERTY)
    } else {
        Ok(p)
    }
}

/// A property that can be set can also be read, and the data it takes has
/// the size that a read reports.
pub proof fn lemma_settable_is_readable(id: u32, a: PropertyAddress, data_size: u32)
    requires
        spec_set_property_data(true, id, Some(a), true, data_size) is Ok,
    ensures
        spec_has_readable(id, a),
        spec_get_property_data_size(true, id, Some(a), true) == Ok::<u32, i32>(
            spec_set_property_data(true, id, Some(a), true, data_size)->Ok_0.data_size),
        spec_is_property_settable(true, id, Some(a), true) == Ok::<bool, i32>(true),
{
}

/// The property exists and needs no qualifier.
pub open spec fn spec_has_readable(id: u32, a: PropertyAddress) -> bool {
    spec_find_property(id, a) is Ok && spec_find_property(id, a)->Ok_0.qualifier_size is None
}

/// The three lookup entry points agree: a property exists exactly when its
/// size can be asked and when whether it can be set can be asked.
pub proof fn lemma_entry_points_agree(id: u32, a: PropertyAddress)
    ensures
        has_property_spec(id, a) == spec_get_property_data_size(true, id, Some(a), true) is Ok,
        has_property_spec(id, a) == spec_is_property_settable(true, id, Some(a), true) is Ok,
        !has_property_spec(id, a) ==> spec_get_property_data_size(true, id, Some(a), true)->Err_0
            == spec_is_property_settable(true, id, Some(a), true)->Err_0
            && spec_get_property_data_size(true, id, Some(a), true) == Err::<u32, i32>(
                lookup_status(spec_find_property(id, a)->Err_0)),
{
}

/// The object has the property.
pub open spec fn has_property_spec(id: u32, a: PropertyAddress) -> bool {
    spec_find_property(id, a) is Ok
}

/// The ids of every control, in order.
pub open spec fn control_ids() -> Seq<u32> {
    Seq::new(N_CONTROLS as nat, |i: int| (FIRST_CTRL_ID + i) as u32)
}

/// The objects a list holds; `scope` is the scope of the address it was
/// asked at.
pub open spec fn spec_object_list(list: ObjectList, scope: u32) -> Seq<u32> {
    match list {
        ObjectList::PluginDevices => seq![DEVICE_ID],
        ObjectList::DeviceOwned => if global_or_output(scope) {
            seq![STREAM_ID] + control_ids()
        } else {
            Seq::empty()
        },
        ObjectList::DeviceControls => control_ids(),
        ObjectList::RelatedDevices => seq![DEVICE_ID],
        ObjectList::DeviceStreams => if global_or_output(scope) {
            seq![STREAM_ID]
        } else {
            Seq::empty()
        },
        ObjectList::Empty => Seq::empty(),
    }
}

/// How many of `n_items` items of `item_size` bytes are written into
/// `bytes_available` bytes: as many as fit, at most all of them.
pub open spec fn spec_fitting_count(n_items: nat, item_size: nat, bytes_available: nat) -> nat {
    let room = bytes_available / item_size;
    if n_items <= room { n_items } else { room }
}

/// How many of `n_items` items of `item_size` bytes fit in `bytes_available`
/// bytes, at most all of them.
pub fn fitting_count(n_items: u32, item_size: u32, bytes_available: u32) -> (r: u32)
    requires
        item_size > 0,
    ensures
        r == spec_fitting_count(n_items as nat, item_size as nat, bytes_available as nat),
        r * item_size <= bytes_available,
{
    let room = bytes_available / item_size;
    proof {
        vstd::arithmetic::div_mod::lemma_fundamental_div_mod(bytes_available as int, item_size as int);
        vstd::arithmetic::mul::lemma_mul_is_commutative(room as int, item_size as int);
    }
    if n_items <= room {
        proof {
            vstd::arithmetic::mul::lemma_mul_inequality(n_items as int, room as int, item_size as int);
        }
        n_items
    } else {
        room
    }
}

/// The objects of a list that fit in `bytes_available` bytes, in order.
pub fn object_list(list: ObjectList, scope: u32, bytes_available: u32) -> (ids: Vec<u32>)
    ensures
        ids@ == spec_object_list(list, scope).take(
            spec_fitting_count(spec_object_list(list, scope).len(), OBJECT_ID_SIZE as nat, bytes_available as nat) as int),
{
    let mut all: Vec<u32> = Vec::new();
    let scoped = is_global_or_output(scope);
    match list {
        ObjectList::PluginDevices | ObjectList::RelatedDevices => {
            all.push(DEVICE_ID);
        },
        ObjectList::DeviceStreams => {
            if scoped {
                all.push(STREAM_ID);
            }
        },
        ObjectList::DeviceOwned | ObjectList::DeviceControls => {
            let with_stream = match list {
                ObjectList::DeviceOwned => true,
                _ => false,
            };
            if !with_stream || scoped {
                if with_stream {
                    all.push(STREAM_ID);
                }
                let start: usize = all.len();
                let mut id: u32 = FIRST_CTRL_ID;
                while id <= LAST_CTRL_ID
                    invariant
                        FIRST_CTRL_ID <= id <= LAST_CTRL_ID + 1,
                        all.len() == start + (id - FIRST_CTRL_ID),
                        all@.subrange(start as int, all.len() as int) == control_ids().take(id - FIRST_CTRL_ID),
                        all@.take(start as int) == (if with_stream { seq![STREAM_ID] } else { Seq::<u32>::empty() }),
                        start == if with_stream { 1usize } else { 0usize },
                    decreases LAST_CTRL_ID + 1 - id,
                {
                    let ghost before = all@;
                    all.push(id);
                    proof {
                        assert(all@.subrange(start as int, all.len() as int)
                            =~= before.subrange(start as int, before.len() as int).push(id));
                        assert(control_ids().take(id + 1 - FIRST_CTRL_ID)
                            =~= control_ids().take(id - FIRST_CTRL_ID).push(id));
                        assert(all@.take(start as int) =~= before.take(start as int));
                    }
                    id = id + 1;
                }
                proof {
                    assert(control_ids().take(N_CONTROLS as int) =~= control_ids());
                    assert(all@ =~= all@.take(start as int) + all@.subrange(start as int, all.len() as int));
                }
            }
        },
        ObjectList::Empty => {},
    }
    assert(all@ =~= spec_object_list(list, scope));
    let n = fitting_count(all.len() as u32, OBJECT_ID_SIZE, bytes_available);
    all.truncate(n as usize);
    all
}

/// The string a text property holds.
pub open spec fn spec_text(t: Text) -> Seq<char> {
    match t {
        Text::PluginManufacturer => "GRAME CNCM"@,
        Text::DeviceName => "YESSSS"@,
        Text::DeviceManufacturer => "GRAME"@,
        Text::DeviceUid => "UID"@,
        Text::ModelUid => "ModelUID"@,
        Text::ResourceBundle => ""@,
        Text::StreamName => "Output Stream"@,
    }
}

/// The string a text property holds.
pub fn text(t: Text) -> (r: &'static str)
    ensures
        r@ == spec_text(t),
{
    match t {
        Text::PluginManufacturer => "GRAME CNCM",
        Text::DeviceName => "YESSSS",
        Text::DeviceManufacturer => "GRAME",
        Text::DeviceUid => "UID",
        Text::ModelUid => "ModelUID",
        Text::ResourceBundle => "",
        Text::StreamName => "Output Stream",
    }
}

/// The device a UID names: the device when the UID handed in compares equal
/// to the device's, else the unknown object.
pub fn device_of_uid(uid_matches: bool) -> (r: u32)
    ensures
        r == if uid_matches { DEVICE_ID } else { UNKNOWN_OBJECT },
{
    if uid_matches { DEVICE_ID } else { UNKNOWN_OBJECT }
}

/// The decimal digits of `n`, in ASCII, most significant first.
pub open spec fn decimal_digits(n: nat) -> Seq<u8>
    decreases n,
{
    if n < 10 {
        seq![(48 + n) as u8]
    } else {
        decimal_digits(n / 10).push((48 + n % 10) as u8)
    }
}

/// The ASCII name of a channel of the device: "Master" for channel 0, the
/// channel's number for the others, and "<Unknown>" past the last channel.
pub open spec fn spec_element_name(element: u32) -> Seq<u8> {
    if element == 0 {
        seq![77u8, 97, 115, 116, 101, 114]
    } else if element <= N_CHANNELS {
        decimal_digits(element as nat)
    } else {
        seq![60u8, 85, 110, 107, 110, 111, 119, 110, 62]
    }
}

fn push_decimal(n: u32, out: &mut Vec<u8>)
    ensures
        final(out)@ == old(out)@ + decimal_digits(n as nat),
    decreases n,
{
    if n >= 10 {
        push_decimal(n / 10, out);
    }
    let digit: u8 = (n % 10) as u8;
    out.push(48 + digit);
    assert(final(out)@ =~= old(out)@ + decimal_digits(n as nat));
}

/// The ASCII name of a channel of the device.
pub fn element_name(element: u32) -> (r: Vec<u8>)
    ensures
        r@ == spec_element_name(element),
{
    if element == 0 {
        let r: Vec<u8> = vec![77u8, 97, 115, 116, 101, 114];
        assert(r@ =~= spec_element_name(element));
        r
    } else if element <= N_CHANNELS {
        let mut r: Vec<u8> = Vec::new();
        push_decimal(element, &mut r);
        assert(r@ =~= spec_element_name(element));
        r
    } else {
        let r: Vec<u8> = vec![60u8, 85, 110, 107, 110, 111, 119, 110, 62];
        assert(r@ =~= spec_element_name(element));
        r
    }
}

/// The status of an entry point that only checks the driver reference.
pub fn check_driver(driver_ok: bool) -> (r: i32)
    ensures
        r == if driver_ok { STATUS_NO_ERROR } else { STATUS_BAD_OBJECT },
{
    if driver_ok { STATUS_NO_ERROR } else { STATUS_BAD_OBJECT }
}

/// The status of an entry point that checks the driver reference and the
/// device id (adding or removing a client, a configuration change, the start
/// and end of an IO operation).
pub fn check_device(driver_ok: bool, device_id: u32) -> (r: i32)
    ensures
        r == if driver_ok && device_id == DEVICE_ID { STATUS_NO_ERROR } else { STATUS_BAD_OBJECT },
{
    if driver_ok && device_id == DEVICE_ID { STATUS_NO_ERROR } else { STATUS_BAD_OBJECT }
}

/// The status of an IO operation on a stream: the driver reference, the
/// device id and the stream id must all be this plug-in's.
pub fn check_device_stream(driver_ok: bool, device_id: u32, stream_id: u32) -> (r: i32)
    ensures
        r == if driver_ok && device_id == DEVICE_ID && stream_id == STREAM_ID {
            STATUS_NO_ERROR
        } else {
            STATUS_BAD_OBJECT
        },
{
    if driver_ok && device_id == DEVICE_ID && stream_id == STREAM_ID { STATUS_NO_ERROR } else { STATUS_BAD_OBJECT }
}

/// Creating or destroying a device is not supported: the status once the
/// driver reference is checked.
pub fn unsupported_device_operation(driver_ok: bool) -> (r: i32)
    ensures
        r == if driver_ok { STATUS_UNSUPPORTED_OPERATION } else { STATUS_BAD_OBJECT },
{
    if driver_ok { STATUS_UNSUPPORTED_OPERATION } else { STATUS_BAD_OBJECT }
}

/// Whether the device will do an IO operation, and whether in place: only
/// the writing of the mix, in place.
pub fn will_do_io_operation(driver_ok: bool, device_id: u32, operation: u32) -> (r: Result<(bool, bool), i32>)
    ensures
        r == if !driver_ok || device_id != DEVICE_ID {
            Err::<(bool, bool), i32>(STATUS_BAD_OBJECT)
        } else {
            Ok((operation == IO_OPERATION_WRITE_MIX, operation == IO_OPERATION_WRITE_MIX))
        },
{
    if !driver_ok || device_id != DEVICE_ID {
        return Err(STATUS_BAD_OBJECT);
    }
    let will = operation == IO_OPERATION_WRITE_MIX;
    Ok((will, will))
}

/// The type of plug-in this is (the audio server plug-in type).
pub open spec fn plugin_type_uuid() -> Seq<u8> {
    seq![0x44u8, 0x3A, 0xBA, 0xB8, 0xE7, 0xB3, 0x49, 0x1A, 0xB9, 0x85, 0xBE, 0xB9, 0x18, 0x70, 0x30, 0xDB]
}

/// The interface every plug-in supports.
pub open spec fn unknown_interface_uuid() -> Seq<u8> {
    seq![0x00u8, 0x00, 0x00, 0x00, 0x00, 0x00, 0x00, 0x00, 0xC0, 0x00, 0x00, 0x00, 0x00, 0x00, 0x00, 0x46]
}

/// The audio server plug-in driver interface.
pub open spec fn driver_interface_uuid() -> Seq<u8> {
    seq![0xEEu8, 0xA5, 0x77, 0x3D, 0xCC, 0x43, 0x49, 0xF1, 0x8E, 0x00, 0x8F, 0x96, 0xE7, 0xD2, 0x3B, 0x17]
}

/// The status answered for an interface that is not supported.
pub const STATUS_NO_INTERFACE: i32 = -2147483644;

fn bytes_equal(a: &[u8], b: &[u8]) -> (r: bool)
    ensures
        r == (a@ == b@),
{
    if a.len() != b.len() {
        return false;
    }
    let mut i: usize = 0;
    while i < a.len()
        invariant
            a.len() == b.len(),
            i <= a.len(),
            a@.take(i as int) == b@.take(i as int),
        decreases a.len() - i,
    {
        if a[i] != b[i] {
            assert(a@[i as int] != b@[i as int]);
            return false;
        }
        assert(a@.take(i + 1) =~= a@.take(i as int).push(a@[i as int]));
        assert(b@.take(i + 1) =~= b@.take(i as int).push(b@[i as int]));
        i = i + 1;
    }
    assert(a@ =~= a@.take(i as int));
    assert(b@ =~= b@.take(i as int));
    true
}

/// Whether the requested type is the type of this plug-in (the factory then
/// hands out the driver).
pub fn is_plugin_type(requested: &[u8]) -> (r: bool)
    ensures
        r == (requested@ == plugin_type_uuid()),
{
    let expected: [u8; 16] = [0x44, 0x3A, 0xBA, 0xB8, 0xE7, 0xB3, 0x49, 0x1A, 0xB9, 0x85, 0xBE, 0xB9, 0x18, 0x70, 0x30, 0xDB];
    assert(expected@ =~= plugin_type_uuid());
    bytes_equal(requested, &expected)
}

/// Whether the interface is one the plug-in supports: the unknown interface
/// or the driver interface.
pub fn is_supported_interface(requested: &[u8]) -> (r: bool)
    ensures
        r == (requested@ == unknown_interface_uuid() || requested@ == driver_interface_uuid()),
{
    let unknown: [u8; 16] = [0x00, 0x00, 0x00, 0x00, 0x00, 0x00, 0x00, 0x00, 0xC0, 0x00, 0x00, 0x00, 0x00, 0x00, 0x00, 0x46];
    let driver: [u8; 16] = [0xEE, 0xA5, 0x77, 0x3D, 0xCC, 0x43, 0x49, 0xF1, 0x8E, 0x00, 0x8F, 0x96, 0xE7, 0xD2, 0x3B, 0x17];
    assert(unknown@ =~= unknown_interface_uuid());
    assert(driver@ =~= driver_interface_uuid());
    bytes_equal(requested, &unknown) || bytes_equal(requested, &driver)
}

/// The plug-in's reference count.
pub struct PluginRefCount {
    count: u32,
}

impl PluginRefCount {
    /// The number of references held.
    pub closed spec fn spec_count(&self) -> u32 {
        self.count
    }

    /// No references held.
    pub fn new() -> (r: PluginRefCount)
        ensures
            r.spec_count() == 0,
    {
        PluginRefCount { count: 0 }
    }

    /// The number of references held.
    pub fn count(&self) -> (r: u32)
        ensures
            r == self.spec_count(),
    {
        self.count
    }

    /// Takes a reference and answers the new count; answers 0 and takes none
    /// when the driver reference is not this plug-in's.
    pub fn add_ref(&mut self, driver_ok: bool) -> (r: u32)
        requires
            driver_ok ==> old(self).spec_count() < u32::MAX,
        ensures
            driver_ok ==> final(self).spec_count() == old(self).spec_count() + 1 && r == final(self).spec_count(),
            !driver_ok ==> final(self).spec_count() == old(self).spec_count() && r == 0,
    {
        if !driver_ok {
            return 0;
        }
        self.count = self.count + 1;
        self.count
    }

    /// Drops a reference and answers the new count; answers 0 and drops none
    /// when the driver reference is not this plug-in's.
    pub fn release(&mut self, driver_ok: bool) -> (r: u32)
        requires
            driver_ok ==> old(self).spec_count() > 0,
        ensures
            driver_ok ==> final(self).spec_count() == old(self).spec_count() - 1 && r == final(self).spec_count(),
            !driver_ok ==> final(self).spec_count() == old(self).spec_count() && r == 0,
    {
        if !driver_ok {
            return 0;
        }
        self.count = self.count - 1;
        self.count
    }

    /// Answers a request for an interface: on success a reference is taken
    /// (the count wraps around) and the driver is to be handed out.
    pub fn query_interface(&mut self, driver_ok: bool, requested: &[u8], has_out: bool) -> (r: i32)
        ensures
            r == if !driver_ok {
                STATUS_BAD_OBJECT
            } else if !has_out {
                STATUS_ILLEGAL_OPERATION
            } else if requested@ == unknown_interface_uuid() || requested@ == driver_interface_uuid() {
                STATUS_NO_ERROR
            } else {
                STATUS_NO_INTERFACE
            },
            final(self).spec_count() == if r == STATUS_NO_ERROR {
                if old(self).spec_count() == u32::MAX { 0 } else { (old(self).spec_count() + 1) as u32 }
            } else {
                old(self).spec_count()
            },
    {
        if !driver_ok {
            return STATUS_BAD_OBJECT;
        }
        if !has_out {
            return STATUS_ILLEGAL_OPERATION;
        }
        if is_supported_interface(requested) {
            self.count = self.count.wrapping_add(1);
            STATUS_NO_ERROR
        } else {
            STATUS_NO_INTERFACE
        }
    }
}

/// The device's IO state: how many clients do IO (none, or a positive
/// number), and the current zero time stamp as a frame count and a host time.
pub struct IOInfo {
    n_active_clients: Option<u32>,
    current_frame_timestamp: u64,
    current_host_timestamp: u64,
}

/// The frame count and host time of the zero time stamp that holds at host
/// time `now`: the last one that starts at or before `now`, counting periods
/// of `ticks` host ticks and `FRAMES_PER_TIMESTAMP` frames from the current one.
pub open spec fn spec_zero_timestamp(frame: u64, host: u64, now: u64, ticks: u64) -> (int, int) {
    let n = (now - host) / (ticks as int);
    (frame + FRAMES_PER_TIMESTAMP * n, host + ticks * n)
}

impl IOInfo {
    /// The number of clients doing IO, `None` when none does.
    pub closed spec fn spec_clients(&self) -> Option<u32> {
        self.n_active_clients
    }

    /// The frame count of the current zero time stamp.
    pub closed spec fn spec_frame(&self) -> u64 {
        self.current_frame_timestamp
    }

    /// The host time of the current zero time stamp.
    pub closed spec fn spec_host(&self) -> u64 {
        self.current_host_timestamp
    }

    /// A count of clients is never zero.
    pub open spec fn wf(&self) -> bool {
        self.spec_clients() matches Some(n) ==> n > 0
    }

    /// No client does IO and the clock stands at zero.
    pub fn new() -> (r: IOInfo)
        ensures
            r.wf(),
            r.spec_clients() is None,
            r.spec_frame() == 0,
            r.spec_host() == 0,
    {
        IOInfo { n_active_clients: None, current_frame_timestamp: 0, current_host_timestamp: 0 }
    }

    /// The number of clients doing IO (0 when none does), as the device's
    /// "is running" property reports it.
    pub fn n_active_clients(&self) -> (r: u32)
        ensures
            r == match self.spec_clients() {
                Some(n) => n,
                None => 0,
            },
    {
        match self.n_active_clients {
            Some(n) => n,
            None => 0,
        }
    }

    /// The host time of the current zero time stamp.
    pub fn host_timestamp(&self) -> (r: u64)
        ensures
            r == self.spec_host(),
    {
        self.current_host_timestamp
    }

    /// The frame count of the current zero time stamp.
    pub fn frame_timestamp(&self) -> (r: u64)
        ensures
            r == self.spec_frame(),
    {
        self.current_frame_timestamp
    }

    /// A client starts IO at host time `now`. The first one starts the clock
    /// at `now`, frame 0; the others only count. A count that would overflow
    /// is refused with an illegal operation.
    pub fn start_io(&mut self, driver_ok: bool, device_id: u32, now: u64) -> (r: i32)
        requires
            old(self).wf(),
        ensures
            final(self).wf(),
            r == if !driver_ok || device_id != DEVICE_ID {
                STATUS_BAD_OBJECT
            } else if old(self).spec_clients() == Some(u32::MAX) {
                STATUS_ILLEGAL_OPERATION
            } else {
                STATUS_NO_ERROR
            },
            r != STATUS_NO_ERROR ==> *final(self) == *old(self),
            r == STATUS_NO_ERROR ==> final(self).spec_clients() == clients_after_start(old(self).spec_clients()),
            r == STATUS_NO_ERROR ==> match old(self).spec_clients() {
                None => final(self).spec_host() == now && final(self).spec_frame() == 0,
                Some(n) => final(self).spec_host() == old(self).spec_host()
                    && final(self).spec_frame() == old(self).spec_frame(),
            },
    {
        if !driver_ok || device_id != DEVICE_ID {
            return STATUS_BAD_OBJECT;
        }
        match self.n_active_clients {
            Some(n) => {
                if n == u32::MAX {
                    return STATUS_ILLEGAL_OPERATION;
                }
                self.n_active_clients = Some(n + 1);
            },
            None => {
                self.current_host_timestamp = now;
                self.current_frame_timestamp = 0;
                self.n_active_clients = Some(1);
            },
        }
        STATUS_NO_ERROR
    }

    /// A client stops IO. Stopping when no client does IO is an illegal
    /// operation; the last one to stop leaves none.
    pub fn stop_io(&mut self, driver_ok: bool, device_id: u32) -> (r: i32)
        requires
            old(self).wf(),
        ensures
            final(self).wf(),
            r == if !driver_ok || device_id != DEVICE_ID {
                STATUS_BAD_OBJECT
            } else if old(self).spec_clients() is None {
                STATUS_ILLEGAL_OPERATION
            } else {
                STATUS_NO_ERROR
            },
            r != STATUS_NO_ERROR ==> *final(self) == *old(self),
            r == STATUS_NO_ERROR ==> final(self).spec_host() == old(self).spec_host()
                && final(self).spec_frame() == old(self).spec_frame()
                && final(self).spec_clients() == clients_after_stop(old(self).spec_clients()),
    {
        if !driver_ok || device_id != DEVICE_ID {
            return STATUS_BAD_OBJECT;
        }
        match self.n_active_clients {
            None => STATUS_ILLEGAL_OPERATION,
            Some(n) => {
                if n == 1 {
                    self.n_active_clients = None;
                } else {
                    self.n_active_clients = Some(n - 1);
                }
                STATUS_NO_ERROR
            },
        }
    }

    /// Moves the zero time stamp forward to the last one at or before host
    /// time `now` and answers it as (frame count, host time). Each period is
    /// `ticks` host ticks long and `FRAMES_PER_TIMESTAMP` frames long.
    pub fn get_zero_timestamp(&mut self, driver_ok: bool, device_id: u32, now: u64, ticks: u64) -> (r: Result<(u64, u64), i32>)
        requires
            ticks > 0,
            driver_ok && device_id == DEVICE_ID ==> now >= old(self).spec_host()
                && spec_zero_timestamp(old(self).spec_frame(), old(self).spec_host(), now, ticks).0 <= u64::MAX,
        ensures
            !driver_ok || device_id != DEVICE_ID ==> r == Err::<(u64, u64), i32>(STATUS_BAD_OBJECT)
                && *final(self) == *old(self),
            driver_ok && device_id == DEVICE_ID ==> {
                let z = spec_zero_timestamp(old(self).spec_frame(), old(self).spec_host(), now, ticks);
                &&& r is Ok
                &&& r->Ok_0.0 == z.0 && r->Ok_0.1 == z.1
                &&& final(self).spec_frame() == z.0 && final(self).spec_host() == z.1
                &&& final(self).spec_clients() == old(self).spec_clients()
                &&& final(self).spec_host() <= now < final(self).spec_host() + ticks
            },
    {
        if !driver_ok || device_id != DEVICE_ID {
            return Err(STATUS_BAD_OBJECT);
        }
        let elapsed = now - self.current_host_timestamp;
        let n = elapsed / ticks;
        proof {
            vstd::arithmetic::div_mod::lemma_fundamental_div_mod(elapsed as int, ticks as int);
            vstd::arithmetic::mul::lemma_mul_is_commutative(n as int, ticks as int);
            assert(ticks * n <= elapsed) by (nonlinear_arith)
                requires ticks * n + elapsed % ticks == elapsed, elapsed % ticks >= 0;
            assert(FRAMES_PER_TIMESTAMP as u64 * n <= u64::MAX) by (nonlinear_arith)
                requires self.current_frame_timestamp + FRAMES_PER_TIMESTAMP * n <= u64::MAX;
        }
        self.current_host_timestamp = self.current_host_timestamp + ticks * n;
        self.current_frame_timestamp = self.current_frame_timestamp + (FRAMES_PER_TIMESTAMP as u64) * n;
        Ok((self.current_frame_timestamp, self.current_host_timestamp))
    }
}

/// Host ticks between two zero time stamps, from the host clock's time base
/// (nanoseconds per tick as `numer / denom`).
pub fn ticks_per_timestamp(numer: u32, denom: u32) -> (r: u64)
    requires
        denom > 0,
        TIMESTAMP_PERIOD_NANOSECS * numer <= u64::MAX,
        TIMESTAMP_PERIOD_NANOSECS * numer / (denom as int) > 0,
    ensures
        r == TIMESTAMP_PERIOD_NANOSECS * numer / (denom as int),
        r > 0,
{
    TIMESTAMP_PERIOD_NANOSECS * (numer as u64) / (denom as u64)
}

/// The count of clients once one more starts IO.
pub open spec fn clients_after_start(c: Option<u32>) -> Option<u32> {
    match c {
        None => Some(1u32),
        Some(n) => Some((n + 1) as u32),
    }
}

/// The count of clients once one stops IO.
pub open spec fn clients_after_stop(c: Option<u32>) -> Option<u32> {
    match c {
        Some(n) => if n == 1 { None } else { Some((n - 1) as u32) },
        None => None,
    }
}

/// A client that starts IO and stops it again leaves the count of clients as
/// it was.
pub proof fn lemma_start_stop_io(clients: Option<u32>)
    requires
        clients matches Some(n) ==> 0 < n < u32::MAX,
    ensures
        clients_after_stop(clients_after_start(clients)) == clients,
{
}

/// The state behind the device's settable flags: whether the output stream
/// is active, and the mute flag of the master (channel 0) and of each
/// channel.
pub struct DeviceFlags {
    stream_active: bool,
    mute: Vec<bool>,
}

/// The value a flag property reads as: 1 when set, 0 when not.
pub open spec fn flag_value(b: bool) -> u32 {
    if b { 1 } else { 0 }
}

impl DeviceFlags {
    pub closed spec fn spec_stream_active(&self) -> bool {
        self.stream_active
    }

    /// The mute flags, by channel.
    pub closed spec fn spec_mute(&self) -> Seq<bool> {
        self.mute@
    }

    /// There is a mute flag for the master and for each channel.
    pub open spec fn wf(&self) -> bool {
        self.spec_mute().len() == N_CHANNELS + 1
    }

    /// The output stream inactive and nothing muted.
    pub fn new() -> (r: DeviceFlags)
        ensures
            r.wf(),
            !r.spec_stream_active(),
            forall|c: int| 0 <= c <= N_CHANNELS ==> !(#[trigger] r.spec_mute()[c]),
    {
        let mut mute: Vec<bool> = Vec::new();
        let mut i: u32 = 0;
        while i <= N_CHANNELS
            invariant
                i <= N_CHANNELS + 1,
                mute@.len() == i,
                forall|c: int| 0 <= c < i ==> !(#[trigger] mute@[c]),
            decreases N_CHANNELS + 1 - i,
        {
            mute.push(false);
            i = i + 1;
        }
        DeviceFlags { stream_active: false, mute }
    }

    /// What a flag property reads as: `None` for a property that is not a
    /// flag of this state.
    pub open spec fn spec_read(&self, v: PropertyValue) -> Option<u32> {
        match v {
            PropertyValue::StreamIsActive => Some(flag_value(self.spec_stream_active())),
            PropertyValue::Mute(c) => if c <= N_CHANNELS { Some(flag_value(self.spec_mute()[c as int])) } else { None },
            _ => None,
        }
    }

    /// Reads a flag property.
    pub fn read(&self, v: PropertyValue) -> (r: Option<u32>)
        requires
            self.wf(),
        ensures
            r == self.spec_read(v),
    {
        match v {
            PropertyValue::StreamIsActive => Some(if self.stream_active { 1 } else { 0 }),
            PropertyValue::Mute(c) => {
                if c <= N_CHANNELS {
                    Some(if self.mute[c as usize] { 1 } else { 0 })
                } else {
                    None
                }
            },
            _ => None,
        }
    }

    /// Writes a flag property: any nonzero `data` sets the flag. Returns
    /// whether `v` is a flag of this state; nothing else changes.
    pub fn write(&mut self, v: PropertyValue, data: u32) -> (r: bool)
        requires
            old(self).wf(),
        ensures
            final(self).wf(),
            r == old(self).spec_read(v) is Some,
            r ==> final(self).spec_read(v) == Some(flag_value(data != 0)),
            forall|w: PropertyValue| w != v ==> #[trigger] final(self).spec_read(w) == old(self).spec_read(w),
    {
        match v {
            PropertyValue::StreamIsActive => {
                self.stream_active = data != 0;
                true
            },
            PropertyValue::Mute(c) => {
                if c <= N_CHANNELS {
                    self.mute.set(c as usize, data != 0);
                    true
                } else {
                    false
                }
            },
            _ => false,
        }
    }
}

/// The properties whose values change when the property at `a` of a control
/// or stream is set: a volume's scalar and decibel values change together.
pub open spec fn spec_changed_properties(v: PropertyValue, a: PropertyAddress) -> Seq<PropertyAddress> {
    match v {
        PropertyValue::VolumeScalar(_) => seq![a, PropertyAddress { selector: SEL_LEVEL_DECIBEL_VALUE, ..a }],
        PropertyValue::VolumeDecibels(_) => seq![a, PropertyAddress { selector: SEL_LEVEL_SCALAR_VALUE, ..a }],
        _ => seq![a],
    }
}

/// The properties the host is told have changed after the property at `a`,
/// holding `v`, was set.
pub fn changed_properties(v: PropertyValue, a: PropertyAddress) -> (r: Vec<PropertyAddress>)
    ensures
        r@ == spec_changed_properties(v, a),
{
    let mut r: Vec<PropertyAddress> = Vec::new();
    r.push(a);
    match v {
        PropertyValue::VolumeScalar(_) => {
            r.push(PropertyAddress { selector: SEL_LEVEL_DECIBEL_VALUE, ..a });
        },
        PropertyValue::VolumeDecibels(_) => {
            r.push(PropertyAddress { selector: SEL_LEVEL_SCALAR_VALUE, ..a });
        },
        _ => {},
    }
    assert(r@ =~= spec_changed_properties(v, a));
    r
}

/// What the device keeps can be set through its properties, whatever the
/// scope and element asked for: a mute control's boolean value, a volume
/// control's scalar and decibel values, and the stream's is-active flag are
/// found on their objects as four-byte values without qualifier, and are
/// settable; the flags among them are ones that the device's state holds.
pub proof fn law_stored_values_are_settable(id: u32, scope: u32, element: u32, flags: DeviceFlags)
    ensures
        FIRST_CTRL_ID <= id <= LAST_CTRL_ID && id % 2 == 0 ==> {
            &&& spec_find_property(id, PropertyAddress { selector: SEL_BOOLEAN_VALUE, scope, element })
                == Ok::<PropertyInfo, LookupError>(PropertyInfo {
                    data_size: 4,
                    qualifier_size: None,
                    settable: true,
                    value: PropertyValue::Mute(((id - FIRST_CTRL_ID) / 2) as u32),
                })
            &&& flags.spec_read(PropertyValue::Mute(((id - FIRST_CTRL_ID) / 2) as u32)) is Some
        },
        FIRST_CTRL_ID <= id <= LAST_CTRL_ID && id % 2 == 1 ==> {
            &&& spec_find_property(id, PropertyAddress { selector: SEL_LEVEL_SCALAR_VALUE, scope, element })
                == Ok::<PropertyInfo, LookupError>(PropertyInfo {
                    data_size: 4,
                    qualifier_size: None,
                    settable: true,
                    value: PropertyValue::VolumeScalar(((id - FIRST_CTRL_ID) / 2) as u32),
                })
            &&& spec_find_property(id, PropertyAddress { selector: SEL_LEVEL_DECIBEL_VALUE, scope, element })
                == Ok::<PropertyInfo, LookupError>(PropertyInfo {
                    data_size: 4,
                    qualifier_size: None,
                    settable: true,
                    value: PropertyValue::VolumeDecibels(((id - FIRST_CTRL_ID) / 2) as u32),
                })
        },
        spec_find_property(STREAM_ID, PropertyAddress { selector: SEL_STREAM_IS_ACTIVE, scope, element })
            == Ok::<PropertyInfo, LookupError>(PropertyInfo {
                data_size: 4,
                qualifier_size: None,
                settable: true,
                value: PropertyValue::StreamIsActive,
            }),
        flags.spec_read(PropertyValue::StreamIsActive) is Some,
{
}

} // verus!
