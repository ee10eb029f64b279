use syfala::hal::{
    changed_properties,
    DeviceFlags,
    CLASS_PLUGIN,
    DEVICE_ID,
    ELEMENT_MAIN,
    IOInfo,
    IO_OPERATION_WRITE_MIX,
    LookupError,
    ObjectList,
    PLUGIN_ID,
    PluginRefCount,
    PropertyAddress,
    PropertyValue,
    SCOPE_GLOBAL,
    SCOPE_OUTPUT,
    SEL_AVAILABLE_PHYSICAL_FORMATS,
    SEL_BOOLEAN_VALUE,
    SEL_CAN_BE_DEFAULT_DEVICE,
    SEL_CLASS,
    SEL_CONTROL_ELEMENT,
    SEL_CONTROL_LIST,
    SEL_DEVICE_LIST,
    SEL_ELEMENT_NAME,
    SEL_LEVEL_DECIBEL_VALUE,
    SEL_LEVEL_SCALAR_VALUE,
    SEL_NAME,
    SEL_NOMINAL_SAMPLE_RATE,
    SEL_OWNED_OBJECTS,
    SEL_STREAMS,
    SEL_STREAM_IS_ACTIVE,
    SEL_TRANSLATE_UID_TO_DEVICE,
    SEL_TRANSPORT_TYPE,
    SEL_VIRTUAL_FORMAT,
    SEL_ZERO_TIMESTAMP_PERIOD,
    STATUS_BAD_OBJECT,
    STATUS_BAD_PROPERTY_SIZE,
    STATUS_ILLEGAL_OPERATION,
    STATUS_NO_ERROR,
    STATUS_NO_INTERFACE,
    STATUS_UNKNOWN_PROPERTY,
    STATUS_UNSUPPORTED_OPERATION,
    STREAM_ID,
    TRANSPORT_TYPE_AVB,
    Text,
    UNKNOWN_OBJECT,
    audio_object_is_control,
    check_device,
    check_device_stream,
    check_driver,
    control_channel_index,
    control_is_volume,
    device_of_uid,
    element_name,
    find_control_property,
    find_device_property,
    find_plugin_property,
    find_property,
    find_stream_property,
    fitting_count,
    get_property_data,
    get_property_data_size,
    has_property,
    is_plugin_type,
    is_property_settable,
    is_supported_interface,
    object_list,
    set_property_data,
    text,
    ticks_per_timestamp,
    unsupported_device_operation,
    will_do_io_operation,
};

fn addr(selector: u32, scope: u32, element: u32) -> PropertyAddress {
    PropertyAddress { selector, scope, element }
}

fn g(selector: u32) -> PropertyAddress {
    addr(selector, SCOPE_GLOBAL, ELEMENT_MAIN)
}

#[test]
fn control_ids() {
    assert!(!audio_object_is_control(3));
    assert!(audio_object_is_control(4));
    assert!(audio_object_is_control(37));
    assert!(!audio_object_is_control(38));
    assert!(!control_is_volume(4));
    assert!(control_is_volume(5));
    assert_eq!(control_channel_index(4), 0);
    assert_eq!(control_channel_index(5), 0);
    assert_eq!(control_channel_index(6), 1);
    assert_eq!(control_channel_index(37), 16);
}

#[test]
fn plugin_properties() {
    let p = find_property(PLUGIN_ID, g(SEL_CLASS)).unwrap();
    assert_eq!(p.value, PropertyValue::ClassId(CLASS_PLUGIN));
    assert_eq!(p.data_size, 4);
    assert!(!p.settable);
    let t = find_property(PLUGIN_ID, g(SEL_TRANSLATE_UID_TO_DEVICE)).unwrap();
    assert_eq!(t.qualifier_size, Some(8));
    assert_eq!(find_property(PLUGIN_ID, addr(SEL_CLASS, SCOPE_OUTPUT, 0)), Err(LookupError::UnknownProperty));
    assert_eq!(find_property(PLUGIN_ID, addr(SEL_CLASS, SCOPE_GLOBAL, 1)), Err(LookupError::UnknownProperty));
    assert_eq!(find_plugin_property(g(SEL_DEVICE_LIST)).unwrap().value, PropertyValue::Objects(ObjectList::PluginDevices));
}

#[test]
fn device_properties() {
    let owned = find_property(DEVICE_ID, g(SEL_OWNED_OBJECTS)).unwrap();
    assert_eq!(owned.data_size, 35 * 4);
    let controls = find_device_property(g(SEL_CONTROL_LIST)).unwrap();
    assert_eq!(controls.data_size, 34 * 4);
    assert_eq!(find_property(DEVICE_ID, g(SEL_ZERO_TIMESTAMP_PERIOD)).unwrap().value, PropertyValue::Number(24000));
    assert_eq!(find_property(DEVICE_ID, g(SEL_NOMINAL_SAMPLE_RATE)).unwrap().data_size, 8);
    assert_eq!(
        find_property(DEVICE_ID, addr(SEL_ELEMENT_NAME, SCOPE_OUTPUT, 16)).unwrap().value,
        PropertyValue::ElementName(16)
    );
    assert_eq!(find_property(DEVICE_ID, addr(SEL_ELEMENT_NAME, SCOPE_OUTPUT, 17)), Err(LookupError::UnknownProperty));
    assert!(find_property(DEVICE_ID, addr(SEL_CAN_BE_DEFAULT_DEVICE, SCOPE_OUTPUT, 0)).is_ok());
    assert!(find_property(DEVICE_ID, addr(SEL_CAN_BE_DEFAULT_DEVICE, 0x696e7074, 0)).is_err());
    assert_eq!(find_property(DEVICE_ID, g(SEL_TRANSPORT_TYPE)).unwrap().value, PropertyValue::Number(TRANSPORT_TYPE_AVB));
}

#[test]
fn stream_and_control_properties() {
    assert_eq!(find_stream_property(g(SEL_OWNED_OBJECTS)).unwrap().data_size, 0);
    assert!(find_property(STREAM_ID, g(SEL_STREAM_IS_ACTIVE)).unwrap().settable);
    assert_eq!(find_property(STREAM_ID, g(SEL_VIRTUAL_FORMAT)).unwrap().data_size, 40);
    assert_eq!(find_property(STREAM_ID, g(SEL_AVAILABLE_PHYSICAL_FORMATS)).unwrap().data_size, 56);
    let vol = find_property(7, g(SEL_LEVEL_SCALAR_VALUE)).unwrap();
    assert_eq!(vol.value, PropertyValue::VolumeScalar(1));
    assert!(vol.settable);
    assert_eq!(find_property(7, g(SEL_BOOLEAN_VALUE)), Err(LookupError::UnknownProperty));
    let mute = find_control_property(false, 3, g(SEL_BOOLEAN_VALUE)).unwrap();
    assert_eq!(mute.value, PropertyValue::Mute(3));
    assert_eq!(find_property(8, g(SEL_CONTROL_ELEMENT)).unwrap().value, PropertyValue::Number(2));
    assert_eq!(find_property(99, g(SEL_CLASS)), Err(LookupError::BadObject));
    assert_eq!(find_property(0, g(SEL_CLASS)), Err(LookupError::BadObject));
}

#[test]
fn lookup_entry_points() {
    assert!(has_property(true, DEVICE_ID, Some(g(SEL_NAME))));
    assert!(!has_property(false, DEVICE_ID, Some(g(SEL_NAME))));
    assert!(!has_property(true, DEVICE_ID, None));
    assert_eq!(is_property_settable(true, STREAM_ID, Some(g(SEL_STREAM_IS_ACTIVE)), true), Ok(true));
    assert_eq!(is_property_settable(true, STREAM_ID, Some(g(SEL_NAME)), true), Ok(false));
    assert_eq!(is_property_settable(false, STREAM_ID, Some(g(SEL_NAME)), true), Err(STATUS_BAD_OBJECT));
    assert_eq!(is_property_settable(true, STREAM_ID, Some(g(SEL_NAME)), false), Err(STATUS_ILLEGAL_OPERATION));
    assert_eq!(is_property_settable(true, 50, Some(g(SEL_NAME)), true), Err(STATUS_BAD_OBJECT));
    assert_eq!(get_property_data_size(true, DEVICE_ID, Some(g(SEL_STREAMS)), true), Ok(4));
    assert_eq!(get_property_data_size(true, DEVICE_ID, Some(g(0x12345678)), true), Err(STATUS_UNKNOWN_PROPERTY));
    assert_eq!(get_property_data_size(true, DEVICE_ID, None, true), Err(STATUS_ILLEGAL_OPERATION));
}

#[test]
fn reading_property_data() {
    let ok = get_property_data(true, DEVICE_ID, Some(g(SEL_NAME)), true, true, 8, false, 0).unwrap();
    assert_eq!(ok.value, PropertyValue::Text(Text::DeviceName));
    assert_eq!(get_property_data(true, DEVICE_ID, Some(g(SEL_NAME)), true, true, 7, false, 0), Err(STATUS_BAD_PROPERTY_SIZE));
    assert_eq!(get_property_data(true, DEVICE_ID, Some(g(SEL_NAME)), false, true, 8, false, 0), Err(STATUS_ILLEGAL_OPERATION));
    let uid = Some(g(SEL_TRANSLATE_UID_TO_DEVICE));
    assert_eq!(get_property_data(true, PLUGIN_ID, uid, true, true, 4, false, 8), Err(STATUS_ILLEGAL_OPERATION));
    assert_eq!(get_property_data(true, PLUGIN_ID, uid, true, true, 4, true, 4), Err(STATUS_BAD_PROPERTY_SIZE));
    assert!(get_property_data(true, PLUGIN_ID, uid, true, true, 4, true, 8).is_ok());
    assert_eq!(device_of_uid(true), DEVICE_ID);
    assert_eq!(device_of_uid(false), UNKNOWN_OBJECT);
}

#[test]
fn writing_property_data() {
    let p = set_property_data(true, 5, Some(g(SEL_LEVEL_DECIBEL_VALUE)), true, 4).unwrap();
    assert_eq!(p.value, PropertyValue::VolumeDecibels(0));
    assert_eq!(set_property_data(true, 5, Some(g(SEL_LEVEL_DECIBEL_VALUE)), true, 2), Err(STATUS_BAD_PROPERTY_SIZE));
    assert_eq!(set_property_data(true, 5, Some(g(SEL_LEVEL_DECIBEL_VALUE)), false, 4), Err(STATUS_ILLEGAL_OPERATION));
    assert_eq!(set_property_data(true, DEVICE_ID, Some(g(SEL_NAME)), true, 8), Err(STATUS_UNKNOWN_PROPERTY));
    assert_eq!(set_property_data(true, 100, Some(g(SEL_NAME)), true, 8), Err(STATUS_BAD_OBJECT));
    assert_eq!(set_property_data(true, 100, None, true, 8), Err(STATUS_ILLEGAL_OPERATION));
    assert_eq!(set_property_data(false, 5, Some(g(SEL_LEVEL_DECIBEL_VALUE)), true, 4), Err(STATUS_BAD_OBJECT));
    // what can be set can be read, at the same size
    let size = get_property_data_size(true, STREAM_ID, Some(g(SEL_STREAM_IS_ACTIVE)), true).unwrap();
    assert_eq!(set_property_data(true, STREAM_ID, Some(g(SEL_STREAM_IS_ACTIVE)), true, size).unwrap().data_size, size);
}

#[test]
fn object_lists() {
    let all = object_list(ObjectList::DeviceOwned, SCOPE_GLOBAL, 1000);
    assert_eq!(all.len(), 35);
    assert_eq!(all[0], STREAM_ID);
    assert_eq!(all[1], 4);
    assert_eq!(all[34], 37);
    assert_eq!(object_list(ObjectList::DeviceOwned, SCOPE_OUTPUT, 10), vec![STREAM_ID, 4]);
    assert!(object_list(ObjectList::DeviceOwned, 0x696e7074, 1000).is_empty());
    assert_eq!(object_list(ObjectList::DeviceControls, SCOPE_GLOBAL, 12), vec![4, 5, 6]);
    assert_eq!(object_list(ObjectList::PluginDevices, SCOPE_GLOBAL, 4), vec![DEVICE_ID]);
    assert!(object_list(ObjectList::PluginDevices, SCOPE_GLOBAL, 3).is_empty());
    assert_eq!(object_list(ObjectList::DeviceStreams, SCOPE_OUTPUT, 4), vec![STREAM_ID]);
    assert!(object_list(ObjectList::Empty, SCOPE_GLOBAL, 100).is_empty());
    assert_eq!(fitting_count(1, 56, 100), 1);
    assert_eq!(fitting_count(3, 16, 40), 2);
    assert_eq!(fitting_count(3, 16, 15), 0);
}

#[test]
fn names_and_texts() {
    assert_eq!(element_name(0), b"Master".to_vec());
    assert_eq!(element_name(7), b"7".to_vec());
    assert_eq!(element_name(16), b"16".to_vec());
    assert_eq!(element_name(17), b"<Unknown>".to_vec());
    assert_eq!(text(Text::DeviceUid), "UID");
    assert_eq!(text(Text::PluginManufacturer), "GRAME CNCM");
    assert_eq!(text(Text::StreamName), "Output Stream");
    assert_eq!(text(Text::ResourceBundle), "");
}

#[test]
fn device_checks() {
    assert_eq!(check_driver(true), STATUS_NO_ERROR);
    assert_eq!(check_driver(false), STATUS_BAD_OBJECT);
    assert_eq!(check_device(true, DEVICE_ID), STATUS_NO_ERROR);
    assert_eq!(check_device(true, STREAM_ID), STATUS_BAD_OBJECT);
    assert_eq!(check_device_stream(true, DEVICE_ID, STREAM_ID), STATUS_NO_ERROR);
    assert_eq!(check_device_stream(true, DEVICE_ID, DEVICE_ID), STATUS_BAD_OBJECT);
    assert_eq!(unsupported_device_operation(true), STATUS_UNSUPPORTED_OPERATION);
    assert_eq!(unsupported_device_operation(false), STATUS_BAD_OBJECT);
    assert_eq!(will_do_io_operation(true, DEVICE_ID, IO_OPERATION_WRITE_MIX), Ok((true, true)));
    assert_eq!(will_do_io_operation(true, DEVICE_ID, 0x72656164), Ok((false, false)));
    assert_eq!(will_do_io_operation(true, 9, IO_OPERATION_WRITE_MIX), Err(STATUS_BAD_OBJECT));
}

#[test]
fn plugin_type_and_interfaces() {
    let t = [0x44, 0x3A, 0xBA, 0xB8, 0xE7, 0xB3, 0x49, 0x1A, 0xB9, 0x85, 0xBE, 0xB9, 0x18, 0x70, 0x30, 0xDB];
    assert!(is_plugin_type(&t));
    assert!(!is_plugin_type(&[0u8; 16]));
    let unknown = [0, 0, 0, 0, 0, 0, 0, 0, 0xC0, 0, 0, 0, 0, 0, 0, 0x46];
    let driver = [0xEE, 0xA5, 0x77, 0x3D, 0xCC, 0x43, 0x49, 0xF1, 0x8E, 0x00, 0x8F, 0x96, 0xE7, 0xD2, 0x3B, 0x17];
    assert!(is_supported_interface(&unknown));
    assert!(is_supported_interface(&driver));
    assert!(!is_supported_interface(&t));
}

#[test]
fn reference_counting() {
    let mut rc = PluginRefCount::new();
    assert_eq!(rc.add_ref(true), 1);
    assert_eq!(rc.add_ref(true), 2);
    assert_eq!(rc.add_ref(false), 0);
    assert_eq!(rc.release(true), 1);
    assert_eq!(rc.release(false), 0);
    assert_eq!(rc.count(), 1);
    let driver = [0xEE, 0xA5, 0x77, 0x3D, 0xCC, 0x43, 0x49, 0xF1, 0x8E, 0x00, 0x8F, 0x96, 0xE7, 0xD2, 0x3B, 0x17];
    assert_eq!(rc.query_interface(true, &driver, true), STATUS_NO_ERROR);
    assert_eq!(rc.count(), 2);
    assert_eq!(rc.query_interface(true, &[1u8; 16], true), STATUS_NO_INTERFACE);
    assert_eq!(rc.query_interface(true, &driver, false), STATUS_ILLEGAL_OPERATION);
    assert_eq!(rc.query_interface(false, &driver, true), STATUS_BAD_OBJECT);
    assert_eq!(rc.count(), 2);
}

#[test]
fn io_clients_and_clock() {
    let mut io = IOInfo::new();
    assert_eq!(io.n_active_clients(), 0);
    assert_eq!(io.stop_io(true, DEVICE_ID), STATUS_ILLEGAL_OPERATION);
    assert_eq!(io.start_io(true, DEVICE_ID, 1000), STATUS_NO_ERROR);
    assert_eq!(io.start_io(true, DEVICE_ID, 5000), STATUS_NO_ERROR);
    assert_eq!(io.n_active_clients(), 2);
    assert_eq!(io.start_io(true, 3, 5000), STATUS_BAD_OBJECT);
    // the clock started at the first start
    assert_eq!(io.get_zero_timestamp(true, DEVICE_ID, 1999, 1000), Ok((0, 1000)));
    assert_eq!(io.get_zero_timestamp(true, DEVICE_ID, 3500, 1000), Ok((48000, 3000)));
    assert_eq!(io.get_zero_timestamp(true, DEVICE_ID, 3999, 1000), Ok((48000, 3000)));
    assert_eq!(io.get_zero_timestamp(false, DEVICE_ID, 9999, 1000), Err(STATUS_BAD_OBJECT));
    assert_eq!(io.stop_io(true, DEVICE_ID), STATUS_NO_ERROR);
    assert_eq!(io.n_active_clients(), 1);
    assert_eq!(io.stop_io(true, DEVICE_ID), STATUS_NO_ERROR);
    assert_eq!(io.n_active_clients(), 0);
    assert_eq!(io.stop_io(false, DEVICE_ID), STATUS_BAD_OBJECT);
}

#[test]
fn ticks_between_time_stamps() {
    assert_eq!(ticks_per_timestamp(1, 1), 500_000_000);
    assert_eq!(ticks_per_timestamp(125, 3), 20_833_333_333);
}

#[test]
fn flags_read_back_what_was_written() {
    let mut f = DeviceFlags::new();
    assert_eq!(f.read(PropertyValue::StreamIsActive), Some(0));
    assert_eq!(f.read(PropertyValue::Mute(16)), Some(0));
    assert!(f.write(PropertyValue::Mute(3), 7));
    assert_eq!(f.read(PropertyValue::Mute(3)), Some(1));
    assert_eq!(f.read(PropertyValue::Mute(2)), Some(0));
    assert!(f.write(PropertyValue::StreamIsActive, 1));
    assert_eq!(f.read(PropertyValue::StreamIsActive), Some(1));
    assert!(f.write(PropertyValue::Mute(3), 0));
    assert_eq!(f.read(PropertyValue::Mute(3)), Some(0));
    assert!(!f.write(PropertyValue::Mute(17), 1));
    assert!(!f.write(PropertyValue::VolumeScalar(0), 1));
    assert_eq!(f.read(PropertyValue::DecibelRange), None);
}

#[test]
fn volume_changes_notify_both_values() {
    let a = addr(SEL_LEVEL_SCALAR_VALUE, SCOPE_GLOBAL, 0);
    let r = changed_properties(PropertyValue::VolumeScalar(0), a);
    assert_eq!(r, vec![a, addr(SEL_LEVEL_DECIBEL_VALUE, SCOPE_GLOBAL, 0)]);
    let b = addr(SEL_LEVEL_DECIBEL_VALUE, SCOPE_OUTPUT, 0);
    assert_eq!(changed_properties(PropertyValue::VolumeDecibels(2), b), vec![b, addr(SEL_LEVEL_SCALAR_VALUE, SCOPE_OUTPUT, 0)]);
    let c = addr(SEL_BOOLEAN_VALUE, SCOPE_GLOBAL, 0);
    assert_eq!(changed_properties(PropertyValue::Mute(0), c), vec![c]);
}
