use l1ght::backlight::{
    backlight_path, get_default_device, open_device, Backlight, DeviceId,
};
use l1ght::error::Error;
use l1ght::monitor::{format_brightness, EventKind, MonitorEvent};

fn open(max_contents: &str) -> Backlight {
    match open_device(DeviceId(String::from("intel_backlight")), true, max_contents) {
        Ok(b) => b,
        Err(_) => panic!("device should open"),
    }
}

#[test]
fn open_missing_device_is_not_found() {
    let r = open_device(DeviceId(String::from("nope")), false, "");
    assert!(matches!(r, Err(Error::NotFound)));
}

#[test]
fn open_with_non_numeric_max_is_invalid_data() {
    let r = open_device(DeviceId(String::from("intel_backlight")), true, "garbage\n");
    assert!(matches!(r, Err(Error::InvalidData)));
}

#[test]
fn open_caches_max_brightness() {
    let b = open("255\n");
    assert_eq!(b.get_max_brightness(), 255);
}

#[test]
fn get_brightness_parses_file_contents() {
    let b = open("255\n");
    assert_eq!(b.get_brightness("90\n"), Ok(90));
    assert_eq!(b.get_actual_brightness("128\n"), Ok(128));
    assert_eq!(b.get_brightness("bogus"), Err(Error::InvalidData));
    assert_eq!(b.get_actual_brightness(""), Err(Error::InvalidData));
}

#[test]
fn reads_are_not_clamped() {
    let b = open("100\n");
    assert_eq!(b.get_brightness("900\n"), Ok(900));
    assert_eq!(b.get_actual_brightness("-3\n"), Ok(-3));
}

#[test]
fn set_then_get_returns_clamped_request() {
    let b = open("100\n");
    let written = b.set_brightness(90);
    assert_eq!(written, "90");
    assert_eq!(b.get_brightness(&written), Ok(90));
    let written = b.set_brightness(150);
    assert_eq!(written, "100");
    assert_eq!(b.get_brightness(&written), Ok(100));
}

#[test]
fn set_does_not_floor_negative_requests() {
    let b = open("100\n");
    assert_eq!(b.set_brightness(-5), "-5");
}

#[test]
fn increase_clamps_at_max() {
    let b = open("100\n");
    let written = b.increase_brightness(90, 20);
    assert_eq!(written, "100");
    assert_eq!(b.get_brightness(&written), Ok(100));
}

#[test]
fn increase_below_max_stores_sum() {
    let b = open("100\n");
    assert_eq!(b.increase_brightness(30, 20), "50");
}

#[test]
fn decrease_has_no_lower_clamp() {
    let b = open("100\n");
    assert_eq!(b.decrease_brightness(50, 20), "30");
    assert_eq!(b.decrease_brightness(10, 20), "-10");
}

#[test]
fn backlight_path_joins_class_directory() {
    assert_eq!(
        backlight_path("intel_backlight"),
        "/sys/class/backlight/intel_backlight"
    );
}

#[test]
fn default_device_is_first_entry() {
    let devices = vec![
        DeviceId(String::from("intel_backlight")),
        DeviceId(String::from("acpi_video0")),
    ];
    let d = get_default_device(&devices);
    assert_eq!(d.map(|d| d.0), Some(String::from("intel_backlight")));
}

#[test]
fn no_devices_means_no_default() {
    let devices: Vec<DeviceId> = Vec::new();
    assert!(get_default_device(&devices).is_none());
}

#[test]
fn matching_change_event_notifies() {
    let b = open("100\n");
    let event = MonitorEvent {
        kind: EventKind::Change,
        device_name: String::from("intel_backlight"),
    };
    assert!(b.should_notify(&event));
}

#[test]
fn foreign_change_event_is_discarded() {
    let b = open("100\n");
    let event = MonitorEvent {
        kind: EventKind::Change,
        device_name: String::from("acpi_video0"),
    };
    assert!(!b.should_notify(&event));
}

#[test]
fn non_change_event_is_discarded() {
    let b = open("100\n");
    let event = MonitorEvent {
        kind: EventKind::Other,
        device_name: String::from("intel_backlight"),
    };
    assert!(!b.should_notify(&event));
}

#[test]
fn formats_absolute_and_percentage_output() {
    assert_eq!(format_brightness(100, 90, false), "90");
    assert_eq!(format_brightness(100, 90, true), "90%");
    assert_eq!(format_brightness(255, 128, true), "50%");
}

#[test]
fn formats_out_of_range_readings_as_reported() {
    assert_eq!(format_brightness(100, -3, false), "-3");
    assert_eq!(format_brightness(100, 900, false), "900");
    assert_eq!(format_brightness(100, 900, true), "900%");
}
