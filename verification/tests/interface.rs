use l1ght::error::Error;
use l1ght::interface::{get_interface, Interface};

fn open(name: &str, max_contents: &str) -> Interface {
    match get_interface(&String::from(name), true, max_contents) {
        Ok(i) => i,
        Err(_) => panic!("interface should open"),
    }
}

#[test]
fn missing_interface_is_not_found() {
    let r = get_interface(&String::from("nope"), false, "");
    assert!(matches!(r, Err(Error::NotFound)));
}

#[test]
fn non_numeric_max_is_invalid_data() {
    let r = get_interface(&String::from("intel_backlight"), true, "oh no\n");
    assert!(matches!(r, Err(Error::InvalidData)));
}

#[test]
fn interface_caches_max() {
    let i = open("intel_backlight", "100\n");
    assert_eq!(i.get_max(), 100);
}

#[test]
fn interface_name_is_last_path_component() {
    let i = open("intel_backlight", "100\n");
    assert_eq!(i.get_name(), "intel_backlight");
}

#[test]
fn interface_brightness_parses_contents() {
    let i = open("intel_backlight", "100\n");
    assert_eq!(i.brightness("42\n"), Ok(42));
    assert_eq!(i.brightness("x"), Err(Error::InvalidData));
}

#[test]
fn interface_set_clamps_at_max_only() {
    let i = open("intel_backlight", "100\n");
    assert_eq!(i.set_brightness(90), "90");
    assert_eq!(i.set_brightness(150), "100");
    assert_eq!(i.set_brightness(-5), "-5");
}

#[test]
fn interface_increase_stops_at_max() {
    let i = open("intel_backlight", "100\n");
    assert_eq!(i.increase_brightness(90, 20), "100");
    assert_eq!(i.increase_brightness(30, 20), "50");
}

#[test]
fn interface_decrease_floors_at_zero() {
    let i = open("intel_backlight", "100\n");
    assert_eq!(i.decrease_brightness(50, 20), "30");
    assert_eq!(i.decrease_brightness(10, 20), "0");
}
