use l1ght::error::Error;
use l1ght::interface::{get_interface, Interface};
use l1ght::parser::{
    change_state, get_number, get_number_from_action, get_percentage, interpret_action,
    is_percentage, ParseError,
};

fn iface(max_contents: &str) -> Interface {
    match get_interface(&String::from("intel_backlight"), true, max_contents) {
        Ok(i) => i,
        Err(_) => panic!("interface should open"),
    }
}

#[test]
fn percentage_mark_is_the_trailing_character() {
    assert!(is_percentage("50%"));
    assert!(!is_percentage("50"));
    assert!(!is_percentage(""));
    assert!(!is_percentage("%50"));
}

#[test]
fn get_percentage_reads_between_operator_and_mark() {
    assert_eq!(get_percentage("+5%"), Some(5));
    assert_eq!(get_percentage("-15%"), Some(15));
    assert_eq!(get_percentage("+100%"), Some(100));
}

#[test]
fn get_percentage_rejects_wide_or_empty_numbers() {
    assert_eq!(get_percentage("+200%"), None);
    assert_eq!(get_percentage("+%"), None);
    assert_eq!(get_percentage(""), None);
    assert_eq!(get_percentage("+abc%"), None);
}

#[test]
fn get_number_skips_the_operator() {
    assert_eq!(get_number(&String::from("+40")), Ok(40));
    assert_eq!(get_number(&String::from("-10")), Ok(10));
}

#[test]
fn get_number_reports_percentages() {
    assert_eq!(get_number(&String::from("+5%")), Err(ParseError::IsPercentage));
}

#[test]
fn get_number_always_treats_the_first_character_as_operator() {
    assert_eq!(get_number(&String::from("40")), Ok(0));
}

#[test]
fn get_number_reports_invalid_text() {
    assert_eq!(get_number(&String::from("+abc")), Err(ParseError::IsInvalid));
    assert_eq!(get_number(&String::from("")), Err(ParseError::IsInvalid));
    assert_eq!(get_number(&String::from("+")), Err(ParseError::IsInvalid));
}

#[test]
fn action_number_reads_operator_and_value() {
    assert_eq!(get_number_from_action("+50"), Ok(50));
    assert_eq!(get_number_from_action("-10"), Ok(10));
    assert_eq!(get_number_from_action("=30"), Ok(30));
    assert_eq!(get_number_from_action("50"), Ok(50));
}

#[test]
fn action_number_peels_percentage_marks() {
    assert_eq!(get_number_from_action("-5%"), Ok(5));
    assert_eq!(get_number_from_action("+12%"), Ok(12));
    assert_eq!(get_number_from_action("50%%"), Ok(50));
}

#[test]
fn action_number_rejects_non_numeric_text() {
    assert!(matches!(get_number_from_action("abc"), Err(Error::InvalidData)));
    assert!(matches!(get_number_from_action(""), Err(Error::InvalidData)));
    assert!(matches!(get_number_from_action("+"), Err(Error::InvalidData)));
}

#[test]
fn interpret_action_applies_the_operator() {
    let i = iface("100\n");
    assert_eq!(interpret_action(&i, "+10", 10, 95).as_deref(), Some("100"));
    assert_eq!(interpret_action(&i, "-10", 10, 5).as_deref(), Some("0"));
    assert_eq!(interpret_action(&i, "=10", 10, 50), None);
    assert_eq!(interpret_action(&i, "", 10, 50), None);
}

#[test]
fn change_state_applies_plain_numbers() {
    let i = iface("100\n");
    let args = vec![String::from("+40")];
    assert_eq!(change_state(&i, &args, 50).as_deref(), Some("90"));
    let args = vec![String::from("-200")];
    assert_eq!(change_state(&i, &args, 50).as_deref(), Some("0"));
    let args = vec![String::from("+200")];
    assert_eq!(change_state(&i, &args, 50).as_deref(), Some("100"));
}

#[test]
fn change_state_converts_percentages_against_max() {
    let i = iface("100\n");
    let args = vec![String::from("+5%")];
    assert_eq!(change_state(&i, &args, 50).as_deref(), Some("55"));
    let i = iface("255\n");
    let args = vec![String::from("-50%")];
    assert_eq!(change_state(&i, &args, 200).as_deref(), Some("73"));
}

#[test]
fn change_state_accepts_percentages_on_a_zero_max_interface() {
    let i = iface("0\n");
    let args = vec![String::from("+5%")];
    assert_eq!(change_state(&i, &args, 5).as_deref(), Some("0"));
}

#[test]
fn change_state_ignores_invalid_actions() {
    let i = iface("100\n");
    let args = vec![String::from("abc")];
    assert_eq!(change_state(&i, &args, 50), None);
    let args = vec![String::from("+abc%")];
    assert_eq!(change_state(&i, &args, 50), None);
    let args = vec![String::from("+12%%")];
    assert_eq!(change_state(&i, &args, 50), None);
}
