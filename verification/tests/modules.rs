use modit::modules::{
    button_module, parse_uuid, uuid_outcome, UuidError, unbound_labels, validate_modules, ModuleDefinition, Notifier,
    ValidationError, Writable,
};
use modit::uuids;

const GOOD: &str = "937312e0-2354-11eb-9f10-fbc30a62cf30";
const BAD: &str = "937312e0-2354-11eb-9f10-fbc30a62cf3";

fn notifier(charac: &'static str) -> Notifier {
    Notifier {
        service: GOOD,
        charac_notify_id: charac,
    }
}

#[test]
fn a_valid_definition_passes() {
    validate_modules(&[notifier(GOOD)]).unwrap();
}

#[test]
fn a_bad_uuid_names_the_module_the_field_and_the_value() {
    let err = validate_modules(&[notifier(GOOD), notifier(BAD)])
        .expect_err("a malformed UUID must not validate");
    let rendered = err.message();
    assert!(
        rendered.contains("module 1"),
        "should name which module: {rendered}"
    );
    assert!(
        rendered.contains("charac_notify_id"),
        "should name which field: {rendered}"
    );
    assert!(
        rendered.contains(BAD),
        "should quote the bad value: {rendered}"
    );
}

#[test]
fn an_empty_module_list_is_an_error() {
    let err = validate_modules(&[] as &[Notifier])
        .expect_err("no modules is a configuration mistake, not a valid setup");
    assert!(err.message().contains("no modules"));
}

#[test]
fn a_writable_reports_its_own_field_name() {
    let writable = Writable {
        service: GOOD,
        charac_write_id: BAD,
    };
    let err = validate_modules(&[writable]).unwrap_err();
    assert!(err.message().contains("charac_write_id"));
}

#[test]
fn every_well_known_uuid_parses() {
    for (name, value) in [
        ("SERVICE", uuids::SERVICE),
        ("LED_WRITE", uuids::LED_WRITE),
        ("BUTTON_NOTIFY", uuids::BUTTON_NOTIFY),
    ] {
        parse_uuid(value, name)
            .unwrap_or_else(|e| panic!("uuids::{name} is not a valid UUID: {}", e.message()));
    }
}

#[test]
fn a_parsed_uuid_is_its_128_bit_value() {
    assert_eq!(
        parse_uuid(GOOD, "service").unwrap(),
        0x937312e0_2354_11eb_9f10_fbc30a62cf30u128
    );
    let err = parse_uuid(BAD, "service").unwrap_err();
    assert_eq!(
        err.message(),
        format!(
            "service is not a valid UUID: \"{BAD}\": \
             invalid group length in group 4: expected 12, found 11"
        )
    );
}

#[test]
fn the_whole_report_reads_outer_context_first() {
    let err = validate_modules(&[notifier(GOOD), notifier(BAD)]).unwrap_err();
    assert_eq!(
        err.message(),
        format!(
            "module 1 (notifier {GOOD}): charac_notify_id is not a valid UUID: \"{BAD}\": \
             invalid group length in group 4: expected 12, found 11"
        )
    );
    assert!(matches!(err, ValidationError::InModule { index: 1, .. }));
}

#[test]
fn a_board_definition_names_the_part_that_is_wrong() {
    let mut board = button_module("a");
    assert!(board.validate().is_ok());
    assert_eq!(board.label(), "button-led a");
    board.led.charac_write_id = BAD;
    let err = board.validate().unwrap_err();
    assert_eq!(err.part, Some("led"));
    assert!(err.message().starts_with("led: charac_write_id"));
}

#[test]
fn unbound_modules_are_listed_in_order() {
    let modules = [button_module("a"), button_module("b"), button_module("c")];
    assert_eq!(
        unbound_labels(&modules, &[true, false, false]),
        vec!["module 1 (button-led b)", "module 2 (button-led c)"]
    );
    assert!(unbound_labels(&modules, &[true, true, true]).is_empty());
}

#[test]
fn a_parse_that_failed_names_the_field_and_quotes_the_text() {
    assert_eq!(uuid_outcome(Some(7), "x", "service"), Ok(7));
    assert_eq!(
        uuid_outcome(None, "x", "service"),
        Err(UuidError { field: "service", value: "x" })
    );
}

#[test]
fn a_bad_value_is_quoted_as_debug_renders_it() {
    let err = UuidError { field: "service", value: "a\"b\\c" };
    assert_eq!(
        err.message(),
        "service is not a valid UUID: \"a\\\"b\\\\c\": invalid character: found `\"` at 1"
    );
}

#[test]
fn a_list_with_modules_never_reports_no_modules() {
    let err = validate_modules(&[notifier(BAD)]).unwrap_err();
    assert!(matches!(err, ValidationError::InModule { index: 0, .. }));
}
