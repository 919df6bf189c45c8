use tunneller::forwarding::{join_forwarded_address, split_forwarded_address};

#[test]
fn split_at_nul() {
    assert_eq!(split_forwarded_address("a\0b\0c\0[]"), vec!["a", "b", "c", "[]"]);
    assert_eq!(split_forwarded_address(""), vec![""]);
    assert_eq!(split_forwarded_address("\0"), vec!["", ""]);
    assert_eq!(split_forwarded_address("héllo\0wörld"), vec!["héllo", "wörld"]);
    assert_eq!(split_forwarded_address("plain"), vec!["plain"]);
}

#[test]
fn join_keeps_three_parts_and_new_properties() {
    let parts = split_forwarded_address("host\01.2.3.4\0uuid\0[]\0extra");
    assert_eq!(parts.len(), 5);
    assert_eq!(join_forwarded_address(&parts, "[{\"x\":1}]"), "host\01.2.3.4\0uuid\0[{\"x\":1}]");
}

#[test]
fn rewrite_with_own_properties_is_identity() {
    let addr = "mc.example.org\0192.168.0.9\0abcdef\0[{\"name\":\"textures\"}]";
    let parts = split_forwarded_address(addr);
    assert_eq!(join_forwarded_address(&parts, &parts[3]), addr);
}

use tunneller::forwarding::{
    add_realm_property, rewrite_forwarded_address, rewrite_forwarded_address_checked, PropertiesError,
};

#[test]
fn realm_property_appended_to_empty_array() {
    assert_eq!(
        add_realm_property("[]", "lobby").unwrap(),
        "[{\"name\":\"realmId\",\"signature\":\"\",\"value\":\"lobby\"}]"
    );
}

#[test]
fn realm_property_appended_after_compacted_elements() {
    assert_eq!(
        add_realm_property("[ {\"value\": \"x\", \"name\": \"textures\"} , 5 ]", "r").unwrap(),
        "[{\"name\":\"textures\",\"value\":\"x\"},5,{\"name\":\"realmId\",\"signature\":\"\",\"value\":\"r\"}]"
    );
}

#[test]
fn realm_name_is_escaped() {
    assert_eq!(
        add_realm_property("[]", "a\"b").unwrap(),
        "[{\"name\":\"realmId\",\"signature\":\"\",\"value\":\"a\\\"b\"}]"
    );
}

#[test]
fn realm_name_control_characters_are_escaped() {
    assert_eq!(
        add_realm_property("[]", "\\\n\u{1}\u{1f}\u{8}\u{c}\t\ré").unwrap(),
        "[{\"name\":\"realmId\",\"signature\":\"\",\"value\":\"\\\\\\n\\u0001\\u001f\\b\\f\\t\\ré\"}]"
    );
}

#[test]
fn properties_errors() {
    assert_eq!(add_realm_property("not json", "r"), Err(PropertiesError::Syntax));
}

#[test]
fn rewrite_adds_realm_to_fourth_part() {
    assert_eq!(
        rewrite_forwarded_address("host\0ip\0id\0[]\0dropped", "lobby").unwrap(),
        "host\0ip\0id\0[{\"name\":\"realmId\",\"signature\":\"\",\"value\":\"lobby\"}]"
    );
    assert_eq!(rewrite_forwarded_address("host\0ip\0id\0[", "lobby"), Err(PropertiesError::Syntax));
}

#[test]
fn rewrite_checked_errors() {
    assert_eq!(rewrite_forwarded_address_checked("host\0ip\0id", "r"), Err(PropertiesError::TooFewParts));
    assert_eq!(rewrite_forwarded_address_checked("", "r"), Err(PropertiesError::TooFewParts));
    assert_eq!(rewrite_forwarded_address_checked("h\0i\0u\0nope", "r"), Err(PropertiesError::Syntax));
    assert_eq!(rewrite_forwarded_address_checked("h\0i\0u\0{}", "r"), Err(PropertiesError::NotAnArray));
    assert_eq!(
        rewrite_forwarded_address_checked("h\0i\0u\0[1]", "r").unwrap(),
        "h\0i\0u\0[1,{\"name\":\"realmId\",\"signature\":\"\",\"value\":\"r\"}]"
    );
}
