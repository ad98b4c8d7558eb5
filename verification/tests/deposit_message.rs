use appchain_anchor::deposit_message::parse_deposit_message;
use appchain_anchor::types::AccountIdInAppchain;

#[test]
fn plain_instruction_parses() {
    let msg = "{\"BridgeToAppchain\":{\"receiver_id_in_appchain\":\"0xab\"}}";
    assert_eq!(parse_deposit_message(msg), Some("0xab".to_string()));
}

#[test]
fn whitespace_between_tokens_is_allowed() {
    let msg = " {\n\t\"BridgeToAppchain\" : {\r\n  \"receiver_id_in_appchain\" : \"0xab\" } }\n";
    assert_eq!(parse_deposit_message(msg), Some("0xab".to_string()));
}

#[test]
fn empty_receiver_parses_as_empty() {
    let msg = "{\"BridgeToAppchain\":{\"receiver_id_in_appchain\":\"\"}}";
    assert_eq!(parse_deposit_message(msg), Some(String::new()));
}

#[test]
fn non_json_is_rejected() {
    assert_eq!(parse_deposit_message("not json"), None);
    assert_eq!(parse_deposit_message(""), None);
    assert_eq!(parse_deposit_message("{}"), None);
}

#[test]
fn unrecognized_instruction_kind_is_rejected() {
    let msg = "{\"BurnWrappedToken\":{\"receiver_id_in_appchain\":\"0xab\"}}";
    assert_eq!(parse_deposit_message(msg), None);
}

#[test]
fn trailing_content_is_rejected() {
    let msg = "{\"BridgeToAppchain\":{\"receiver_id_in_appchain\":\"0xab\"}} extra";
    assert_eq!(parse_deposit_message(msg), None);
}

#[test]
fn escapes_and_control_characters_are_rejected() {
    let escaped = "{\"BridgeToAppchain\":{\"receiver_id_in_appchain\":\"0x\\n\"}}";
    assert_eq!(parse_deposit_message(escaped), None);
    let control = "{\"BridgeToAppchain\":{\"receiver_id_in_appchain\":\"0x\u{1}\"}}";
    assert_eq!(parse_deposit_message(control), None);
}

#[test]
fn unterminated_receiver_is_rejected() {
    let msg = "{\"BridgeToAppchain\":{\"receiver_id_in_appchain\":\"0xab}}";
    assert_eq!(parse_deposit_message(msg), None);
}

#[test]
fn appchain_account_validity() {
    let valid = format!("0x{}", "ab".repeat(32));
    assert!(AccountIdInAppchain::new(valid).is_valid());
    assert!(!AccountIdInAppchain::new("".to_string()).is_valid());
    assert!(!AccountIdInAppchain::new("bob.near".to_string()).is_valid());
    // Right length but no 0x prefix.
    assert!(!AccountIdInAppchain::new("ab".repeat(33)).is_valid());
    // 0x prefix but a non-hex character inside.
    let bad = format!("0x{}zz", "ab".repeat(31));
    assert!(!AccountIdInAppchain::new(bad).is_valid());
    // Too short.
    assert!(!AccountIdInAppchain::new("0xabab".to_string()).is_valid());
}
