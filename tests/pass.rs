use pass_rofi_gui::error::Error;
use pass_rofi_gui::pass::{check_store_status, split_lines, PassEntry, PassEntryField};

fn field_lines(e: &PassEntry) -> Vec<String> {
    e.field_lines()
}

#[test]
fn scenario_parse_modify_serialize() {
    let mut e = PassEntry::from_text("web/site", "s3cret\nusername: bob\nurl: http://x");
    assert_eq!(e.fields.len(), 3);
    assert_eq!(e.get_value_with_key("username"), Some("bob".to_string()));
    assert!(e.modify_field_value(1, "alice").is_ok());
    assert_eq!(e.serialize(), "s3cret\nusername: alice\nurl: http://x");
}

#[test]
fn parse_classifies_lines() {
    let e = PassEntry::from_text("p", "pw: not split\nkey: a: b\nplain line\n:nospace");
    assert!(matches!(&e.fields[0], PassEntryField::Password(v) if v == "pw: not split"));
    assert!(matches!(&e.fields[1], PassEntryField::KeyVal(k, v) if k == "key" && v == "a: b"));
    assert!(matches!(&e.fields[2], PassEntryField::Other(v) if v == "plain line"));
    assert!(matches!(&e.fields[3], PassEntryField::Other(v) if v == ":nospace"));
    assert_eq!(e.path, "p");
}

#[test]
fn parse_empty_text_gives_empty_password() {
    let e = PassEntry::from_text("p", "");
    assert_eq!(e.fields.len(), 1);
    assert!(matches!(&e.fields[0], PassEntryField::Password(v) if v.is_empty()));
    assert_eq!(e.get_password(), Some(String::new()));
    assert_eq!(e.serialize(), "");
}

#[test]
fn round_trip_of_texts_without_final_newline() {
    for text in [
        "s3cret\nusername: bob\nurl: http://x",
        "only password",
        "p\n\nempty line above\nk: v",
        "p\nx\r",
        "",
    ] {
        let e = PassEntry::from_text("p", text);
        assert_eq!(e.serialize(), text);
    }
}

#[test]
fn line_splitting_drops_terminators() {
    assert_eq!(split_lines("a\r\nb\n\nc\n"), vec!["a", "b", "", "c"]);
    assert_eq!(split_lines("a\rb"), vec!["a\rb"]);
    assert_eq!(split_lines("x\r"), vec!["x\r"]);
    assert_eq!(split_lines("\n"), vec![""]);
    assert!(split_lines("").is_empty());
}

#[test]
fn output_must_be_utf8() {
    let e = PassEntry::from_output("p", b"pw\nemail: a@b".to_vec()).unwrap();
    assert_eq!(e.get_value_with_key("email"), Some("a@b".to_string()));
    assert_eq!(
        PassEntry::from_output("p", vec![0xff, 0xfe]).unwrap_err(),
        Error::EncodingError
    );
}

#[test]
fn show_output_statuses() {
    assert!(PassEntry::from_show_output("p", Some(0), b"pw".to_vec(), false).is_ok());
    assert_eq!(
        PassEntry::from_show_output("p", Some(2), Vec::new(), false).unwrap_err(),
        Error::PinentryRequired
    );
    assert_eq!(
        PassEntry::from_show_output("p", Some(2), Vec::new(), true).unwrap_err(),
        Error::InvalidPassphrase
    );
    assert_eq!(
        PassEntry::from_show_output("p", Some(1), Vec::new(), false).unwrap_err(),
        Error::StoreFailed
    );
    assert_eq!(
        PassEntry::from_show_output("p", None, Vec::new(), false).unwrap_err(),
        Error::StoreFailed
    );
    assert!(check_store_status(Some(0)).is_ok());
    assert_eq!(check_store_status(Some(1)).unwrap_err(), Error::StoreFailed);
    assert_eq!(check_store_status(None).unwrap_err(), Error::StoreFailed);
}

#[test]
fn remove_field_zero_always_fails() {
    let mut e = PassEntry::from_text("p", "pw\nk: v");
    assert_eq!(e.remove_field(0).unwrap_err(), Error::CannotRemovePasswordField);
    let mut single = PassEntry::from_text("p", "pw");
    assert_eq!(single.remove_field(0).unwrap_err(), Error::CannotRemovePasswordField);
    assert_eq!(e.fields.len(), 2);
}

#[test]
fn remove_field_errors_and_success() {
    let mut e = PassEntry::from_text("p", "pw\nk: v\nother");
    assert_eq!(e.remove_field(3).unwrap_err(), Error::FieldNotFound);
    assert!(e.remove_field(1).is_ok());
    assert_eq!(field_lines(&e), vec!["pw", "other"]);
}

#[test]
fn insert_at_zero_is_always_password() {
    let mut e = PassEntry::from_text("p", "old\nk: v");
    assert!(e.insert_new_field(0, "anything: looks-like-keyval").is_ok());
    assert!(
        matches!(&e.fields[0], PassEntryField::Password(v) if v == "anything: looks-like-keyval")
    );
    assert_eq!(e.get_password(), Some("anything: looks-like-keyval".to_string()));
    assert_eq!(e.fields.len(), 3);
}

#[test]
fn insert_classifies_and_checks_range() {
    let mut e = PassEntry::from_text("p", "pw");
    assert!(e.insert_new_field(1, "user: me").is_ok());
    assert!(matches!(&e.fields[1], PassEntryField::KeyVal(k, v) if k == "user" && v == "me"));
    assert_eq!(e.insert_new_field(5, "x").unwrap_err(), Error::IndexOutOfRange);
    assert!(e.insert_new_field(2, "note").is_ok());
    assert_eq!(e.serialize(), "pw\nuser: me\nnote");
}

#[test]
fn modify_keeps_kind_and_key() {
    let mut e = PassEntry::from_text("p", "pw\nk: v\nplain");
    assert!(e.modify_field_value(0, "new pw").is_ok());
    assert!(e.modify_field_value(1, "w").is_ok());
    assert!(e.modify_field_value(2, "text: like key").is_ok());
    assert_eq!(e.modify_field_value(3, "x").unwrap_err(), Error::FieldNotFound);
    assert_eq!(e.serialize(), "new pw\nk: w\ntext: like key");
    assert!(matches!(&e.fields[2], PassEntryField::Other(_)));
}

#[test]
fn mutations_keep_password_first() {
    let mut e = PassEntry::from_text("p", "pw");
    let _ = e.insert_new_field(1, "a: 1");
    let _ = e.insert_new_field(0, "b: 2");
    let _ = e.remove_field(1);
    let _ = e.remove_field(0);
    let _ = e.modify_field_value(0, "c: 3");
    let _ = e.insert_new_field(9, "z");
    assert!(!e.fields.is_empty());
    assert!(matches!(&e.fields[0], PassEntryField::Password(v) if v == "c: 3"));
}

#[test]
fn value_lookup_takes_first_match() {
    let e = PassEntry::from_text("p", "pw\nemail: one\nemail: two\nemailx: three");
    assert_eq!(e.get_value_with_key("email"), Some("one".to_string()));
    assert_eq!(e.get_value_with_key("emailx"), Some("three".to_string()));
    assert_eq!(e.get_value_with_key("url"), None);
}

#[test]
fn store_payload_ends_with_newline() {
    let e = PassEntry::from_text("p", "pw\nk: v");
    assert_eq!(e.store_payload(), "pw\nk: v\n");
}

#[test]
fn field_helpers() {
    let e = PassEntry::from_text("p", "pw\nk: v\nplain");
    assert_eq!(e.fields[0].key_label(), "password");
    assert_eq!(e.fields[1].key_label(), "k");
    assert_eq!(e.fields[2].key_label(), "string");
    assert_eq!(e.fields[1].value(), "v");
    assert_eq!(e.fields[1].to_line(), "k: v");
    let copy = e.duplicate();
    assert_eq!(copy.serialize(), e.serialize());
    assert_eq!(copy.path, "p");
}

#[test]
fn error_messages() {
    assert_eq!(Error::CannotRemovePasswordField.message(), "cannot delete password field");
    assert_eq!(Error::UnknownCommand.message(), "rofi command code not found");
}
