use pass_rofi_gui::error::Error;
use pass_rofi_gui::menu::{EntryMenuCommand, MainMenuCommand};
use pass_rofi_gui::rofi::{
    parse_index, select_item, selector_arguments, selector_input, trim_white_space,
    RofiCustomKeybindings,
};

fn three_bindings() -> RofiCustomKeybindings<EntryMenuCommand> {
    RofiCustomKeybindings::new(EntryMenuCommand::Edit)
        .add("alt+a", EntryMenuCommand::New)
        .unwrap()
        .add("alt+b", EntryMenuCommand::Delete)
        .unwrap()
        .add("alt+c", EntryMenuCommand::Copy)
        .unwrap()
}

#[test]
fn exit_code_decoding() {
    let t = three_bindings();
    assert_eq!(t.exit_code_to_command(Some(0)), Some(EntryMenuCommand::Edit));
    assert_eq!(t.exit_code_to_command(Some(10)), Some(EntryMenuCommand::New));
    assert_eq!(t.exit_code_to_command(Some(11)), Some(EntryMenuCommand::Delete));
    assert_eq!(t.exit_code_to_command(Some(12)), Some(EntryMenuCommand::Copy));
    assert_eq!(t.exit_code_to_command(Some(13)), None);
    assert_eq!(t.exit_code_to_command(Some(29)), None);
    assert_eq!(t.exit_code_to_command(Some(-1)), None);
    assert_eq!(t.exit_code_to_command(Some(1)), None);
    assert_eq!(t.exit_code_to_command(None), None);
}

#[test]
fn too_many_keybindings() {
    let mut t = RofiCustomKeybindings::new(MainMenuCommand::Select);
    for _ in 0..19 {
        t = t.add("alt+x", MainMenuCommand::CopyEmail).unwrap();
    }
    assert_eq!(t.keybinds().len(), 19);
    assert_eq!(t.exit_code_to_command(Some(28)), Some(MainMenuCommand::CopyEmail));
    assert_eq!(
        t.add("alt+y", MainMenuCommand::CopyOTP).unwrap_err(),
        Error::TooManyKeybindings
    );
}

#[test]
fn message_layout() {
    let t = three_bindings();
    let first = format!("{:35}", "alt+a: new field");
    let third = format!("{:35}", "alt+c: copy field");
    assert_eq!(
        t.format_message(),
        format!("enter: edit field\n{}alt+b: delete field\n{}", first, third)
    );
    let none = RofiCustomKeybindings::new(EntryMenuCommand::Copy);
    assert_eq!(none.format_message(), "enter: copy field\n");
}

#[test]
fn arguments_of_a_round() {
    let t = three_bindings();
    let args = selector_arguments("fuzzy", 42, &t);
    let expected: Vec<String> = vec![
        "-dmenu".to_string(),
        "-i".to_string(),
        "-scroll-method".to_string(),
        "1".to_string(),
        "-selected-row".to_string(),
        "42".to_string(),
        "-matching".to_string(),
        "fuzzy".to_string(),
        "-p".to_string(),
        "search".to_string(),
        "-format".to_string(),
        "i".to_string(),
        "-mesg".to_string(),
        t.format_message(),
        "-kb-custom-1".to_string(),
        "alt+a".to_string(),
        "-kb-custom-2".to_string(),
        "alt+b".to_string(),
        "-kb-custom-3".to_string(),
        "alt+c".to_string(),
    ];
    assert_eq!(args, expected);
}

#[test]
fn candidate_input() {
    let lines = vec!["a".to_string(), "sub/c".to_string()];
    assert_eq!(selector_input(&lines), "a\nsub/c\n");
    assert_eq!(selector_input(&Vec::new()), "");
}

#[test]
fn trimming_and_index_parsing() {
    assert_eq!(trim_white_space("  12\n"), "12");
    assert_eq!(trim_white_space("\u{a0}\t7\u{3000}"), "7");
    assert_eq!(trim_white_space(" \n "), "");
    assert_eq!(trim_white_space("a b"), "a b");
    assert_eq!(parse_index("12"), Some(12));
    assert_eq!(parse_index("+3"), Some(3));
    assert_eq!(parse_index("007"), Some(7));
    assert_eq!(parse_index("-1"), None);
    assert_eq!(parse_index("+"), None);
    assert_eq!(parse_index(""), None);
    assert_eq!(parse_index("1x"), None);
    assert_eq!(parse_index("99999999999999999999999"), None);
    assert_eq!(parse_index(&usize::MAX.to_string()), Some(usize::MAX));
}

#[test]
fn select_item_decodes_a_round() {
    let t = three_bindings();
    let sel = select_item(3, b"2\n".to_vec(), Some(11), &t).unwrap();
    assert_eq!(sel.index, Some(2));
    assert_eq!(sel.command, Some(EntryMenuCommand::Delete));

    let none = select_item(3, Vec::new(), Some(1), &t).unwrap();
    assert_eq!(none.index, None);
    assert_eq!(none.command, None);

    assert_eq!(
        select_item(3, b"3\n".to_vec(), Some(0), &t).unwrap_err(),
        Error::IndexOutOfRange
    );
    assert_eq!(
        select_item(3, b"abc".to_vec(), Some(0), &t).unwrap_err(),
        Error::InvalidSelectorOutput
    );
    assert_eq!(
        select_item(3, vec![0xc3], Some(0), &t).unwrap_err(),
        Error::EncodingError
    );
}
