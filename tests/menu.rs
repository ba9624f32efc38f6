use pass_rofi_gui::error::Error;
use pass_rofi_gui::menu::{
    entry_menu_keybindings, main_menu_keybindings, EntryMenuCommand, EntryMenuRequest,
    ExternalAction, MainMenuCommand, Menu,
};
use pass_rofi_gui::pass::PassEntry;
use pass_rofi_gui::rofi::{select_item, RofiSelectedItem};

fn entry() -> PassEntry {
    PassEntry::from_text(
        "web/site",
        "s3cret\nusername: bob\nemail: bob@x\nurl: http://x\notp_secret: ABC",
    )
}

fn menu_at_entry(e: PassEntry) -> Menu {
    let mut menu = Menu::new();
    let r = menu.main_menu_command(MainMenuCommand::Select, e, &None).unwrap();
    assert!(r.is_none());
    menu
}

fn chosen(index: usize, command: EntryMenuCommand) -> RofiSelectedItem<EntryMenuCommand> {
    RofiSelectedItem { index: Some(index), command: Some(command) }
}

#[test]
fn new_menu_starts_at_main_listing() {
    let mut menu = Menu::new();
    assert!(menu.active());
    assert!(menu.at_main_menu());
    assert_eq!(menu.enter_main_menu(), 0);
    assert!(menu.current_entry().is_none());
}

#[test]
fn nothing_selected_in_entry_menu_goes_back() {
    let mut menu = menu_at_entry(entry());
    assert!(!menu.at_main_menu());
    let keybinds = entry_menu_keybindings();
    let selection = select_item(5, Vec::new(), Some(1), &keybinds).unwrap();
    let r = menu.entry_menu_selected(&selection).unwrap();
    assert!(matches!(r, EntryMenuRequest::Back));
    assert!(menu.at_main_menu());
    assert!(menu.active());
}

#[test]
fn main_menu_selection() {
    let mut menu = Menu::new();
    let paths = vec!["a".to_string(), "sub/c".to_string()];
    let keybinds = main_menu_keybindings();
    let sel = select_item(2, b"1".to_vec(), Some(13), &keybinds).unwrap();
    let (path, command) = menu.main_menu_selected(&sel, &paths).unwrap().unwrap();
    assert_eq!(path, "sub/c");
    assert_eq!(command, MainMenuCommand::CopyUsername);
    assert_eq!(menu.enter_main_menu(), 1);

    let no_command: RofiSelectedItem<MainMenuCommand> =
        RofiSelectedItem { index: Some(0), command: None };
    assert_eq!(menu.main_menu_selected(&no_command, &paths).unwrap_err(), Error::UnknownCommand);
    let far = RofiSelectedItem { index: Some(2), command: Some(MainMenuCommand::Select) };
    assert_eq!(menu.main_menu_selected(&far, &paths).unwrap_err(), Error::IndexOutOfRange);
}

#[test]
fn nothing_selected_in_main_menu_ends_the_session() {
    let mut menu = Menu::new();
    let paths = vec!["a".to_string()];
    let keybinds = main_menu_keybindings();
    let selection = select_item(1, Vec::new(), Some(1), &keybinds).unwrap();
    let r = menu.main_menu_selected(&selection, &paths).unwrap();
    assert!(r.is_none());
    assert!(!menu.active());
    assert_eq!(menu.enter_main_menu(), 0);
}

#[test]
fn main_menu_actions() {
    let mut menu = Menu::new();
    let a = menu.main_menu_command(MainMenuCommand::AutofillCustom, entry(), &None).unwrap();
    assert!(matches!(a, Some(ExternalAction::TypeLogin(l, p)) if l == "bob" && p == "s3cret"));
    assert!(!menu.active());

    let mut menu = Menu::new();
    let a = menu.main_menu_command(MainMenuCommand::CopyEmail, entry(), &None).unwrap();
    assert!(matches!(a, Some(ExternalAction::CopyText(t)) if t == "bob@x"));

    let mut menu = Menu::new();
    let a = menu.main_menu_command(MainMenuCommand::AutofillOTP, entry(), &None).unwrap();
    assert!(matches!(a, Some(ExternalAction::TypeOtp(s)) if s == "ABC"));

    let mut menu = Menu::new();
    let browser = Some("firefox".to_string());
    let a = menu.main_menu_command(MainMenuCommand::OpenURLInBrowser, entry(), &browser).unwrap();
    assert!(matches!(a, Some(ExternalAction::OpenUrl(b, u)) if b == "firefox" && u == "http://x"));

    let mut menu = Menu::new();
    assert_eq!(
        menu.main_menu_command(MainMenuCommand::OpenURLInBrowser, entry(), &None).unwrap_err(),
        Error::NotFound
    );
    assert!(menu.active());

    let bare = PassEntry::from_text("p", "pw\nemail: e");
    let mut menu = Menu::new();
    let a = menu.main_menu_command(MainMenuCommand::AutofillCustom, bare, &None).unwrap();
    assert!(matches!(a, Some(ExternalAction::TypeLogin(l, _)) if l == "e"));

    let mut menu = Menu::new();
    let bare = PassEntry::from_text("p", "pw");
    assert_eq!(
        menu.main_menu_command(MainMenuCommand::CopyUsername, bare, &None).unwrap_err(),
        Error::NotFound
    );
}

#[test]
fn entry_menu_edit_flow() {
    let mut menu = menu_at_entry(entry());
    let r = menu.entry_menu_selected(&chosen(1, EntryMenuCommand::Edit)).unwrap();
    assert!(
        matches!(r, EntryMenuRequest::Prompt(EntryMenuCommand::Edit, ref p, ref v) if p == "username" && v == "bob")
    );
    assert_eq!(menu.entry_menu_highlight(), 1);
    let save = menu
        .entry_menu_answer(EntryMenuCommand::Edit, Some("alice".to_string()))
        .unwrap()
        .unwrap();
    assert_eq!(save.0, "web/site");
    assert_eq!(
        save.1,
        "s3cret\nusername: alice\nemail: bob@x\nurl: http://x\notp_secret: ABC\n"
    );
    let unchanged = menu.entry_menu_answer(EntryMenuCommand::Edit, None).unwrap();
    assert!(unchanged.is_none());
    assert_eq!(menu.current_entry().unwrap().get_value_with_key("username"), Some("alice".to_string()));
}

#[test]
fn entry_menu_new_flow() {
    let mut menu = menu_at_entry(PassEntry::from_text("p", "pw\nk: v"));
    let r = menu.entry_menu_selected(&chosen(0, EntryMenuCommand::New)).unwrap();
    assert!(matches!(r, EntryMenuRequest::Prompt(EntryMenuCommand::New, ref p, ref v) if p == "new field" && v.is_empty()));
    let save = menu
        .entry_menu_answer(EntryMenuCommand::New, Some("note: x".to_string()))
        .unwrap()
        .unwrap();
    assert_eq!(save.1, "pw\nnote: x\nk: v\n");
    assert_eq!(menu.entry_menu_highlight(), 1);
}

#[test]
fn entry_menu_delete_adjusts_highlight() {
    let mut menu = menu_at_entry(PassEntry::from_text("p", "pw\na\nb"));
    let r = menu.entry_menu_selected(&chosen(2, EntryMenuCommand::Delete)).unwrap();
    assert!(matches!(r, EntryMenuRequest::Save(ref p, ref t) if p == "p" && t == "pw\na\n"));
    assert_eq!(menu.entry_menu_highlight(), 1);

    let mut menu = menu_at_entry(PassEntry::from_text("p", "pw\na\nb"));
    let r = menu.entry_menu_selected(&chosen(1, EntryMenuCommand::Delete)).unwrap();
    assert!(matches!(r, EntryMenuRequest::Save(_, ref t) if t == "pw\nb\n"));
    assert_eq!(menu.entry_menu_highlight(), 1);

    let mut menu = menu_at_entry(PassEntry::from_text("p", "pw\na"));
    assert_eq!(
        menu.entry_menu_selected(&chosen(0, EntryMenuCommand::Delete)).unwrap_err(),
        Error::CannotRemovePasswordField
    );
}

#[test]
fn entry_menu_autofill_and_copy_end_session() {
    let mut menu = menu_at_entry(entry());
    let r = menu.entry_menu_selected(&chosen(3, EntryMenuCommand::Copy)).unwrap();
    assert!(matches!(r, EntryMenuRequest::Act(ExternalAction::CopyText(ref t)) if t == "http://x"));
    assert!(!menu.active());

    let mut menu = menu_at_entry(entry());
    let r = menu.entry_menu_selected(&chosen(0, EntryMenuCommand::Autofill)).unwrap();
    assert!(matches!(r, EntryMenuRequest::Act(ExternalAction::TypeText(ref t)) if t == "s3cret"));
    assert!(!menu.active());
}

#[test]
fn entry_menu_selection_errors() {
    let mut menu = menu_at_entry(PassEntry::from_text("p", "pw"));
    assert_eq!(
        menu.entry_menu_selected(&chosen(1, EntryMenuCommand::Copy)).unwrap_err(),
        Error::IndexOutOfRange
    );
    let no_command: RofiSelectedItem<EntryMenuCommand> =
        RofiSelectedItem { index: Some(0), command: None };
    assert_eq!(menu.entry_menu_selected(&no_command).unwrap_err(), Error::UnknownCommand);
}

#[test]
fn keybinding_tables() {
    let main = main_menu_keybindings();
    assert_eq!(main.keybinds().len(), 10);
    assert_eq!(main.exit_code_to_command(Some(0)), Some(MainMenuCommand::Select));
    assert_eq!(main.exit_code_to_command(Some(10)), Some(MainMenuCommand::AutofillEmail));
    assert_eq!(main.exit_code_to_command(Some(19)), Some(MainMenuCommand::OpenURLInBrowser));
    assert_eq!(main.keybinds()[9].binding, "alt+w");
    let entry = entry_menu_keybindings();
    assert_eq!(entry.keybinds().len(), 4);
    assert_eq!(entry.exit_code_to_command(Some(11)), Some(EntryMenuCommand::Delete));
}
