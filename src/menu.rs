use vstd::prelude::*;

use crate::error::Error;
use crate::pass::{
    field_label, field_value, inserted_field, opt_text, with_value, password_from, serialize, value_for_key, well_formed, FieldModel, PassEntry,
};
use crate::rofi::{CommandLabel, RofiCustomKeybindings, RofiSelectedItem};

verus! {

// ---------------------------------------------------------------------------
// Commands
// ---------------------------------------------------------------------------

/// What the user can do with an entry of the main listing.
#[derive(Debug, Clone, Copy, PartialEq, Eq, Structural)]
pub enum MainMenuCommand {
    Select,
    AutofillEmail,
    AutofillUsername,
    AutofillPassword,
    AutofillOTP,
    AutofillCustom,
    CopyEmail,
    CopyUsername,
    CopyPassword,
    CopyOTP,
    OpenURLInBrowser,
}

/// What the user can do with a field of an entry.
#[derive(Debug, Clone, Copy, PartialEq, Eq, Structural)]
pub enum EntryMenuCommand {
    Edit,
    New,
    Delete,
    Autofill,
    Copy,
}

impl CommandLabel for MainMenuCommand {
    open spec fn spec_label(&self) -> Seq<char> {
        match self {
            MainMenuCommand::Select => "select entry"@,
            MainMenuCommand::AutofillEmail => "autofill email"@,
            MainMenuCommand::AutofillUsername => "autofill username"@,
            MainMenuCommand::AutofillPassword => "autofill password"@,
            MainMenuCommand::AutofillOTP => "autofill otp"@,
            MainMenuCommand::AutofillCustom => "autofill (user/email)+pass"@,
            MainMenuCommand::CopyEmail => "copy email"@,
            MainMenuCommand::CopyUsername => "copy username"@,
            MainMenuCommand::CopyPassword => "copy password"@,
            MainMenuCommand::CopyOTP => "copy otp"@,
            MainMenuCommand::OpenURLInBrowser => "open url in web browser"@,
        }
    }

    fn label(&self) -> (r: String) {
        let s = match self {
            MainMenuCommand::Select => "select entry",
            MainMenuCommand::AutofillEmail => "autofill email",
            MainMenuCommand::AutofillUsername => "autofill username",
            MainMenuCommand::AutofillPassword => "autofill password",
            MainMenuCommand::AutofillOTP => "autofill otp",
            MainMenuCommand::AutofillCustom => "autofill (user/email)+pass",
            MainMenuCommand::CopyEmail => "copy email",
            MainMenuCommand::CopyUsername => "copy username",
            MainMenuCommand::CopyPassword => "copy password",
            MainMenuCommand::CopyOTP => "copy otp",
            MainMenuCommand::OpenURLInBrowser => "open url in web browser",
        };
        s.to_owned()
    }
}

impl CommandLabel for EntryMenuCommand {
    open spec fn spec_label(&self) -> Seq<char> {
        match self {
            EntryMenuCommand::Edit => "edit field"@,
            EntryMenuCommand::New => "new field"@,
            EntryMenuCommand::Delete => "delete field"@,
            EntryMenuCommand::Autofill => "autofill field"@,
            EntryMenuCommand::Copy => "copy field"@,
        }
    }

    fn label(&self) -> (r: String) {
        let s = match self {
            EntryMenuCommand::Edit => "edit field",
            EntryMenuCommand::New => "new field",
            EntryMenuCommand::Delete => "delete field",
            EntryMenuCommand::Autofill => "autofill field",
            EntryMenuCommand::Copy => "copy field",
        };
        s.to_owned()
    }
}

/// The key chords of the main listing, in registration order.
pub open spec fn main_menu_chords() -> Seq<Seq<char>> {
    seq![
        "alt+1"@,
        "alt+e"@,
        "alt+2"@,
        "alt+u"@,
        "alt+3"@,
        "alt+p"@,
        "alt+4"@,
        "alt+o"@,
        "alt+5"@,
        "alt+w"@,
    ]
}

/// The custom commands of the main listing, in registration order.
pub open spec fn main_menu_commands() -> Seq<MainMenuCommand> {
    seq![
        MainMenuCommand::AutofillEmail,
        MainMenuCommand::CopyEmail,
        MainMenuCommand::AutofillUsername,
        MainMenuCommand::CopyUsername,
        MainMenuCommand::AutofillPassword,
        MainMenuCommand::CopyPassword,
        MainMenuCommand::AutofillOTP,
        MainMenuCommand::CopyOTP,
        MainMenuCommand::AutofillCustom,
        MainMenuCommand::OpenURLInBrowser,
    ]
}

/// The key chords of the field listing, in registration order.
pub open spec fn entry_menu_chords() -> Seq<Seq<char>> {
    seq!["alt+n"@, "alt+d"@, "alt+1"@, "alt+c"@]
}

/// The custom commands of the field listing, in registration order.
pub open spec fn entry_menu_commands() -> Seq<EntryMenuCommand> {
    seq![
        EntryMenuCommand::New,
        EntryMenuCommand::Delete,
        EntryMenuCommand::Autofill,
        EntryMenuCommand::Copy,
    ]
}

/// The keybinding table of the main listing: selecting an entry by default,
/// five autofill and five copy or browser commands.
pub fn main_menu_keybindings() -> (r: RofiCustomKeybindings<MainMenuCommand>)
    ensures
        r.select_command() == MainMenuCommand::Select,
        r.commands() == main_menu_commands(),
        r.bindings().map_values(|k: crate::rofi::Keybind<MainMenuCommand>| k.binding@)
            == main_menu_chords(),
        r.wf(),
{
    let mut t = RofiCustomKeybindings::new(MainMenuCommand::Select);
    t.push_binding("alt+1", MainMenuCommand::AutofillEmail);
    t.push_binding("alt+e", MainMenuCommand::CopyEmail);
    t.push_binding("alt+2", MainMenuCommand::AutofillUsername);
    t.push_binding("alt+u", MainMenuCommand::CopyUsername);
    t.push_binding("alt+3", MainMenuCommand::AutofillPassword);
    t.push_binding("alt+p", MainMenuCommand::CopyPassword);
    t.push_binding("alt+4", MainMenuCommand::AutofillOTP);
    t.push_binding("alt+o", MainMenuCommand::CopyOTP);
    t.push_binding("alt+5", MainMenuCommand::AutofillCustom);
    t.push_binding("alt+w", MainMenuCommand::OpenURLInBrowser);
    assert(t.commands() =~= main_menu_commands());
    assert(t.bindings().map_values(|k: crate::rofi::Keybind<MainMenuCommand>| k.binding@)
        =~= main_menu_chords());
    t
}

/// The keybinding table of the field listing: editing a field by default,
/// then new, delete, autofill and copy.
pub fn entry_menu_keybindings() -> (r: RofiCustomKeybindings<EntryMenuCommand>)
    ensures
        r.select_command() == EntryMenuCommand::Edit,
        r.commands() == entry_menu_commands(),
        r.bindings().map_values(|k: crate::rofi::Keybind<EntryMenuCommand>| k.binding@)
            == entry_menu_chords(),
        r.wf(),
{
    let mut t = RofiCustomKeybindings::new(EntryMenuCommand::Edit);
    t.push_binding("alt+n", EntryMenuCommand::New);
    t.push_binding("alt+d", EntryMenuCommand::Delete);
    t.push_binding("alt+1", EntryMenuCommand::Autofill);
    t.push_binding("alt+c", EntryMenuCommand::Copy);
    assert(t.commands() =~= entry_menu_commands());
    assert(t.bindings().map_values(|k: crate::rofi::Keybind<EntryMenuCommand>| k.binding@)
        =~= entry_menu_chords());
    t
}

// ---------------------------------------------------------------------------
// Actions handed to the outside world
// ---------------------------------------------------------------------------

/// A side effect that ends the session.
#[derive(Debug)]
pub enum ExternalAction {
    /// Type the text into a window that the user picks.
    TypeText(String),
    /// Type the login, a tab and the password into a window that the user picks.
    TypeLogin(String, String),
    /// Type the current one-time password of the secret into a window.
    TypeOtp(String),
    /// Put the text on the clipboard.
    CopyText(String),
    /// Put the current one-time password of the secret on the clipboard.
    CopyOtp(String),
    /// Open the URL (second) with the browser (first).
    OpenUrl(String, String),
}

/// What an action means, over character sequences.
pub enum ActionModel {
    TypeText(Seq<char>),
    TypeLogin(Seq<char>, Seq<char>),
    TypeOtp(Seq<char>),
    CopyText(Seq<char>),
    CopyOtp(Seq<char>),
    OpenUrl(Seq<char>, Seq<char>),
}

impl View for ExternalAction {
    type V = ActionModel;

    open spec fn view(&self) -> ActionModel {
        match self {
            ExternalAction::TypeText(t) => ActionModel::TypeText(t@),
            ExternalAction::TypeLogin(l, p) => ActionModel::TypeLogin(l@, p@),
            ExternalAction::TypeOtp(s) => ActionModel::TypeOtp(s@),
            ExternalAction::CopyText(t) => ActionModel::CopyText(t@),
            ExternalAction::CopyOtp(s) => ActionModel::CopyOtp(s@),
            ExternalAction::OpenUrl(b, u) => ActionModel::OpenUrl(b@, u@),
        }
    }
}

/// The action that a command of the main listing other than `Select` asks
/// for on an entry with `fields`, or `NotFound` when the entry lacks the value
/// it needs (or, to open a URL, no browser is configured).
pub open spec fn main_menu_action(
    command: MainMenuCommand,
    fields: Seq<FieldModel>,
    browser: Option<Seq<char>>,
) -> Result<ActionModel, Error> {
    let email = value_for_key(fields, "email"@);
    let username = value_for_key(fields, "username"@);
    let password = password_from(fields, 0);
    let otp_secret = value_for_key(fields, "otp_secret"@);
    let url = value_for_key(fields, "url"@);
    match command {
        MainMenuCommand::AutofillEmail => match email {
            Some(v) => Ok(ActionModel::TypeText(v)),
            None => Err(Error::NotFound),
        },
        MainMenuCommand::AutofillUsername => match username {
            Some(v) => Ok(ActionModel::TypeText(v)),
            None => Err(Error::NotFound),
        },
        MainMenuCommand::AutofillPassword => match password {
            Some(v) => Ok(ActionModel::TypeText(v)),
            None => Err(Error::NotFound),
        },
        MainMenuCommand::AutofillOTP => match otp_secret {
            Some(v) => Ok(ActionModel::TypeOtp(v)),
            None => Err(Error::NotFound),
        },
        MainMenuCommand::AutofillCustom => {
            let login = if username is Some {
                username
            } else {
                email
            };
            match (login, password) {
                (Some(l), Some(p)) => Ok(ActionModel::TypeLogin(l, p)),
                _ => Err(Error::NotFound),
            }
        },
        MainMenuCommand::CopyEmail => match email {
            Some(v) => Ok(ActionModel::CopyText(v)),
            None => Err(Error::NotFound),
        },
        MainMenuCommand::CopyUsername => match username {
            Some(v) => Ok(ActionModel::CopyText(v)),
            None => Err(Error::NotFound),
        },
        MainMenuCommand::CopyPassword => match password {
            Some(v) => Ok(ActionModel::CopyText(v)),
            None => Err(Error::NotFound),
        },
        MainMenuCommand::CopyOTP => match otp_secret {
            Some(v) => Ok(ActionModel::CopyOtp(v)),
            None => Err(Error::NotFound),
        },
        MainMenuCommand::OpenURLInBrowser => match (browser, url) {
            (Some(b), Some(u)) => Ok(ActionModel::OpenUrl(b, u)),
            _ => Err(Error::NotFound),
        },
        MainMenuCommand::Select => Err(Error::UnknownCommand),
    }
}

/// The value, when there is one.
fn required(v: Option<String>) -> (r: Result<String, Error>)
    ensures
        v matches Some(s) ==> r == Ok::<String, Error>(s),
        v is None ==> r == Err::<String, Error>(Error::NotFound),
{
    match v {
        Some(s) => Ok(s),
        None => Err(Error::NotFound),
    }
}

// ---------------------------------------------------------------------------
// The state machine
// ---------------------------------------------------------------------------

/// The screen that the menu shows next.
#[derive(Debug)]
pub enum MenuState {
    MainMenu,
    EntryMenu(PassEntry),
    Done,
}

/// The menu: its current screen and the row remembered for each screen.
#[derive(Debug)]
pub struct Menu {
    state: MenuState,
    main_menu_selected_index: usize,
    entry_menu_selected_index: usize,
}

/// What the field listing asks of its driver after a selection.
#[derive(Debug)]
pub enum EntryMenuRequest {
    /// Nothing was chosen; the menu is back at the main listing.
    Back,
    /// Ask the user for a value, with this prompt and initial text, and hand
    /// the answer to [`Menu::entry_menu_answer`] with this command.
    Prompt(EntryMenuCommand, String, String),
    /// Save the entry at this path with this text; the menu already shows the
    /// changed entry.
    Save(String, String),
    /// Perform the action; the menu is done.
    Act(ExternalAction),
}

impl Menu {
    /// The current screen.
    pub closed spec fn spec_state(&self) -> MenuState {
        self.state
    }

    /// The row remembered for the main listing.
    pub closed spec fn main_index(&self) -> usize {
        self.main_menu_selected_index
    }

    /// The row remembered for the field listing.
    pub closed spec fn entry_index(&self) -> usize {
        self.entry_menu_selected_index
    }

    /// The entry on screen, if any, is live: its first field is the password.
    pub open spec fn wf(&self) -> bool {
        self.spec_state() is EntryMenu ==> well_formed(self.entry_fields())
    }

    /// The fields of the entry on screen, when the field listing is shown.
    pub open spec fn entry_fields(&self) -> Seq<FieldModel> {
        self.spec_state()->EntryMenu_0.fields_view()
    }

    /// The path of the entry on screen, when the field listing is shown.
    pub open spec fn entry_path(&self) -> Seq<char> {
        self.spec_state()->EntryMenu_0.path@
    }

    /// A menu at the main listing with both remembered rows at 0.
    pub fn new() -> (r: Menu)
        ensures
            r.spec_state() is MainMenu,
            r.wf(),
            r.main_index() == 0,
            r.entry_index() == 0,
    {
        Menu { state: MenuState::MainMenu, main_menu_selected_index: 0, entry_menu_selected_index: 0 }
    }

    /// Whether the session goes on.
    pub fn active(&self) -> (r: bool)
        ensures
            r == !(self.spec_state() is Done),
    {
        !matches!(self.state, MenuState::Done)
    }

    /// Whether the main listing is shown next.
    pub fn at_main_menu(&self) -> (r: bool)
        ensures
            r == (self.spec_state() is MainMenu),
    {
        matches!(self.state, MenuState::MainMenu)
    }

    /// The entry whose fields are shown next, when the field listing is.
    pub fn current_entry(&self) -> (r: Option<&PassEntry>)
        ensures
            self.spec_state() is EntryMenu ==> r == Some(&self.spec_state()->EntryMenu_0),
            !(self.spec_state() is EntryMenu) ==> r is None,
    {
        match &self.state {
            MenuState::EntryMenu(e) => Some(e),
            _ => None,
        }
    }

    /// Enters the main listing: forgets the row of the field listing and
    /// returns the row to highlight.
    pub fn enter_main_menu(&mut self) -> (r: usize)
        ensures
            r == old(self).main_index(),
            final(self).main_index() == old(self).main_index(),
            final(self).entry_index() == 0,
            final(self).spec_state() == old(self).spec_state(),
            old(self).wf() ==> final(self).wf(),
    {
        self.entry_menu_selected_index = 0;
        self.main_menu_selected_index
    }

    /// The row of the field listing to highlight.
    pub fn entry_menu_highlight(&self) -> (r: usize)
        ensures
            r == self.entry_index(),
    {
        self.entry_menu_selected_index
    }

    /// Takes the user's choice in the main listing over `entry_paths`:
    /// remembers the row, and returns the path of the chosen entry and the
    /// command. Choosing nothing cancels: that is no error, it returns no
    /// entry and ends the session.
    pub fn main_menu_selected(
        &mut self,
        selection: &RofiSelectedItem<MainMenuCommand>,
        entry_paths: &Vec<String>,
    ) -> (r: Result<Option<(String, MainMenuCommand)>, Error>)
        ensures
            final(self).main_index() == match selection.index {
                Some(i) => i,
                None => 0,
            },
            final(self).entry_index() == old(self).entry_index(),
            old(self).wf() ==> final(self).wf(),
            selection.index is None ==> final(self).spec_state() is Done,
            selection.index is Some ==> final(self).spec_state() == old(self).spec_state(),
            match selection.index {
                None => r == Ok::<Option<(String, MainMenuCommand)>, Error>(None),
                Some(i) => if i >= entry_paths@.len() {
                    r == Err::<Option<(String, MainMenuCommand)>, Error>(Error::IndexOutOfRange)
                } else {
                    match selection.command {
                        None => r == Err::<Option<(String, MainMenuCommand)>, Error>(
                            Error::UnknownCommand,
                        ),
                        Some(c) => (r matches Ok(Some((p, k))) && p@ == entry_paths@[i as int]@ && k
                            == c),
                    }
                },
            },
    {
        let index = match selection.index {
            Some(i) => i,
            None => 0,
        };
        self.main_menu_selected_index = index;
        let i = match selection.index {
            Some(i) => i,
            None => {
                self.state = MenuState::Done;
                return Ok(None);
            },
        };
        if i >= entry_paths.len() {
            return Err(Error::IndexOutOfRange);
        }
        let command = match selection.command {
            Some(c) => c,
            None => {
                return Err(Error::UnknownCommand);
            },
        };
        Ok(Some((entry_paths[i].clone(), command)))
    }

    /// Carries out a command of the main listing on the loaded `entry`:
    /// `Select` shows its fields next; every other command returns the action
    /// to perform and ends the session, or fails when the entry lacks the
    /// value it needs.
    pub fn main_menu_command(
        &mut self,
        command: MainMenuCommand,
        entry: PassEntry,
        browser: &Option<String>,
    ) -> (r: Result<Option<ExternalAction>, Error>)
        ensures
            final(self).main_index() == old(self).main_index(),
            final(self).entry_index() == old(self).entry_index(),
            old(self).wf() && entry.wf() ==> final(self).wf(),
            command == MainMenuCommand::Select ==> (r matches Ok(None) && final(self).spec_state()
                == MenuState::EntryMenu(entry)),
            command != MainMenuCommand::Select ==> match main_menu_action(
                command,
                entry.fields_view(),
                opt_text(*browser),
            ) {
                Ok(a) => (r matches Ok(Some(act)) && act@ == a && final(self).spec_state() is Done),
                Err(e) => r == Err::<Option<ExternalAction>, Error>(e) && final(self).spec_state()
                    == old(self).spec_state(),
            },
    {
        let action = match command {
            MainMenuCommand::Select => {
                self.state = MenuState::EntryMenu(entry);
                return Ok(None);
            },
            MainMenuCommand::AutofillEmail => ExternalAction::TypeText(
                required(entry.get_value_with_key("email"))?,
            ),
            MainMenuCommand::AutofillUsername => ExternalAction::TypeText(
                required(entry.get_value_with_key("username"))?,
            ),
            MainMenuCommand::AutofillPassword => ExternalAction::TypeText(
                required(entry.get_password())?,
            ),
            MainMenuCommand::AutofillOTP => ExternalAction::TypeOtp(
                required(entry.get_value_with_key("otp_secret"))?,
            ),
            MainMenuCommand::AutofillCustom => {
                let login = match entry.get_value_with_key("username") {
                    Some(u) => Some(u),
                    None => entry.get_value_with_key("email"),
                };
                let login = required(login)?;
                let password = required(entry.get_password())?;
                ExternalAction::TypeLogin(login, password)
            },
            MainMenuCommand::CopyEmail => ExternalAction::CopyText(
                required(entry.get_value_with_key("email"))?,
            ),
            MainMenuCommand::CopyUsername => ExternalAction::CopyText(
                required(entry.get_value_with_key("username"))?,
            ),
            MainMenuCommand::CopyPassword => ExternalAction::CopyText(
                required(entry.get_password())?,
            ),
            MainMenuCommand::CopyOTP => ExternalAction::CopyOtp(
                required(entry.get_value_with_key("otp_secret"))?,
            ),
            MainMenuCommand::OpenURLInBrowser => {
                let b = match browser {
                    Some(b) => b.clone(),
                    None => {
                        return Err(Error::NotFound);
                    },
                };
                let url = required(entry.get_value_with_key("url"))?;
                ExternalAction::OpenUrl(b, url)
            },
        };
        self.state = MenuState::Done;
        Ok(Some(action))
    }

    /// Takes the user's choice in the field listing: remembers the row and
    /// says what the driver does next. Nothing chosen goes back to the main
    /// listing; edit and new ask for a value first; delete removes the field
    /// (never the password at row 0), keeps the remembered row in range and
    /// asks for the entry to be saved; autofill and copy end the session with
    /// the field's value.
    pub fn entry_menu_selected(&mut self, selection: &RofiSelectedItem<EntryMenuCommand>) -> (r:
        Result<EntryMenuRequest, Error>)
        requires
            old(self).spec_state() is EntryMenu,
        ensures
            final(self).main_index() == old(self).main_index(),
            old(self).wf() ==> final(self).wf(),
            ({
                let f = old(self).entry_fields();
                match selection.index {
                    None => {
                        &&& r matches Ok(EntryMenuRequest::Back)
                        &&& final(self).spec_state() is MainMenu
                        &&& final(self).entry_index() == 0
                    },
                    Some(i) => if i >= f.len() {
                        r == Err::<EntryMenuRequest, Error>(Error::IndexOutOfRange)
                    } else {
                        match selection.command {
                            None => r == Err::<EntryMenuRequest, Error>(Error::UnknownCommand),
                            Some(EntryMenuCommand::Edit) => {
                                &&& final(self).spec_state() == old(self).spec_state()
                                &&& final(self).entry_index() == i
                                &&& r matches Ok(EntryMenuRequest::Prompt(c, p, v))
                                &&& c == EntryMenuCommand::Edit
                                &&& p@ == field_label(f[i as int])
                                &&& v@ == field_value(f[i as int])
                            },
                            Some(EntryMenuCommand::New) => {
                                &&& final(self).spec_state() == old(self).spec_state()
                                &&& final(self).entry_index() == i
                                &&& r matches Ok(EntryMenuRequest::Prompt(c, p, v))
                                &&& c == EntryMenuCommand::New
                                &&& p@ == "new field"@
                                &&& v@.len() == 0
                            },
                            Some(EntryMenuCommand::Delete) => if i == 0 {
                                r == Err::<EntryMenuRequest, Error>(Error::CannotRemovePasswordField)
                            } else {
                                &&& final(self).spec_state() is EntryMenu
                                &&& final(self).entry_fields() == f.remove(i as int)
                                &&& final(self).entry_path() == old(self).entry_path()
                                &&& final(self).entry_index() == if i + 1 == f.len() {
                                    (i - 1) as usize
                                } else {
                                    i
                                }
                                &&& r matches Ok(EntryMenuRequest::Save(p, t))
                                &&& p@ == old(self).entry_path()
                                &&& t@ == serialize(f.remove(i as int)) + seq!['\n']
                            },
                            Some(EntryMenuCommand::Autofill) => {
                                &&& final(self).spec_state() is Done
                                &&& r matches Ok(EntryMenuRequest::Act(a))
                                &&& a@ == ActionModel::TypeText(field_value(f[i as int]))
                            },
                            Some(EntryMenuCommand::Copy) => {
                                &&& final(self).spec_state() is Done
                                &&& r matches Ok(EntryMenuRequest::Act(a))
                                &&& a@ == ActionModel::CopyText(field_value(f[i as int]))
                            },
                        }
                    },
                }
            }),
    {
        let index = match selection.index {
            Some(i) => i,
            None => 0,
        };
        let i = match selection.index {
            Some(i) => i,
            None => {
                self.entry_menu_selected_index = 0;
                self.state = MenuState::MainMenu;
                return Ok(EntryMenuRequest::Back);
            },
        };
        let entry = match &self.state {
            MenuState::EntryMenu(e) => e,
            _ => {
                return Err(Error::UnknownCommand);
            },
        };
        if i >= entry.fields.len() {
            return Err(Error::IndexOutOfRange);
        }
        let command = match selection.command {
            Some(c) => c,
            None => {
                return Err(Error::UnknownCommand);
            },
        };
        let field = &entry.fields[i];
        match command {
            EntryMenuCommand::Edit => {
                let prompt = field.key_label();
                let value = field.value().clone();
                self.entry_menu_selected_index = index;
                Ok(EntryMenuRequest::Prompt(EntryMenuCommand::Edit, prompt, value))
            },
            EntryMenuCommand::New => {
                self.entry_menu_selected_index = index;
                Ok(EntryMenuRequest::Prompt(EntryMenuCommand::New, "new field".to_owned(), String::new()))
            },
            EntryMenuCommand::Delete => {
                let mut new_entry = entry.duplicate();
                new_entry.remove_field(i)?;
                let path = new_entry.path.clone();
                let payload = new_entry.store_payload();
                let remaining = new_entry.fields.len();
                self.state = MenuState::EntryMenu(new_entry);
                self.entry_menu_selected_index = if remaining < i + 1 {
                    i - 1
                } else {
                    i
                };
                Ok(EntryMenuRequest::Save(path, payload))
            },
            EntryMenuCommand::Autofill => {
                let value = field.value().clone();
                self.entry_menu_selected_index = index;
                self.state = MenuState::Done;
                Ok(EntryMenuRequest::Act(ExternalAction::TypeText(value)))
            },
            EntryMenuCommand::Copy => {
                let value = field.value().clone();
                self.entry_menu_selected_index = index;
                self.state = MenuState::Done;
                Ok(EntryMenuRequest::Act(ExternalAction::CopyText(value)))
            },
        }
    }

    /// Applies the answer to the prompt that `command` (edit or new) asked
    /// for. No answer leaves the entry unchanged. Edit replaces the value of
    /// the remembered row; new inserts the answer after it (at row 0 when the
    /// entry has no fields) and moves the remembered row down by one. A change
    /// returns the path and text to save.
    pub fn entry_menu_answer(&mut self, command: EntryMenuCommand, answer: Option<String>) -> (r:
        Result<Option<(String, String)>, Error>)
        requires
            old(self).spec_state() is EntryMenu,
        ensures
            final(self).main_index() == old(self).main_index(),
            old(self).wf() ==> final(self).wf(),
            ({
                let f = old(self).entry_fields();
                let i = old(self).entry_index();
                match (command, answer) {
                    (EntryMenuCommand::Edit, Some(v)) => if i < f.len() {
                        &&& final(self).spec_state() is EntryMenu
                        &&& final(self).entry_path() == old(self).entry_path()
                        &&& final(self).entry_fields() == f.update(
                            i as int,
                            with_value(f[i as int], v@),
                        )
                        &&& final(self).entry_index() == i
                        &&& r matches Ok(Some((p, t)))
                        &&& p@ == old(self).entry_path()
                        &&& t@ == serialize(final(self).entry_fields()) + seq!['\n']
                    } else {
                        r == Err::<Option<(String, String)>, Error>(Error::FieldNotFound)
                    },
                    (EntryMenuCommand::New, Some(v)) => {
                        let at = if f.len() == 0 {
                            i as int
                        } else {
                            i + 1
                        };
                        if at <= f.len() {
                            &&& final(self).spec_state() is EntryMenu
                            &&& final(self).entry_path() == old(self).entry_path()
                            &&& final(self).entry_fields() == f.insert(at, inserted_field(at, v@))
                            &&& final(self).entry_index() == i + 1
                            &&& r matches Ok(Some((p, t)))
                            &&& p@ == old(self).entry_path()
                            &&& t@ == serialize(final(self).entry_fields()) + seq!['\n']
                        } else {
                            r == Err::<Option<(String, String)>, Error>(Error::IndexOutOfRange)
                        }
                    },
                    _ => {
                        &&& r == Ok::<Option<(String, String)>, Error>(None)
                        &&& final(self).spec_state() == old(self).spec_state()
                        &&& final(self).entry_index() == i
                    },
                }
            }),
    {
        let value = match answer {
            Some(v) => v,
            None => {
                return Ok(None);
            },
        };
        let entry = match &self.state {
            MenuState::EntryMenu(e) => e,
            _ => {
                return Ok(None);
            },
        };
        let i = self.entry_menu_selected_index;
        match command {
            EntryMenuCommand::Edit => {
                let mut new_entry = entry.duplicate();
                new_entry.modify_field_value(i, value.as_str())?;
                let path = new_entry.path.clone();
                let payload = new_entry.store_payload();
                self.state = MenuState::EntryMenu(new_entry);
                Ok(Some((path, payload)))
            },
            EntryMenuCommand::New => {
                let mut new_entry = entry.duplicate();
                let at = if new_entry.fields.len() == 0 {
                    i
                } else {
                    if i >= new_entry.fields.len() {
                        return Err(Error::IndexOutOfRange);
                    }
                    i + 1
                };
                new_entry.insert_new_field(at, value.as_str())?;
                let path = new_entry.path.clone();
                let payload = new_entry.store_payload();
                self.state = MenuState::EntryMenu(new_entry);
                self.entry_menu_selected_index = i + 1;
                Ok(Some((path, payload)))
            },
            _ => Ok(None),
        }
    }
}

} // verus!
