use vstd::prelude::*;

verus! {

/// The ways in which an operation of this library can fail.
#[derive(Debug, PartialEq, Eq, Structural)]
pub enum Error {
    /// A field, key or value that an action needs is missing from an entry.
    NotFound,
    /// An index past the end: a field insertion beyond the last field, or a
    /// selector row that was not presented.
    IndexOutOfRange,
    /// A document mutation addressed a field that does not exist.
    FieldNotFound,
    /// The password field at index 0 cannot be removed.
    CannotRemovePasswordField,
    /// More custom keybindings were registered than the selector supports.
    TooManyKeybindings,
    /// Bytes that must be text are not valid UTF-8.
    EncodingError,
    /// The selector answered with something that is not a row index.
    InvalidSelectorOutput,
    /// The selector's exit status maps to no command.
    UnknownCommand,
    /// The secret store asked for a passphrase.
    PinentryRequired,
    /// The secret store rejected the passphrase.
    InvalidPassphrase,
    /// The secret store exited abnormally.
    StoreFailed,
    /// A required configuration value could not be resolved.
    ConfigurationError,
}

impl Error {
    /// A short human-readable description of the error.
    pub fn message(&self) -> (r: &'static str) {
        match self {
            Error::NotFound => "required value not found in entry",
            Error::IndexOutOfRange => "index out of range",
            Error::FieldNotFound => "no field found at given index",
            Error::CannotRemovePasswordField => "cannot delete password field",
            Error::TooManyKeybindings => "max number of custom rofi keybindings exceeded",
            Error::EncodingError => "text is not valid utf8",
            Error::InvalidSelectorOutput => "failed to parse item index",
            Error::UnknownCommand => "rofi command code not found",
            Error::PinentryRequired => "pinentry required",
            Error::InvalidPassphrase => "invalid passphrase provided",
            Error::StoreFailed => "pass exited with a failure status",
            Error::ConfigurationError => "can't find password store, please set $PASSWORD_STORE_DIR or $HOME",
        }
    }
}

} // verus!
