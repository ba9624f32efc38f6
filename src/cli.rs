use vstd::prelude::*;

use crate::error::Error;
use crate::store::{store_path_for, PassStoreDirectory};

verus! {

/// The settings of one session.
#[derive(Debug)]
pub struct Config {
    /// The browser that opens URLs, if one is configured.
    pub browser: Option<String>,
    /// Errors are not shown as desktop notifications.
    pub no_notify: bool,
    /// The selector's matching method: `normal`, `regex`, `glob` or `fuzzy`.
    pub rofi_matching: String,
    /// The root directory of the password store.
    pub pass_store_path: String,
}

impl Config {
    /// The settings from the values given on the command line or in the
    /// environment, and the home directory; fails when no store root can be
    /// resolved.
    pub fn new(
        browser: Option<String>,
        no_notify: bool,
        rofi_matching: String,
        password_store_dir: Option<String>,
        home: Option<String>,
    ) -> (r: Result<Config, Error>)
        ensures
            match store_path_for(crate::pass::opt_text(password_store_dir), crate::pass::opt_text(home)) {
                Some(p) => r matches Ok(c) && c.browser == browser && c.no_notify == no_notify
                    && c.rofi_matching == rofi_matching && c.pass_store_path@ == p,
                None => r == Err::<Config, Error>(Error::ConfigurationError),
            },
    {
        let pass_store_path = PassStoreDirectory::calculate_pass_store_path(&password_store_dir, &home)?;
        Ok(Config { browser, no_notify, rofi_matching, pass_store_path })
    }
}

} // verus!
