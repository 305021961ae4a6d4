//! Session state around the launcher's login screen: which screen is
//! current and what the login flow stores once it has run — the credentials
//! the user entered and the tokens the authentication service returned.
//! Persisting either (to config or process memory shared with the UI) is
//! the caller's concern; this holds the values and the rules for updating
//! them.

use vstd::prelude::*;

verus! {

/// The screens the terminal UI can show.
#[derive(Clone, Copy, Debug, Hash, PartialEq, Eq, Structural)]
pub enum Screen {
    Login,
}

impl Default for Screen {
    /// The UI starts on the login screen.
    fn default() -> (r: Screen)
        ensures
            r == Screen::Login,
    {
        Screen::Login
    }
}

/// The state the login screen accumulates: the submitted credentials and,
/// after a successful authentication, the session tokens.
pub struct LoginScreen {
    pub username: String,
    pub password: String,
    pub access_token: Option<String>,
    pub client_token: Option<String>,
}

impl LoginScreen {
    /// A fresh login screen: nothing entered, nothing granted.
    pub fn new() -> (r: LoginScreen)
        ensures
            r.username@ == Seq::<char>::empty(),
            r.password@ == Seq::<char>::empty(),
            r.access_token is None,
            r.client_token is None,
    {
        LoginScreen {
            username: String::new(),
            password: String::new(),
            access_token: None,
            client_token: None,
        }
    }

    /// Whether a login request may be submitted: both fields are filled.
    /// An empty field is rejected before anything is sent.
    pub fn credentials_present(&self) -> (r: bool)
        ensures
            r == (self.username@.len() > 0 && self.password@.len() > 0),
    {
        !self.username.as_str().is_empty() && !self.password.as_str().is_empty()
    }

    /// Stores the credentials that authenticated, leaving the tokens as
    /// they were.
    pub fn save_credentials(&mut self, username: String, password: String)
        ensures
            final(self).username == username,
            final(self).password == password,
            final(self).access_token == old(self).access_token,
            final(self).client_token == old(self).client_token,
    {
        self.username = username;
        self.password = password;
    }

    /// Stores the tokens the authentication service returned, leaving the
    /// credentials as they were.
    pub fn save_tokens(&mut self, access_token: String, client_token: String)
        ensures
            final(self).access_token == Some(access_token),
            final(self).client_token == Some(client_token),
            final(self).username == old(self).username,
            final(self).password == old(self).password,
    {
        self.access_token = Some(access_token);
        self.client_token = Some(client_token);
    }
}

} // verus!
