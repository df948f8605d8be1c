//! Logging in, signing up and checking the login state.
use vstd::prelude::*;

use crate::requests::{login_json, login_json_spec, signup_json, signup_json_spec};

verus! {

/// Where the home page stands on the user's login.
#[derive(Debug, Clone, Copy, PartialEq, Eq, PartialOrd)]
pub enum AuthStatus {
    Loading,
    Authenticated,
    Unauthenticated,
}

/// What the home page does with the status of its login check: the page to
/// show, and the new value of the shared "authenticated" flag when it changes
/// (`None` when the flag is left as it is).
pub open spec fn login_check_spec(was_authenticated: bool, status: u16) -> (AuthStatus, Option<bool>) {
    if status == 200 {
        (AuthStatus::Authenticated, if was_authenticated { None } else { Some(true) })
    } else {
        (AuthStatus::Unauthenticated, if was_authenticated { Some(false) } else { None })
    }
}

/// Decides the outcome of the login check from the response status.
pub fn login_check_outcome(was_authenticated: bool, status: u16) -> (r: (AuthStatus, Option<bool>))
    ensures
        r == login_check_spec(was_authenticated, status),
{
    if !was_authenticated {
        if status == 200 {
            (AuthStatus::Authenticated, Some(true))
        } else {
            (AuthStatus::Unauthenticated, None)
        }
    } else {
        if status == 200 {
            (AuthStatus::Authenticated, None)
        } else {
            (AuthStatus::Unauthenticated, Some(false))
        }
    }
}

/// After a login check, the "authenticated" flag says whether the check
/// succeeded, and the page shown agrees with it, whatever the flag was before;
/// the flag is only written when its value changes.
pub proof fn lemma_login_check_agrees(was_authenticated: bool, status: u16)
    ensures
        ({
            let (page, change) = login_check_spec(was_authenticated, status);
            let now = match change {
                Some(b) => b,
                None => was_authenticated,
            };
            &&& now == (status == 200)
            &&& (page == AuthStatus::Authenticated) == now
            &&& (change matches Some(b) ==> b != was_authenticated)
        }),
{
}

/// The message when the cookies are not accepted at login.
pub open spec fn accept_cookies_msg() -> Seq<char> {
    "Please accept use of cookies"@
}

/// The login request: the credentials as JSON once the use of cookies is
/// accepted, else the message asking for it.
pub fn login_request(accepted_cookies: bool, username: &str, password: &str) -> (r: Result<
    String,
    String,
>)
    ensures
        accepted_cookies ==> (r matches Ok(body) && body@ == login_json_spec(username@, password@)),
        !accepted_cookies ==> (r matches Err(msg) && msg@ == accept_cookies_msg()),
{
    proof {
        reveal_strlit("Please accept use of cookies");
    }
    if accepted_cookies {
        Ok(login_json(username, password))
    } else {
        Err(String::from_str("Please accept use of cookies"))
    }
}

/// The message when the terms are not accepted at sign-up.
pub open spec fn accept_terms_msg() -> Seq<char> {
    "Please accept the terms and conditions"@
}

/// The sign-up request: the form as JSON once the terms are accepted, else
/// the message asking for it.
pub fn signup_request(accepted_terms: bool, name: &str, username: &str, password: &str) -> (r:
    Result<String, String>)
    ensures
        accepted_terms ==> (r matches Ok(body) && body@ == signup_json_spec(
            name@,
            username@,
            password@,
        )),
        !accepted_terms ==> (r matches Err(msg) && msg@ == accept_terms_msg()),
{
    proof {
        reveal_strlit("Please accept the terms and conditions");
    }
    if accepted_terms {
        Ok(signup_json(name, username, password))
    } else {
        Err(String::from_str("Please accept the terms and conditions"))
    }
}

/// Whether the password field shows its text, and how the field and its
/// toggle are rendered.
#[derive(Debug, Clone, PartialEq)]
pub struct ShowPassword {
    pub show: bool,
    pub input_type: String,
    pub span_class: String,
}

/// The rendering of the password field when its text is shown or hidden:
/// the input type and the class of the toggle.
pub open spec fn password_view(show: bool) -> (bool, Seq<char>, Seq<char>) {
    if show {
        (true, "text"@, "toggle-password show"@)
    } else {
        (false, "password"@, "toggle-password"@)
    }
}

impl ShowPassword {
    /// The rendering as a value.
    pub open spec fn view_of(&self) -> (bool, Seq<char>, Seq<char>) {
        (self.show, self.input_type@, self.span_class@)
    }

    /// The field after a click on the toggle: shown when it was hidden,
    /// hidden when it was shown.
    pub fn toggled(&self) -> (s: Self)
        ensures
            s.view_of() == password_view(!self.show),
    {
        proof {
            reveal_strlit("password");
            reveal_strlit("toggle-password");
            reveal_strlit("text");
            reveal_strlit("toggle-password show");
        }
        if self.show {
            ShowPassword {
                show: false,
                input_type: String::from_str("password"),
                span_class: String::from_str("toggle-password"),
            }
        } else {
            ShowPassword {
                show: true,
                input_type: String::from_str("text"),
                span_class: String::from_str("toggle-password show"),
            }
        }
    }
}

impl Default for ShowPassword {
    /// The field as the form opens: the password hidden.
    fn default() -> (s: Self)
        ensures
            s.view_of() == password_view(false),
    {
        proof {
            reveal_strlit("password");
            reveal_strlit("toggle-password");
        }
        ShowPassword {
            show: false,
            input_type: String::from_str("password"),
            span_class: String::from_str("toggle-password"),
        }
    }
}

/// Two clicks on the toggle bring the field back to how it was rendered.
pub proof fn lemma_toggle_twice(show: bool)
    ensures
        password_view(!!show) == password_view(show),
        password_view(!show) != password_view(show),
{
}

} // verus!
