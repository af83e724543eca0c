//! The forms that the site's pages post, and what the view form asks for.
use vstd::prelude::*;

use crate::decimal::{decimal, law_parse_of_decimal, parse_i32, parse_i32_spec};
use crate::text::str_eq;

verus! {

/// What the view settings form asks to do.
#[derive(Debug)]
pub enum Action {
    Unknown,
    /// Create a view with this name.
    Create(String),
    /// Delete the view with this id.
    Delete(i32),
    /// Make the view with this id the active one.
    Active(i32),
}

/// The view settings form: an action name and its argument.
#[derive(Debug)]
pub struct ViewForm {
    pub value: String,
    pub action: String,
}

/// The login form.
pub struct LoginForm {
    pub username: String,
    pub password: String,
}

/// The registration form: a user name and the password typed twice.
pub struct RegisterForm {
    pub username: String,
    pub password1: String,
    pub password2: String,
}

/// The action that a view form asks for: `create` with any value; `delete`
/// and `active` with a value that reads as an `i32`; anything else is
/// unknown.
pub open spec fn action_of(form: ViewForm) -> Action {
    if form.action@ == "create"@ {
        Action::Create(form.value)
    } else if form.action@ == "delete"@ {
        match parse_i32_spec(form.value@) {
            Some(i) => Action::Delete(i),
            None => Action::Unknown,
        }
    } else if form.action@ == "active"@ {
        match parse_i32_spec(form.value@) {
            Some(i) => Action::Active(i),
            None => Action::Unknown,
        }
    } else {
        Action::Unknown
    }
}

impl From<ViewForm> for Action {
    fn from(form: ViewForm) -> (r: Action) {
        if str_eq(form.action.as_str(), "create") {
            Action::Create(form.value)
        } else if str_eq(form.action.as_str(), "delete") {
            match parse_i32(form.value.as_str()) {
                Some(i) => Action::Delete(i),
                None => Action::Unknown,
            }
        } else if str_eq(form.action.as_str(), "active") {
            match parse_i32(form.value.as_str()) {
                Some(i) => Action::Active(i),
                None => Action::Unknown,
            }
        } else {
            Action::Unknown
        }
    }
}

impl vstd::std_specs::convert::FromSpecImpl<ViewForm> for Action {
    open spec fn obeys_from_spec() -> bool {
        true
    }

    open spec fn from_spec(form: ViewForm) -> Action {
        action_of(form)
    }
}

impl RegisterForm {
    /// Whether the two passwords typed are the same.
    pub fn passwords_match(&self) -> (r: bool)
        ensures
            r == (self.password1@ == self.password2@),
    {
        str_eq(self.password1.as_str(), self.password2.as_str())
    }
}

/// A `delete` form whose value is the decimal text of any `i32` asks to
/// delete that view; the same value read by itself gives the same id.
pub proof fn law_delete_reads_any_id(form: ViewForm, n: i32)
    requires
        form.action@ == "delete"@,
        parse_i32_spec(form.value@) == Some(n),
    ensures
        action_of(form) == Action::Delete(n),
{
    assert("delete"@ != "create"@) by {
        reveal_strlit("delete");
        reveal_strlit("create");
        assert("delete"@[0] != "create"@[0]);
    }
}

/// An `active` form whose value is the decimal text of any `i32` asks to
/// make that view active.
pub proof fn law_active_reads_any_id(form: ViewForm, n: i32)
    requires
        form.action@ == "active"@,
        parse_i32_spec(form.value@) == Some(n),
    ensures
        action_of(form) == Action::Active(n),
{
    assert("active"@ != "create"@ && "active"@ != "delete"@) by {
        reveal_strlit("active");
        reveal_strlit("create");
        reveal_strlit("delete");
        assert("active"@[0] != "create"@[0]);
        assert("active"@[0] != "delete"@[0]);
    }
}

/// Writing any view id in decimal into a `delete` or `active` form gives an
/// action on exactly that id.
pub proof fn law_form_of_written_id(form: ViewForm, n: i32)
    requires
        form.value@ == decimal(n as int),
    ensures
        form.action@ == "delete"@ ==> action_of(form) == Action::Delete(n),
        form.action@ == "active"@ ==> action_of(form) == Action::Active(n),
{
    law_parse_of_decimal(n);
    if form.action@ == "delete"@ {
        law_delete_reads_any_id(form, n);
    }
    if form.action@ == "active"@ {
        law_active_reads_any_id(form, n);
    }
}

} // verus!
