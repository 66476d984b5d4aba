//! The checks that the web forms make before they call the server.
use vstd::prelude::*;

use crate::decimal::{
    all_ascii_digits, lemma_digits_prefix, parse_i64_spec, parse_u64, without_plus,
};
use crate::app_error::AppError;
use crate::text::{file_stem, file_stem_of, same_text, trim, trimmed};
use crate::textures::Texture;

verus! {

/// The byte length of a text in UTF-8, which `str::len` gives.
pub open spec fn utf8_len(s: Seq<char>) -> nat {
    vstd::utf8::encode_utf8(s).len()
}

/// The shortest password that registration accepts, in bytes.
pub const MIN_PASSWORD_LEN: usize = 4usize;

/// Why the login form refuses to send.
#[derive(Debug, Clone, Copy, PartialEq, Eq, Structural)]
pub enum LoginFormError {
    /// The user name is empty or only white space.
    EmptyUsername,
    /// The password is empty.
    EmptyPassword,
    /// On registration, the repeated password differs.
    PasswordMismatch,
    /// On registration, the password is shorter than `MIN_PASSWORD_LEN` bytes.
    WeakPassword,
}

/// The contents of the login form, as values.
pub struct LoginFormView {
    pub username: Seq<char>,
    pub password: Seq<char>,
    pub password_repeat: Seq<char>,
    pub register: bool,
}

/// The login form: log in, or register (`register`) with a repeated password.
pub struct LoginForm {
    pub username: String,
    pub password: String,
    pub password_repeat: String,
    pub register: bool,
}

impl View for LoginForm {
    type V = LoginFormView;

    open spec fn view(&self) -> LoginFormView {
        LoginFormView {
            username: self.username@,
            password: self.password@,
            password_repeat: self.password_repeat@,
            register: self.register,
        }
    }
}

/// What the form sends (the trimmed user name), or why it refuses, checked in
/// this order: user name, password, and on registration the repetition and
/// the length.
pub open spec fn login_form_check(f: LoginFormView) -> Result<Seq<char>, LoginFormError> {
    if trimmed(f.username).len() == 0 {
        Err(LoginFormError::EmptyUsername)
    } else if f.password.len() == 0 {
        Err(LoginFormError::EmptyPassword)
    } else if f.register && f.password != f.password_repeat {
        Err(LoginFormError::PasswordMismatch)
    } else if f.register && utf8_len(f.password) < MIN_PASSWORD_LEN {
        Err(LoginFormError::WeakPassword)
    } else {
        Ok(trimmed(f.username))
    }
}

/// The password is marked weak: on registration, non-empty and too short.
pub open spec fn password_is_weak(f: LoginFormView) -> bool {
    f.register && f.password.len() > 0 && utf8_len(f.password) < MIN_PASSWORD_LEN
}

/// The submit button is enabled.
pub open spec fn submit_enabled(f: LoginFormView, loading: bool) -> bool {
    if f.register {
        trimmed(f.username).len() > 0 && f.password.len() > 0 && !password_is_weak(f)
            && f.password_repeat.len() > 0 && f.password == f.password_repeat && !loading
    } else {
        trimmed(f.username).len() > 0 && f.password.len() > 0 && !loading
    }
}

impl LoginForm {
    /// The trimmed user name to send, or why the form refuses (see `login_form_check`).
    pub fn validate(&self) -> (res: Result<String, LoginFormError>)
        ensures
            match login_form_check(self@) {
                Ok(u) => res matches Ok(s) && s@ == u,
                Err(e) => res == Err::<String, LoginFormError>(e),
            },
    {
        let u = trim(self.username.as_str());
        if u.as_str().is_empty() {
            return Err(LoginFormError::EmptyUsername);
        }
        if self.password.as_str().is_empty() {
            return Err(LoginFormError::EmptyPassword);
        }
        if self.register {
            if !self.password.eq(&self.password_repeat) {
                return Err(LoginFormError::PasswordMismatch);
            }
            if self.password.as_str().as_bytes().len() < MIN_PASSWORD_LEN {
                return Err(LoginFormError::WeakPassword);
            }
        }
        Ok(u)
    }

    /// Whether the password is marked weak (see `password_is_weak`).
    pub fn password_weak(&self) -> (res: bool)
        ensures
            res == password_is_weak(self@),
    {
        self.register && !self.password.as_str().is_empty() && self.password.as_str().as_bytes().len()
            < MIN_PASSWORD_LEN
    }

    /// Whether the submit button is enabled (see `submit_enabled`).
    pub fn can_submit(&self, loading: bool) -> (res: bool)
        ensures
            res == submit_enabled(self@, loading),
    {
        let username_valid = !trim(self.username.as_str()).as_str().is_empty();
        let password_given = !self.password.as_str().is_empty();
        if self.register {
            username_valid && password_given && !self.password_weak()
                && !self.password_repeat.as_str().is_empty() && self.password.eq(
                &self.password_repeat,
            ) && !loading
        } else {
            username_valid && password_given && !loading
        }
    }

    /// The hint under the repeated password: on registration, once something
    /// is repeated, whether the two match.
    pub fn repeat_hint(&self) -> (res: Option<bool>)
        ensures
            res == (if self.register && self@.password_repeat.len() > 0 {
                Some(self@.password == self@.password_repeat)
            } else {
                None
            }),
    {
        if self.register && !self.password_repeat.as_str().is_empty() {
            Some(self.password.eq(&self.password_repeat))
        } else {
            None
        }
    }
}

/// A form that can be submitted (and is not loading) passes the check, and a
/// form that passes the check can be submitted while nothing is loading.
pub proof fn law_submit_iff_valid(f: LoginFormView)
    ensures
        submit_enabled(f, false) <==> login_form_check(f) is Ok,
{
}

/// What a form that passes the check holds: a user name with something
/// besides white space, and a password; on registration also a repeated
/// password equal to the password, and at least `MIN_PASSWORD_LEN` bytes of
/// it. It sends the trimmed user name. A registration whose repetition
/// differs from the password, an empty repetition included, is refused once
/// the user name and the password are given.
pub proof fn law_form_check_requires(f: LoginFormView)
    ensures
        login_form_check(f) is Ok <==> (trimmed(f.username).len() > 0 && f.password.len() > 0 && (
        f.register ==> (f.password == f.password_repeat && utf8_len(f.password) >= 4))),
        login_form_check(f) matches Ok(u) ==> u == trimmed(f.username),
        trimmed(f.username).len() > 0 && f.password.len() > 0 && f.register && f.password
            != f.password_repeat ==> login_form_check(f) == Err::<Seq<char>, LoginFormError>(
            LoginFormError::PasswordMismatch,
        ),
        trimmed(f.username).len() == 0 ==> login_form_check(f) == Err::<Seq<char>, LoginFormError>(
            LoginFormError::EmptyUsername,
        ),
        trimmed(f.username).len() > 0 && f.password.len() == 0 ==> login_form_check(f) == Err::<
            Seq<char>,
            LoginFormError,
        >(LoginFormError::EmptyPassword),
{
}

/// The submit button of a registration is enabled only when the repeated
/// password equals the password (and so is not empty), and never while a
/// request is running.
pub proof fn law_submit_needs_repetition(f: LoginFormView, loading: bool)
    ensures
        submit_enabled(f, loading) && f.register ==> f.password == f.password_repeat
            && f.password_repeat.len() > 0,
        submit_enabled(f, loading) ==> !loading && f.password.len() > 0 && trimmed(f.username).len()
            > 0,
{
}

/// The quota typed into the group form: the number it reads as, as
/// `str::parse::<i64>` reads it, with text that is not a number and
/// negative numbers taken as zero.
pub open spec fn quota_input(s: Seq<char>) -> i64 {
    match parse_i64_spec(s) {
        Some(v) => if v < 0 {
            0
        } else {
            v
        },
        None => 0,
    }
}

/// Reads the quota typed into the group form (see `quota_input`).
pub fn parse_quota_input(s: &str) -> (res: i64)
    ensures
        res == quota_input(s@),
{
    let n = s.unicode_len();
    if n > 0 && s.get_char(0) == '-' {
        proof {
            let d = s@.drop_first();
            if d.len() > 0 && all_ascii_digits(d) {
                lemma_digits_prefix(d, d.len() as int);
                assert(d.take(d.len() as int) =~= d);
            }
        }
        return 0;
    }
    proof {
        let d = without_plus(s@);
        if all_ascii_digits(d) {
            lemma_digits_prefix(d, d.len() as int);
            assert(d.take(d.len() as int) =~= d);
        }
    }
    match parse_u64(s) {
        Some(v) => {
            if v <= 0x7FFF_FFFF_FFFF_FFFFu64 {
                v as i64
            } else {
                0
            }
        },
        None => 0,
    }
}

/// The texture chosen in a select field: the option `None` chooses no texture.
pub fn texture_choice(value: String) -> (res: Option<String>)
    ensures
        value@ == "None"@ ==> res is None,
        value@ != "None"@ ==> (res matches Some(v) && v@ == value@),
{
    if same_text(value.as_str(), "None") {
        None
    } else {
        Some(value)
    }
}

/// The name of a new texture once a file is chosen: the name already typed,
/// or, where that is blank, the file's name without its extension.
pub fn default_skin_name(current: &str, file_name: &str) -> (res: String)
    ensures
        trimmed(current@).len() == 0 ==> res@ == file_stem_of(file_name@),
        trimmed(current@).len() != 0 ==> res@ == current@,
{
    let t = trim(current);
    if t.as_str().unicode_len() == 0 {
        file_stem(file_name)
    } else {
        current.to_owned()
    }
}

/// Whether an edit page must load the record that its route names: not for
/// an empty id or `new` (a record to be made), nor for the record it holds.
pub fn needs_fetch(route_id: &str, held_id: &str) -> (res: bool)
    ensures
        res == !(route_id@.len() == 0 || route_id@ == "new"@ || held_id@ == route_id@),
{
    !(route_id.unicode_len() == 0 || same_text(route_id, "new") || same_text(held_id, route_id))
}

/// The request that the login card makes to the server.
#[derive(Debug, Clone, Copy, PartialEq, Eq, Structural)]
pub enum LoginRequest {
    /// Create the account (registration), then log in.
    CreateUser,
    /// Log in.
    LogIn,
}

/// What the login card does when the form is submitted.
#[derive(Debug, PartialEq, Eq)]
pub enum LoginSubmit {
    /// A request is still running: nothing.
    Ignore,
    /// The form refuses to send, and shows why.
    Refuse(LoginFormError),
    /// The card sends its first request, for the trimmed user name.
    Send { username: String, request: LoginRequest },
}

/// The message that the login card shows for a failed request.
#[derive(Debug, Clone, Copy, PartialEq, Eq, Structural)]
pub enum LoginAlert {
    /// The user name or the password is wrong.
    InvalidCredentials,
    /// The generic message, followed by the error's text.
    Generic,
}

/// What the login card does once the server has answered a request.
#[derive(Debug, Clone, Copy, PartialEq, Eq, Structural)]
pub enum LoginStep {
    /// The account was created: log in with the same name and password.
    LogIn,
    /// Logged in: reload the current user.
    ReloadUser,
    /// Show a message and stop.
    Alert(LoginAlert),
}

/// The first request of a registration or of a login.
pub open spec fn first_request(register: bool) -> LoginRequest {
    if register {
        LoginRequest::CreateUser
    } else {
        LoginRequest::LogIn
    }
}

/// Submitting the login form: nothing while a request runs; otherwise the
/// form's check (`login_form_check`) refuses, or the first request is sent for
/// the trimmed user name.
pub fn login_submit(form: &LoginForm, loading: bool) -> (res: LoginSubmit)
    ensures
        loading ==> res == LoginSubmit::Ignore,
        !loading ==> match login_form_check(form@) {
            Err(e) => res == LoginSubmit::Refuse(e),
            Ok(u) => res matches LoginSubmit::Send { username, request } && username@ == u
                && request == first_request(form@.register),
        },
{
    if loading {
        return LoginSubmit::Ignore;
    }
    match form.validate() {
        Err(e) => LoginSubmit::Refuse(e),
        Ok(u) => {
            let request = if form.register {
                LoginRequest::CreateUser
            } else {
                LoginRequest::LogIn
            };
            LoginSubmit::Send { username: u, request }
        },
    }
}

/// The step after the server's answer to a request of the login card: a
/// created account is logged in, a login reloads the user; a refused login
/// (`WrongPassword`) shows the invalid-credentials message, any other failure
/// the generic one.
pub fn login_next_step(request: LoginRequest, answer: &Result<(), AppError>) -> (res: LoginStep)
    ensures
        answer is Ok ==> res == (if request == LoginRequest::CreateUser {
            LoginStep::LogIn
        } else {
            LoginStep::ReloadUser
        }),
        answer is Err && request == LoginRequest::LogIn && answer->Err_0 is WrongPassword ==> res
            == LoginStep::Alert(LoginAlert::InvalidCredentials),
        answer is Err && !(request == LoginRequest::LogIn && answer->Err_0 is WrongPassword) ==> res
            == LoginStep::Alert(LoginAlert::Generic),
{
    match answer {
        Ok(()) => match request {
            LoginRequest::CreateUser => LoginStep::LogIn,
            LoginRequest::LogIn => LoginStep::ReloadUser,
        },
        Err(AppError::WrongPassword) => match request {
            LoginRequest::LogIn => LoginStep::Alert(LoginAlert::InvalidCredentials),
            LoginRequest::CreateUser => LoginStep::Alert(LoginAlert::Generic),
        },
        Err(_) => LoginStep::Alert(LoginAlert::Generic),
    }
}

/// What the new-texture dialog does once the server has answered an upload.
#[derive(Debug, Clone, Copy, PartialEq, Eq, Structural)]
pub enum UploadStep {
    /// Saved: close the dialog and tell the page.
    Close,
    /// The quota is used up: the quota message with the limit.
    QuotaAlert(i64),
    /// Not allowed: the generic message alone.
    GenericAlert,
    /// Any other failure: the generic message followed by the error's text.
    GenericAlertWithError,
}

/// The step after the server's answer to an upload of the new-texture dialog.
pub fn upload_next_step(answer: &Result<Texture, AppError>) -> (res: UploadStep)
    ensures
        answer is Ok ==> res == UploadStep::Close,
        answer matches Err(AppError::QuotaExceeded { limit }) ==> res == UploadStep::QuotaAlert(*limit),
        answer matches Err(e) && (e is Unauthorized || e is Forbidden) ==> res
            == UploadStep::GenericAlert,
        answer matches Err(e) && !(e is QuotaExceeded || e is Unauthorized || e is Forbidden) ==> res
            == UploadStep::GenericAlertWithError,
{
    match answer {
        Ok(_) => UploadStep::Close,
        Err(AppError::QuotaExceeded { limit }) => UploadStep::QuotaAlert(*limit),
        Err(AppError::Unauthorized) => UploadStep::GenericAlert,
        Err(AppError::Forbidden) => UploadStep::GenericAlert,
        Err(_) => UploadStep::GenericAlertWithError,
    }
}

} // verus!
