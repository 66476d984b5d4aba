use api::forms::{
    default_skin_name, login_next_step, login_submit, needs_fetch, parse_quota_input, texture_choice,
    upload_next_step, LoginAlert, LoginForm, LoginFormError, LoginRequest, LoginStep, LoginSubmit,
    UploadStep,
};
use api::{AppError, Texture};
use api::text::{file_stem, same_text, trim};

fn form(u: &str, p: &str, p2: &str, register: bool) -> LoginForm {
    LoginForm {
        username: u.to_string(),
        password: p.to_string(),
        password_repeat: p2.to_string(),
        register,
    }
}

#[test]
fn login_form_checks_in_order() {
    assert_eq!(form("  ", "pw", "", false).validate(), Err(LoginFormError::EmptyUsername));
    assert_eq!(form("karl", "", "", false).validate(), Err(LoginFormError::EmptyPassword));
    assert_eq!(form(" karl ", "x", "", false).validate(), Ok("karl".to_string()));
    assert_eq!(form("karl", "abcd", "abce", true).validate(), Err(LoginFormError::PasswordMismatch));
    assert_eq!(form("karl", "abc", "abc", true).validate(), Err(LoginFormError::WeakPassword));
    assert_eq!(form("karl", "abcd", "abcd", true).validate(), Ok("karl".to_string()));
    // Length counts bytes: two two-byte characters make four bytes.
    assert_eq!(form("karl", "\u{e4}\u{f6}", "\u{e4}\u{f6}", true).validate(), Ok("karl".to_string()));
}

#[test]
fn submit_button_follows_the_check() {
    let cases = [
        form("", "", "", false),
        form("karl", "pw", "", false),
        form("karl", "abc", "abc", true),
        form("karl", "abcd", "abcd", true),
        form("karl", "abcd", "", true),
        form("karl", "abcd", "abcx", true),
    ];
    for f in cases.iter() {
        assert_eq!(f.can_submit(false), f.validate().is_ok());
        assert!(!f.can_submit(true));
    }
}

#[test]
fn weak_password_and_repeat_hint() {
    assert!(form("k", "abc", "", true).password_weak());
    assert!(!form("k", "", "", true).password_weak());
    assert!(!form("k", "abc", "", false).password_weak());
    assert_eq!(form("k", "abcd", "", true).repeat_hint(), None);
    assert_eq!(form("k", "abcd", "abcd", true).repeat_hint(), Some(true));
    assert_eq!(form("k", "abcd", "abc", true).repeat_hint(), Some(false));
    assert_eq!(form("k", "abcd", "abc", false).repeat_hint(), None);
}

#[test]
fn quota_input_reads_non_negative_numbers() {
    assert_eq!(parse_quota_input("25"), 25);
    assert_eq!(parse_quota_input("+7"), 7);
    assert_eq!(parse_quota_input("-3"), 0);
    assert_eq!(parse_quota_input("abc"), 0);
    assert_eq!(parse_quota_input(""), 0);
    assert_eq!(parse_quota_input("9223372036854775807"), i64::MAX);
    assert_eq!(parse_quota_input("9223372036854775808"), 0);
}

#[test]
fn texture_choice_none_option() {
    assert_eq!(texture_choice("None".to_string()), None);
    assert_eq!(texture_choice("t1".to_string()), Some("t1".to_string()));
}

#[test]
fn trim_and_stems() {
    assert_eq!(trim("  a b \t\n"), "a b");
    assert_eq!(trim("\u{3000}x\u{a0}"), "x");
    assert_eq!(trim("   "), "");
    assert_eq!(trim(""), "");
    assert_eq!(file_stem("skin.png"), "skin");
    assert_eq!(file_stem("my.skin.png"), "my.skin");
    assert_eq!(file_stem(".hidden"), ".hidden");
    assert_eq!(file_stem("noext"), "noext");
    assert_eq!(file_stem("end."), "end");
    assert!(same_text("abc", "abc"));
    assert!(!same_text("abc", "abd"));
    assert!(!same_text("abc", "ab"));
}

#[test]
fn blank_skin_name_takes_the_file_stem() {
    assert_eq!(default_skin_name("", "Steve.png"), "Steve");
    assert_eq!(default_skin_name("  \t", "my.skin.png"), "my.skin");
    assert_eq!(default_skin_name("", ".hidden"), ".hidden");
    assert_eq!(default_skin_name("", "noext"), "noext");
    assert_eq!(default_skin_name(" Alex ", "Steve.png"), " Alex ");
}

#[test]
fn edit_pages_fetch_only_other_records() {
    assert!(!needs_fetch("", "g1"));
    assert!(!needs_fetch("new", ""));
    assert!(!needs_fetch("g1", "g1"));
    assert!(needs_fetch("g1", ""));
    assert!(needs_fetch("g2", "g1"));
    assert!(needs_fetch("New", "g1"));
}

#[test]
fn login_submit_checks_then_sends() {
    assert_eq!(login_submit(&form("karl", "pw", "", false), true), LoginSubmit::Ignore);
    assert_eq!(
        login_submit(&form("  ", "pw", "", false), false),
        LoginSubmit::Refuse(LoginFormError::EmptyUsername)
    );
    assert_eq!(
        login_submit(&form("karl", "geheim", "anders", true), false),
        LoginSubmit::Refuse(LoginFormError::PasswordMismatch)
    );
    assert_eq!(
        login_submit(&form(" karl ", "pw", "", false), false),
        LoginSubmit::Send { username: "karl".to_string(), request: LoginRequest::LogIn }
    );
    assert_eq!(
        login_submit(&form("karl", "geheim", "geheim", true), false),
        LoginSubmit::Send { username: "karl".to_string(), request: LoginRequest::CreateUser }
    );
}

#[test]
fn login_steps_after_answers() {
    assert_eq!(login_next_step(LoginRequest::CreateUser, &Ok(())), LoginStep::LogIn);
    assert_eq!(login_next_step(LoginRequest::LogIn, &Ok(())), LoginStep::ReloadUser);
    assert_eq!(
        login_next_step(LoginRequest::LogIn, &Err(AppError::WrongPassword)),
        LoginStep::Alert(LoginAlert::InvalidCredentials)
    );
    assert_eq!(
        login_next_step(LoginRequest::LogIn, &Err(AppError::Database("down".to_string()))),
        LoginStep::Alert(LoginAlert::Generic)
    );
    assert_eq!(
        login_next_step(LoginRequest::CreateUser, &Err(AppError::Other("taken".to_string()))),
        LoginStep::Alert(LoginAlert::Generic)
    );
}

#[test]
fn upload_steps_after_answers() {
    assert_eq!(upload_next_step(&Ok(Texture::default())), UploadStep::Close);
    assert_eq!(upload_next_step(&Err(AppError::QuotaExceeded { limit: 5 })), UploadStep::QuotaAlert(5));
    assert_eq!(upload_next_step(&Err(AppError::Unauthorized)), UploadStep::GenericAlert);
    assert_eq!(upload_next_step(&Err(AppError::Forbidden)), UploadStep::GenericAlert);
    assert_eq!(
        upload_next_step(&Err(AppError::Other("x".to_string()))),
        UploadStep::GenericAlertWithError
    );
}
