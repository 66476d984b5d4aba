use api::access::{
    authenticated_user, authorize_texture_deletion, authorize_texture_editor, counts_against_quota,
    current_user,
    decide_texture_upload, prepare_new_texture, prepare_texture_replacement, quota_for,
    requested_user_name, selection_change, served_texture,
};
use api::users::{initial_memberships, selection_column};
use api::{AppError, Blob, Permissions, Texture, TextureQuota, TextureType, User};

fn user(id: &str, flags: u64) -> User {
    User {
        id: id.to_string(),
        username: format!("user-{id}"),
        permissions: Permissions::from_bits_retain(flags),
        ..User::default()
    }
}

fn texture(id: &str, owner: Option<&str>) -> Texture {
    Texture {
        id: id.to_string(),
        skin_name: "KarlSkin".to_string(),
        texture_type: TextureType::Skin,
        image_data: Blob(vec![1, 2, 3]),
        owner_id: owner.map(|o| o.to_string()),
    }
}

#[test]
fn anonymous_and_missing_users_are_unauthorized() {
    assert_eq!(authenticated_user(None), Err(AppError::Unauthorized));
    assert_eq!(authenticated_user(Some(user("", Permissions::TEXTURE_EDIT))), Err(AppError::Unauthorized));
    assert_eq!(authenticated_user(Some(user("u1", 0))), Ok(user("u1", 0)));
    assert_eq!(authorize_texture_editor(None), Err(AppError::Unauthorized));
}

#[test]
fn editing_textures_needs_texture_edit() {
    assert_eq!(authorize_texture_editor(Some(user("u1", Permissions::TEXTURE_USE))), Err(AppError::Forbidden));
    let editor = user("u1", Permissions::TEXTURE_EDIT);
    assert_eq!(authorize_texture_editor(Some(editor.clone())), Ok(editor));
}

#[test]
fn replacing_keeps_owner_and_needs_ownership_or_privilege() {
    let owner = user("u1", Permissions::TEXTURE_EDIT);
    let other = user("u2", Permissions::TEXTURE_EDIT);
    let admin = user("u3", Permissions::TEXTURE_EDIT | Permissions::USER_EDIT);
    let stored = texture("t1", Some("u1"));
    let new = texture("t1", None);

    let t = prepare_texture_replacement(&owner, new.clone(), &stored).unwrap();
    assert_eq!(t.owner_id.as_deref(), Some("u1"));
    assert_eq!(t.id, "t1");
    assert_eq!(prepare_texture_replacement(&other, new.clone(), &stored), Err(AppError::Forbidden));
    let t = prepare_texture_replacement(&admin, new.clone(), &stored).unwrap();
    assert_eq!(t.owner_id.as_deref(), Some("u1"));

    // A texture without owner is adopted by the user who replaces it.
    let legacy = texture("t2", None);
    assert_eq!(prepare_texture_replacement(&other, new.clone(), &legacy), Err(AppError::Forbidden));
    let t = prepare_texture_replacement(&admin, new, &legacy).unwrap();
    assert_eq!(t.owner_id.as_deref(), Some("u3"));
}

#[test]
fn new_upload_respects_the_quota() {
    let u = user("u1", Permissions::TEXTURE_EDIT);
    assert_eq!(prepare_new_texture(&u, texture("x", Some("other")), 5, 5), Err(AppError::QuotaExceeded { limit: 5 }));
    assert_eq!(prepare_new_texture(&u, texture("x", None), 0, 0), Err(AppError::QuotaExceeded { limit: 0 }));
    let t = prepare_new_texture(&u, texture("x", Some("other")), 4, 5).unwrap();
    assert_eq!(t.id, "");
    assert_eq!(t.owner_id.as_deref(), Some("u1"));
    assert_eq!(t.skin_name, "KarlSkin");
}

#[test]
fn deleting_foreign_textures_needs_privilege() {
    let owner = user("u1", Permissions::TEXTURE_EDIT);
    let other = user("u2", Permissions::TEXTURE_EDIT);
    let admin = user("u3", Permissions::TEXTURE_EDIT | Permissions::GROUP_EDIT);
    let stored = Some(texture("t1", Some("u1")));
    assert_eq!(authorize_texture_deletion(Some(owner.clone()), &stored), Ok(owner));
    assert_eq!(authorize_texture_deletion(Some(other.clone()), &stored), Err(AppError::Forbidden));
    assert_eq!(authorize_texture_deletion(Some(admin.clone()), &stored), Ok(admin));
    assert_eq!(authorize_texture_deletion(Some(other.clone()), &Some(texture("t2", None))), Ok(other.clone()));
    assert_eq!(authorize_texture_deletion(Some(other.clone()), &None), Ok(other));
    assert_eq!(authorize_texture_deletion(None, &stored), Err(AppError::Unauthorized));
    assert_eq!(authorize_texture_deletion(Some(user("u4", 0)), &stored), Err(AppError::Forbidden));
}

#[test]
fn get_me_answers() {
    assert_eq!(current_user(None), Err(AppError::Other("no User".to_string())));
    assert_eq!(current_user(Some(user("", 0))), Err(AppError::Other("anonymous User".to_string())));
    assert_eq!(current_user(Some(user("u1", 0))), Ok(user("u1", 0)));
}

#[test]
fn selection_change_for_signed_in_users() {
    let t = texture("t1", None);
    assert!(selection_change(&None, &t).is_none());
    assert!(selection_change(&Some(user("", 0)), &t).is_none());
    let c = selection_change(&Some(user("u1", 0)), &t).unwrap();
    assert_eq!(c.user_id, "u1");
    assert_eq!(c.texture_id.as_deref(), Some("t1"));
    assert_eq!(c.texture_type, TextureType::Skin);
    let c = selection_change(&Some(user("u1", 0)), &texture("", None)).unwrap();
    assert_eq!(c.texture_id, None);
}

#[test]
fn selection_is_read_back() {
    let mut u = user("u1", 0);
    u.set_selected_texture(TextureType::Cape, Some("c1".to_string()));
    assert_eq!(u.selected_texture_id(TextureType::Cape).as_deref(), Some("c1"));
    assert_eq!(u.selected_texture_id(TextureType::Skin), None);
    u.set_selected_texture(TextureType::Cape, None);
    assert_eq!(u.selected_cape_id, None);
    assert_eq!(selection_column(TextureType::Elytra), "selected_elytra_id");
}

#[test]
fn served_texture_answers() {
    assert_eq!(served_texture(Ok(Some(Blob(vec![9])))), Ok(Blob(vec![9])));
    assert_eq!(served_texture(Ok(None)), Err(AppError::Other("Texture not found".to_string())));
    assert_eq!(served_texture(Err(AppError::Database("x".to_string()))), Err(AppError::Other("Texture not found".to_string())));
}

#[test]
fn requested_names_lose_their_extension() {
    assert_eq!(requested_user_name("Klaus.png"), "Klaus");
    assert_eq!(requested_user_name("Klaus"), "Klaus");
    assert_eq!(requested_user_name("a.b.png"), "a.b");
    assert_eq!(requested_user_name(".hidden"), ".hidden");
    assert_eq!(requested_user_name("x."), "x");
}

#[test]
fn first_user_joins_all_seed_groups() {
    let id = "u1".to_string();
    let first = initial_memberships(&id, 0);
    let names: Vec<&str> = first.iter().map(|(_, g)| g.as_str()).collect();
    assert_eq!(names, vec!["usr", "adm", "crtr"]);
    assert!(first.iter().all(|(u, _)| u == "u1"));
    let later = initial_memberships(&id, 3);
    assert_eq!(later, vec![("u1".to_string(), "usr".to_string())]);
}

#[test]
fn users_and_rights() {
    assert!(User::default().anonymous());
    let u = user("u1", Permissions::TEXTURE_EDIT | Permissions::GROUP_EDIT);
    assert!(!u.anonymous());
    assert!(u.has_permission(Permissions::TEXTURE_EDIT));
    assert!(!u.has_permission(Permissions::TEXTURE_USE));
    assert!(u.is_privileged());
    assert!(!user("u2", Permissions::TEXTURE_EDIT).is_privileged());
    assert!(is_uuid_v4_text(&user("", 0).with_id().id));
    assert_eq!(user("u9", 0).with_id().id, "u9");
}

#[test]
fn status_codes() {
    assert_eq!(AppError::Other(String::new()).status_code(), 500);
    assert_eq!(AppError::Database(String::new()).status_code(), 500);
    assert_eq!(AppError::WrongPassword.status_code(), 401);
    assert_eq!(AppError::Unauthorized.status_code(), 401);
    assert_eq!(AppError::Forbidden.status_code(), 403);
    assert_eq!(AppError::QuotaExceeded { limit: 5 }.status_code(), 403);
    assert_eq!(AppError::ServerFnError { status: 418, message: String::new() }.status_code(), 418);
}

#[test]
fn upload_decision_follows_the_flow() {
    let karl = user("u1", Permissions::TEXTURE_EDIT);
    let stored = texture("t1", Some("u1"));
    // Replacing an existing texture counts against no quota.
    let t = decide_texture_upload(Some(karl.clone()), texture("t1", None), Some(stored.clone()), 5, 5).unwrap();
    assert_eq!(t.id, "t1");
    assert_eq!(t.owner_id.as_deref(), Some("u1"));
    // A foreign texture may not be replaced.
    let other = user("u2", Permissions::TEXTURE_EDIT);
    assert_eq!(
        decide_texture_upload(Some(other.clone()), texture("t1", None), Some(stored), 0, 5),
        Err(AppError::Forbidden)
    );
    // An id that names no stored texture is a new upload.
    let t = decide_texture_upload(Some(other.clone()), texture("gone", None), None, 0, 5).unwrap();
    assert_eq!(t.id, "");
    assert_eq!(t.owner_id.as_deref(), Some("u2"));
    assert_eq!(
        decide_texture_upload(Some(other), texture("", None), None, 25, 25),
        Err(AppError::QuotaExceeded { limit: 25 })
    );
    assert_eq!(decide_texture_upload(None, texture("", None), None, 0, 5), Err(AppError::Unauthorized));
    assert_eq!(
        decide_texture_upload(Some(user("u3", Permissions::TEXTURE_USE)), texture("", None), None, 0, 5),
        Err(AppError::Forbidden)
    );
}

#[test]
fn quota_needs_a_signed_in_user() {
    assert_eq!(quota_for(None, 1, 2), Err(AppError::Unauthorized));
    assert_eq!(quota_for(Some(user("", 0)), 1, 2), Err(AppError::Unauthorized));
    assert_eq!(quota_for(Some(user("u1", 0)), 1, 25), Ok(TextureQuota { used: 1, limit: 25 }));
}

/// The hyphenated lowercase text of a random (version 4) UUID.
fn is_uuid_v4_text(s: &str) -> bool {
    let c: Vec<char> = s.chars().collect();
    c.len() == 36
        && c.iter().enumerate().all(|(i, &ch)| {
            if [8, 13, 18, 23].contains(&i) {
                ch == '-'
            } else {
                ch.is_ascii_digit() || ('a'..='f').contains(&ch)
            }
        })
        && c[14] == '4'
        && "89ab".contains(c[19])
}

#[test]
fn only_new_uploads_count_against_the_quota() {
    let stored = Some(texture("t1", Some("u1")));
    assert!(!counts_against_quota(&texture("t1", None), &stored));
    assert!(counts_against_quota(&texture("", None), &stored));
    assert!(counts_against_quota(&texture("t1", None), &None));
    assert!(counts_against_quota(&texture("", None), &None));
}
