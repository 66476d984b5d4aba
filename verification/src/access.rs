//! Who may do what: the decisions of the server functions, apart from the
//! database reads and writes that surround them.
use vstd::prelude::*;

use crate::app_error::AppError;
use crate::permissions::Permissions;
use crate::textures::{Blob, Texture, TextureQuota, TextureType, TextureView};
use crate::text::file_stem_of;
use crate::users::{has_flags, is_anonymous, User, UserView};

verus! {

/// The caller is a logged-in user who is not anonymous.
pub open spec fn signed_in(current: Option<User>) -> bool {
    current matches Some(u) && !is_anonymous(u@)
}

/// The caller of a request that needs a logged-in user; `Unauthorized` otherwise.
pub fn authenticated_user(current: Option<User>) -> (res: Result<User, AppError>)
    ensures
        signed_in(current) ==> res == Ok::<User, AppError>(current->0),
        !signed_in(current) ==> res == Err::<User, AppError>(AppError::Unauthorized),
{
    match current {
        Some(u) => {
            if u.anonymous() {
                Err(AppError::Unauthorized)
            } else {
                Ok(u)
            }
        },
        None => Err(AppError::Unauthorized),
    }
}

/// The caller of a request that changes textures: a logged-in user with
/// `TEXTURE_EDIT`; `Unauthorized` or `Forbidden` otherwise.
pub fn authorize_texture_editor(current: Option<User>) -> (res: Result<User, AppError>)
    ensures
        !signed_in(current) ==> res == Err::<User, AppError>(AppError::Unauthorized),
        signed_in(current) && !has_flags(current->0@, Permissions::TEXTURE_EDIT) ==> res
            == Err::<User, AppError>(AppError::Forbidden),
        signed_in(current) && has_flags(current->0@, Permissions::TEXTURE_EDIT) ==> res == Ok::<
            User,
            AppError,
        >(current->0),
{
    let user = authenticated_user(current)?;
    if !user.has_permission(Permissions::TEXTURE_EDIT) {
        return Err(AppError::Forbidden);
    }
    Ok(user)
}

/// The user uploaded the texture.
pub open spec fn owns(user: UserView, texture: TextureView) -> bool {
    texture.owner_id == Some(user.id)
}

/// The user may edit users or groups, and so act on textures of others.
pub open spec fn privileged(user: UserView) -> bool {
    has_flags(user, Permissions::USER_EDIT) || has_flags(user, Permissions::GROUP_EDIT)
}

/// The owner a replaced texture keeps: its owner, or the user who replaces a
/// texture that had none.
pub open spec fn kept_owner(user: UserView, existing: TextureView) -> Option<Seq<char>> {
    match existing.owner_id {
        Some(o) => Some(o),
        None => Some(user.id),
    }
}

/// Whether the user uploaded the texture.
pub fn is_owner(user: &User, texture: &Texture) -> (res: bool)
    ensures
        res == owns(user@, texture@),
{
    match &texture.owner_id {
        Some(o) => o.eq(&user.id),
        None => false,
    }
}

/// A texture that replaces a stored one with the same id: allowed to its
/// owner and to privileged users, keeping the stored owner (a texture without
/// owner is adopted by the user). Replacing counts against no quota.
pub fn prepare_texture_replacement(user: &User, texture: Texture, existing: &Texture) -> (res:
    Result<Texture, AppError>)
    ensures
        !(owns(user@, existing@) || privileged(user@)) ==> res == Err::<Texture, AppError>(
            AppError::Forbidden,
        ),
        owns(user@, existing@) || privileged(user@) ==> (res matches Ok(t) && t@ == (TextureView {
            owner_id: kept_owner(user@, existing@),
            ..texture@
        })),
{
    if !is_owner(user, existing) && !user.is_privileged() {
        return Err(AppError::Forbidden);
    }
    let owner = match &existing.owner_id {
        Some(o) => Some(o.clone()),
        None => Some(user.id.clone()),
    };
    let mut texture = texture;
    texture.owner_id = owner;
    Ok(texture)
}

/// A newly uploaded texture: refused with `QuotaExceeded` where the user
/// already has `limit` textures or more; otherwise stored under a new id,
/// owned by the user.
pub fn prepare_new_texture(user: &User, texture: Texture, used: i64, limit: i64) -> (res: Result<
    Texture,
    AppError,
>)
    ensures
        used >= limit ==> res == Err::<Texture, AppError>(AppError::QuotaExceeded { limit }),
        used < limit ==> (res matches Ok(t) && t@ == (TextureView {
            id: Seq::empty(),
            owner_id: Some(user@.id),
            ..texture@
        })),
{
    if used >= limit {
        return Err(AppError::QuotaExceeded { limit });
    }
    let mut texture = texture;
    texture.id = String::new();
    texture.owner_id = Some(user.id.clone());
    Ok(texture)
}

/// What `create_texture` stores for the caller, or why it refuses: the caller
/// must be an editor; a texture whose id names a stored texture (`existing`,
/// looked up only for a non-empty id) replaces it; any other texture is a new
/// upload, counted against the quota (`used` of `limit`).
pub fn decide_texture_upload(
    current: Option<User>,
    texture: Texture,
    existing: Option<Texture>,
    used: i64,
    limit: i64,
) -> (res: Result<Texture, AppError>)
    ensures
        !signed_in(current) ==> res == Err::<Texture, AppError>(AppError::Unauthorized),
        signed_in(current) && !has_flags(current->0@, Permissions::TEXTURE_EDIT) ==> res
            == Err::<Texture, AppError>(AppError::Forbidden),
        signed_in(current) && has_flags(current->0@, Permissions::TEXTURE_EDIT) && texture@.id.len()
            > 0 && existing is Some ==> {
            let (u, e) = (current->0@, existing->0@);
            &&& !(owns(u, e) || privileged(u)) ==> res == Err::<Texture, AppError>(
                AppError::Forbidden,
            )
            &&& owns(u, e) || privileged(u) ==> (res matches Ok(t) && t@ == (TextureView {
                owner_id: kept_owner(u, e),
                ..texture@
            }))
        },
        signed_in(current) && has_flags(current->0@, Permissions::TEXTURE_EDIT) && !(
        texture@.id.len() > 0 && existing is Some) ==> {
            &&& used >= limit ==> res == Err::<Texture, AppError>(AppError::QuotaExceeded { limit })
            &&& used < limit ==> (res matches Ok(t) && t@ == (TextureView {
                id: Seq::empty(),
                owner_id: Some(current->0@.id),
                ..texture@
            }))
        },
{
    let user = authorize_texture_editor(current)?;
    if !texture.id.as_str().is_empty() {
        if let Some(e) = existing {
            return prepare_texture_replacement(&user, texture, &e);
        }
    }
    prepare_new_texture(&user, texture, used, limit)
}

/// Whether an upload is new and so counts against the quota: not where it
/// names a stored texture (`existing`, looked up only for a non-empty id),
/// which it replaces.
pub fn counts_against_quota(texture: &Texture, existing: &Option<Texture>) -> (res: bool)
    ensures
        res == !(texture@.id.len() > 0 && existing is Some),
{
    texture.id.as_str().is_empty() || existing.is_none()
}

/// The quota that `get_my_quota` answers to a signed-in caller;
/// `Unauthorized` otherwise.
pub fn quota_for(current: Option<User>, used: i64, limit: i64) -> (res: Result<TextureQuota, AppError>)
    ensures
        signed_in(current) ==> res == Ok::<TextureQuota, AppError>(TextureQuota { used, limit }),
        !signed_in(current) ==> res == Err::<TextureQuota, AppError>(AppError::Unauthorized),
{
    authenticated_user(current)?;
    Ok(TextureQuota { used, limit })
}

/// The deletion of a texture may go ahead for this user: foreign textures only
/// for privileged users; textures without owner, or that cannot be found,
/// for every editor.
pub open spec fn may_delete(user: UserView, existing: Option<TextureView>) -> bool {
    match existing {
        Some(t) => match t.owner_id {
            Some(o) => o == user.id || privileged(user),
            None => true,
        },
        None => true,
    }
}

/// The caller who may delete a texture (`existing` is the stored texture, if
/// it was found): `Unauthorized`, `Forbidden` or the caller.
pub fn authorize_texture_deletion(current: Option<User>, existing: &Option<Texture>) -> (res:
    Result<User, AppError>)
    ensures
        !signed_in(current) ==> res == Err::<User, AppError>(AppError::Unauthorized),
        signed_in(current) && !has_flags(current->0@, Permissions::TEXTURE_EDIT) ==> res
            == Err::<User, AppError>(AppError::Forbidden),
        signed_in(current) && has_flags(current->0@, Permissions::TEXTURE_EDIT) && !may_delete(
            current->0@,
            match existing {
                Some(t) => Some(t@),
                None => None,
            },
        ) ==> res == Err::<User, AppError>(AppError::Forbidden),
        signed_in(current) && has_flags(current->0@, Permissions::TEXTURE_EDIT) && may_delete(
            current->0@,
            match existing {
                Some(t) => Some(t@),
                None => None,
            },
        ) ==> res == Ok::<User, AppError>(current->0),
{
    let user = authorize_texture_editor(current)?;
    match existing {
        Some(t) => match &t.owner_id {
            Some(o) => {
                if !o.eq(&user.id) && !user.is_privileged() {
                    return Err(AppError::Forbidden);
                }
            },
            None => {},
        },
        None => {},
    }
    Ok(user)
}

/// The current user as `get_me` answers: `Other("no User")` without a
/// session user, `Other("anonymous User")` for the anonymous one.
pub fn current_user(current: Option<User>) -> (res: Result<User, AppError>)
    ensures
        current is None ==> (res matches Err(AppError::Other(m)) && m@ == "no User"@),
        (current matches Some(u) && is_anonymous(u@)) ==> (res matches Err(AppError::Other(m))
            && m@ == "anonymous User"@),
        signed_in(current) ==> res == Ok::<User, AppError>(current->0),
{
    match current {
        Some(u) => {
            if u.anonymous() {
                Err(AppError::Other("anonymous User".to_owned()))
            } else {
                Ok(u)
            }
        },
        None => Err(AppError::Other("no User".to_owned())),
    }
}

/// A change of the texture that a user wears.
pub struct SelectionChange {
    pub user_id: String,
    pub texture_id: Option<String>,
    pub texture_type: TextureType,
}

/// What `set_texture` stores for the caller: nothing without a signed-in
/// user; otherwise the texture's id for its type, or no texture where the id
/// is empty.
pub fn selection_change(current: &Option<User>, texture: &Texture) -> (res: Option<SelectionChange>)
    ensures
        !signed_in(*current) ==> res is None,
        signed_in(*current) ==> (res matches Some(c) && c.user_id@ == current->0@.id
            && c.texture_type == texture.texture_type && c.texture_id.deep_view() == (if texture@.id.len()
            == 0 {
            None::<Seq<char>>
        } else {
            Some(texture@.id)
        })),
{
    match current {
        Some(u) => {
            if u.anonymous() {
                None
            } else {
                let texture_id = if texture.id.as_str().is_empty() {
                    None
                } else {
                    Some(texture.id.clone())
                };
                Some(
                    SelectionChange {
                        user_id: u.id.clone(),
                        texture_id,
                        texture_type: texture.texture_type,
                    },
                )
            }
        },
        None => None,
    }
}

/// The answer to a request for a user's worn texture: the image where it was
/// found, and `Other("Texture not found")` where it was not or the lookup failed.
pub fn served_texture(found: Result<Option<Blob>, AppError>) -> (res: Result<Blob, AppError>)
    ensures
        found matches Ok(Some(b)) ==> res == Ok::<Blob, AppError>(b),
        !(found matches Ok(Some(_))) ==> (res matches Err(AppError::Other(m)) && m@
            == "Texture not found"@),
{
    match found {
        Ok(Some(b)) => Ok(b),
        _ => Err(AppError::Other("Texture not found".to_owned())),
    }
}

/// What `Path::file_stem` gives for a path, as text; `None` where it gives nothing.
pub uninterp spec fn path_file_stem(path: Seq<char>) -> Option<Seq<char>>;

/// A path that is a single file name: not empty, not `.` or `..`, and free of
/// the characters that separate components or start a prefix on any platform
/// (`/`, a backslash, `:`).
pub open spec fn single_file_name(path: Seq<char>) -> bool {
    &&& path.len() > 0
    &&& path != "."@
    &&& path != ".."@
    &&& forall|i: int| 0 <= i < path.len() ==> #[trigger] path[i] != '/' && path[i] != '\\' && path[i] != ':'
}

/// The stem of the last component of a path.
///
/// Trusted: calls `std::path::Path::file_stem` and converts the stem back to
/// text with `OsStr::to_str` (which succeeds on a part of a `str`). The
/// contract names the result, and states what the documentation of
/// `file_name` and `file_stem` gives for a path that is a single file name:
/// the file name is the path itself, and the stem is the part before its last
/// `.`, or the whole name where there is no `.` or nothing precedes it
/// (`file_stem_of`). What it gives for other paths is left to the name.
#[verifier::external_body]
fn file_stem_of_path(path: &str) -> (res: Option<String>)
    ensures
        res.deep_view() == path_file_stem(path@),
        single_file_name(path@) ==> res.deep_view() == Some(file_stem_of(path@)),
{
    match std::path::Path::new(path).file_stem() {
        Some(stem) => match stem.to_str() {
            Some(s) => Some(s.to_owned()),
            None => None,
        },
        None => None,
    }
}

/// The user name in a texture request such as `/skins/Klaus.png`: the stem
/// of the path segment, or the whole segment where it has none.
pub fn requested_user_name(segment: &str) -> (res: String)
    ensures
        res@ == match path_file_stem(segment@) {
            Some(s) => s,
            None => segment@,
        },
        single_file_name(segment@) ==> res@ == file_stem_of(segment@),
{
    match file_stem_of_path(segment) {
        Some(s) => s,
        None => segment.to_owned(),
    }
}

/// Who may delete a stored texture: its owner; anybody, where it has no
/// owner; and every user with the right to edit users or to edit groups,
/// whoever owns it.
pub proof fn law_deletion_rights(user: UserView, texture: TextureView)
    ensures
        may_delete(user, Some(texture)) <==> (texture.owner_id is None || texture.owner_id == Some(
            user.id,
        ) || user.permissions & 0x0010_0000u64 != 0 || user.permissions & 0x0020_0000u64 != 0),
        may_delete(user, None),
{
    let p = user.permissions;
    assert(p & 0x0010_0000u64 != 0 <==> p & 0x0010_0000u64 == 0x0010_0000u64) by (bit_vector);
    assert(p & 0x0020_0000u64 != 0 <==> p & 0x0020_0000u64 == 0x0020_0000u64) by (bit_vector);
}

} // verus!
