//! Stored accounts: password hashes and their check.
use vstd::prelude::*;

use argon2::{PasswordHash, PasswordHasher, PasswordVerifier};

use crate::app_error::AppError;
use crate::permissions::Permissions;
use crate::textures::clone_optional_text;
use crate::users::{User, UserView};

verus! {

/// Whether `PasswordHash::new` reads a text as a PHC password hash.
pub uninterp spec fn phc_hash_parses(hash: Seq<char>) -> bool;

/// Whether `Argon2::default().verify_password` accepts a password for a parsed hash.
pub uninterp spec fn argon2_accepts(hash: Seq<char>, password: Seq<char>) -> bool;

/// How every hash of `Argon2::default()` begins in PHC text: the algorithm
/// (Argon2id), the version (19) and the default parameters (19 MiB of memory,
/// two passes, one lane); the salt and the hash follow.
pub open spec fn argon2_default_prefix() -> Seq<char> {
    "$argon2id$v=19$m=19456,t=2,p=1$"@
}

/// The longest password that Argon2 hashes, in bytes.
pub open spec fn hashable_password(password: &str) -> bool {
    password.len() <= 0xFFFF_FFFF
}

/// An Argon2id hash of a password, with a fresh random salt, in PHC text.
///
/// Trusted: calls `SaltString::generate` with `OsRng` and then
/// `Argon2::default().hash_password`, and writes the hash with `to_string`.
/// The salt is random, so the text is not named; the contract claims what the
/// source shows of every outcome: the text begins with the algorithm, version
/// and default parameters (`argon2_default_prefix`, as `PasswordHash`'s
/// `Display` writes them), `PasswordHash::new` reads the text back, and
/// `verify_password` recomputes the hash from the same salt and parameters
/// and so accepts the same password. The salt and hash digits are not stated.
/// `hash_password` fails only for a password longer than `u32::MAX` bytes;
/// `requires` leaves those out.
#[verifier::external_body]
fn hash_password(password: &str) -> (res: String)
    requires
        hashable_password(password),
    ensures
        argon2_default_prefix().is_prefix_of(res@),
        phc_hash_parses(res@),
        argon2_accepts(res@, password@),
{
    let salt = argon2::password_hash::SaltString::generate(&mut argon2::password_hash::rand_core::OsRng);
    argon2::Argon2::default().hash_password(password.as_bytes(), &salt).unwrap().to_string()
}

/// Checks a password against a PHC hash text.
///
/// Trusted: calls `PasswordHash::new` on the text and then
/// `Argon2::default().verify_password`. `Err` carries the parse error, written
/// with `{:?}`; `Ok(b)` tells whether the password was accepted. The contract
/// ties each outcome to the two named results; the text of the parse error
/// is not stated.
#[verifier::external_body]
fn check_password_hash(hash: &str, password: &str) -> (res: Result<bool, String>)
    ensures
        match res {
            Err(_) => !phc_hash_parses(hash@),
            Ok(b) => phc_hash_parses(hash@) && b == argon2_accepts(hash@, password@),
        },
{
    match PasswordHash::new(hash) {
        Err(e) => Err(format!("{:?}", e)),
        Ok(parsed) => Ok(argon2::Argon2::default().verify_password(password.as_bytes(), &parsed).is_ok()),
    }
}

/// A stored account: the user's data and the password hash.
pub struct DbUser {
    pub id: String,
    pub username: String,
    pub selected_skin_id: Option<String>,
    pub selected_cape_id: Option<String>,
    pub selected_elytra_id: Option<String>,
    pub password_hash: String,
    pub created: Option<String>,
}

/// What checking a password against a stored hash answers.
pub open spec fn password_check(hash: Seq<char>, password: Seq<char>) -> Result<(), ()> {
    if phc_hash_parses(hash) && argon2_accepts(hash, password) {
        Ok(())
    } else {
        Err(())
    }
}

impl DbUser {
    /// Checks a password: `Ok` where it matches the stored hash,
    /// `WrongPassword` where it does not, and `Other` with the parse error
    /// where the stored hash is not a PHC hash.
    pub fn verify_password(&self, password: String) -> (res: Result<(), AppError>)
        ensures
            res is Ok <==> password_check(self.password_hash@, password@) is Ok,
            res matches Err(AppError::WrongPassword) <==> phc_hash_parses(self.password_hash@)
                && !argon2_accepts(self.password_hash@, password@),
            res matches Err(e) ==> e is WrongPassword || e is Other,
    {
        match check_password_hash(self.password_hash.as_str(), password.as_str()) {
            Err(msg) => Err(AppError::Other(msg)),
            Ok(true) => Ok(()),
            Ok(false) => Err(AppError::WrongPassword),
        }
    }

    /// The user of this account, without rights (they come from the groups).
    pub fn into_user(self) -> (res: User)
        ensures
            res@ == (UserView {
                id: self.id@,
                username: self.username@,
                selected_skin_id: self.selected_skin_id.deep_view(),
                selected_cape_id: self.selected_cape_id.deep_view(),
                selected_elytra_id: self.selected_elytra_id.deep_view(),
                permissions: 0,
                created: self.created.deep_view(),
            }),
    {
        User {
            id: self.id,
            username: self.username,
            selected_skin_id: self.selected_skin_id,
            selected_cape_id: self.selected_cape_id,
            selected_elytra_id: self.selected_elytra_id,
            permissions: Permissions(0),
            created: self.created,
        }
    }
}

/// The stored account of a new user: the user's data and a fresh Argon2id
/// hash of the password (the account table keeps no elytra choice and no
/// creation time of its own; they are left empty).
pub fn new_account(user: &User, password: &str) -> (res: DbUser)
    requires
        hashable_password(password),
    ensures
        res.id@ == user@.id,
        res.username@ == user@.username,
        res.selected_skin_id.deep_view() == user@.selected_skin_id,
        res.selected_cape_id.deep_view() == user@.selected_cape_id,
        res.selected_elytra_id is None,
        res.created is None,
        argon2_default_prefix().is_prefix_of(res.password_hash@),
        password_check(res.password_hash@, password@) is Ok,
{
    DbUser {
        id: user.id.clone(),
        username: user.username.clone(),
        selected_skin_id: clone_optional_text(&user.selected_skin_id),
        selected_cape_id: clone_optional_text(&user.selected_cape_id),
        selected_elytra_id: None,
        password_hash: hash_password(password),
        created: None,
    }
}

/// A password is accepted against a hash that was made of it.
pub proof fn law_fresh_hash_accepts(hash: Seq<char>, password: Seq<char>)
    requires
        phc_hash_parses(hash),
        argon2_accepts(hash, password),
    ensures
        password_check(hash, password) is Ok,
{
}

} // verus!
