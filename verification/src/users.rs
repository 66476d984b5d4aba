use vstd::prelude::*;

use crate::ids::{id_or_fresh, is_uuid_v4_text};
use crate::permissions::Permissions;
use crate::textures::{clone_optional_text, texture_type_name, TextureType};

verus! {

/// The contents of a user, as values.
pub struct UserView {
    pub id: Seq<char>,
    pub username: Seq<char>,
    pub selected_skin_id: Option<Seq<char>>,
    pub selected_cape_id: Option<Seq<char>>,
    pub selected_elytra_id: Option<Seq<char>>,
    pub permissions: u64,
    pub created: Option<Seq<char>>,
}

/// A user, with the textures the user wears and the rights of the user's groups.
#[derive(Debug, PartialEq, Eq)]
pub struct User {
    pub id: String,
    pub username: String,
    pub selected_skin_id: Option<String>,
    pub selected_cape_id: Option<String>,
    pub selected_elytra_id: Option<String>,
    pub permissions: Permissions,
    pub created: Option<String>,
}

impl View for User {
    type V = UserView;

    open spec fn view(&self) -> UserView {
        UserView {
            id: self.id@,
            username: self.username@,
            selected_skin_id: self.selected_skin_id.deep_view(),
            selected_cape_id: self.selected_cape_id.deep_view(),
            selected_elytra_id: self.selected_elytra_id.deep_view(),
            permissions: self.permissions@,
            created: self.created.deep_view(),
        }
    }
}

/// The anonymous user is the one with the empty id.
pub open spec fn is_anonymous(u: UserView) -> bool {
    u.id.len() == 0
}

/// Every flag of `flags` is among the user's rights.
pub open spec fn has_flags(u: UserView, flags: u64) -> bool {
    u.permissions & flags == flags
}

/// The id of the texture of one type that the user wears.
pub open spec fn selected_of(u: UserView, t: TextureType) -> Option<Seq<char>> {
    match t {
        TextureType::Skin => u.selected_skin_id,
        TextureType::Cape => u.selected_cape_id,
        TextureType::Elytra => u.selected_elytra_id,
    }
}

impl User {
    /// Whether this is the anonymous user (the empty id).
    pub fn anonymous(&self) -> (res: bool)
        ensures
            res == is_anonymous(self@),
    {
        self.id.as_str().is_empty()
    }

    /// Whether the user has every right of `flags`.
    pub fn has_permission(&self, flags: u64) -> (res: bool)
        ensures
            res == has_flags(self@, flags),
    {
        self.permissions.contains(flags)
    }

    /// Whether the user may act on textures of others: may edit users or groups.
    pub fn is_privileged(&self) -> (res: bool)
        ensures
            res == (has_flags(self@, Permissions::USER_EDIT) || has_flags(
                self@,
                Permissions::GROUP_EDIT,
            )),
    {
        self.has_permission(Permissions::USER_EDIT) || self.has_permission(Permissions::GROUP_EDIT)
    }

    /// The id of the texture of one type that the user wears.
    pub fn selected_texture_id(&self, t: TextureType) -> (res: Option<String>)
        ensures
            res.deep_view() == selected_of(self@, t),
    {
        match t {
            TextureType::Skin => clone_optional_text(&self.selected_skin_id),
            TextureType::Cape => clone_optional_text(&self.selected_cape_id),
            TextureType::Elytra => clone_optional_text(&self.selected_elytra_id),
        }
    }

    /// The same user, with a fresh id where the id is empty.
    pub fn with_id(self) -> (res: User)
        ensures
            self.id@.len() > 0 ==> res@ == self@,
            self.id@.len() == 0 ==> is_uuid_v4_text(res@.id) && res@ == (UserView { id: res@.id, ..self@ }),
    {
        let User {
            id,
            username,
            selected_skin_id,
            selected_cape_id,
            selected_elytra_id,
            permissions,
            created,
        } = self;
        User {
            id: id_or_fresh(id),
            username,
            selected_skin_id,
            selected_cape_id,
            selected_elytra_id,
            permissions,
            created,
        }
    }
}

impl Clone for User {
    fn clone(&self) -> (res: User)
        ensures
            res@ == self@,
    {
        User {
            id: self.id.clone(),
            username: self.username.clone(),
            selected_skin_id: clone_optional_text(&self.selected_skin_id),
            selected_cape_id: clone_optional_text(&self.selected_cape_id),
            selected_elytra_id: clone_optional_text(&self.selected_elytra_id),
            permissions: self.permissions,
            created: clone_optional_text(&self.created),
        }
    }
}

impl Default for User {
    fn default() -> (res: User)
        ensures
            res@ == (UserView {
                id: Seq::empty(),
                username: Seq::empty(),
                selected_skin_id: None,
                selected_cape_id: None,
                selected_elytra_id: None,
                permissions: 0,
                created: None,
            }),
    {
        User {
            id: String::new(),
            username: String::new(),
            selected_skin_id: None,
            selected_cape_id: None,
            selected_elytra_id: None,
            permissions: Permissions(0),
            created: None,
        }
    }
}

/// The groups a new user joins: `usr`, and also `adm` and `crtr` for the first
/// user of all.
pub open spec fn initial_group_ids(user_count: i64) -> Seq<Seq<char>> {
    if user_count == 0 {
        seq!["usr"@, "adm"@, "crtr"@]
    } else {
        seq!["usr"@]
    }
}

/// The memberships (user id, group id) of a new user, given how many users
/// there were before.
pub fn initial_memberships(user_id: &String, user_count: i64) -> (res: Vec<(String, String)>)
    ensures
        user_count != 0 ==> res@.len() == 1 && res@[0].0@ == user_id@ && res@[0].1@ == "usr"@,
        user_count == 0 ==> res@.len() == 3 && res@[0].1@ == "usr"@ && res@[1].1@ == "adm"@
            && res@[2].1@ == "crtr"@,
        res@.len() == initial_group_ids(user_count).len(),
        forall|i: int|
            0 <= i < res@.len() ==> (#[trigger] res@[i]).0@ == user_id@ && res@[i].1@
                == initial_group_ids(user_count)[i],
{
    let mut groups: Vec<(String, String)> = Vec::new();
    groups.push((user_id.clone(), "usr".to_owned()));
    if user_count == 0 {
        groups.push((user_id.clone(), "adm".to_owned()));
        groups.push((user_id.clone(), "crtr".to_owned()));
    }
    groups
}

/// The column of the users table that holds the worn texture of a type.
pub open spec fn selection_column_of(t: TextureType) -> Seq<char> {
    match t {
        TextureType::Skin => "selected_skin_id"@,
        TextureType::Cape => "selected_cape_id"@,
        TextureType::Elytra => "selected_elytra_id"@,
    }
}

/// The column of the users table that holds the worn texture of a type.
pub fn selection_column(t: TextureType) -> (res: &'static str)
    ensures
        res@ == selection_column_of(t),
{
    match t {
        TextureType::Skin => "selected_skin_id",
        TextureType::Cape => "selected_cape_id",
        TextureType::Elytra => "selected_elytra_id",
    }
}

impl User {
    /// Wears the texture with the given id (or none) for one type; the other
    /// types and fields stay.
    pub fn set_selected_texture(&mut self, t: TextureType, texture_id: Option<String>)
        ensures
            selected_of(final(self)@, t) == texture_id.deep_view(),
            forall|o: TextureType| o != t ==> selected_of(final(self)@, o) == selected_of(old(self)@, o),
            final(self)@.id == old(self)@.id,
            final(self)@.username == old(self)@.username,
            final(self)@.permissions == old(self)@.permissions,
            final(self)@.created == old(self)@.created,
    {
        match t {
            TextureType::Skin => self.selected_skin_id = texture_id,
            TextureType::Cape => self.selected_cape_id = texture_id,
            TextureType::Elytra => self.selected_elytra_id = texture_id,
        }
    }
}

/// Only the very first user joins the administrators (`adm`) and creators
/// (`crtr`); every later user joins the users group (`usr`) alone.
pub proof fn law_only_first_user_is_admin(user_count: i64)
    ensures
        user_count != 0 ==> initial_group_ids(user_count) == seq!["usr"@],
        user_count == 0 ==> initial_group_ids(user_count) == seq!["usr"@, "adm"@, "crtr"@],
        initial_group_ids(user_count).contains("adm"@) <==> user_count == 0,
        initial_group_ids(user_count).contains("crtr"@) <==> user_count == 0,
        initial_group_ids(user_count).contains("usr"@),
{
    reveal_strlit("usr");
    reveal_strlit("adm");
    reveal_strlit("crtr");
    let g = initial_group_ids(user_count);
    if user_count == 0 {
        assert(g[0] == "usr"@ && g[1] == "adm"@ && g[2] == "crtr"@);
    } else {
        assert(g[0] == "usr"@);
        assert(g.len() == 1);
        assert("usr"@ != "adm"@) by {
            assert("usr"@[0] != "adm"@[0]);
        }
        assert("usr"@ != "crtr"@) by {
            assert("usr"@[0] != "crtr"@[0]);
        }
        assert(!g.contains("adm"@)) by {
            if g.contains("adm"@) {
                let k = choose|k: int| 0 <= k < g.len() && g[k] == "adm"@;
                assert(k == 0);
            }
        }
        assert(!g.contains("crtr"@)) by {
            if g.contains("crtr"@) {
                let k = choose|k: int| 0 <= k < g.len() && g[k] == "crtr"@;
                assert(k == 0);
            }
        }
    }
}

/// The ASCII lower case of a text.
pub open spec fn ascii_lower(s: Seq<char>) -> Seq<char> {
    s.map_values(|c: char| if 'A' <= c && c <= 'Z' { ((c as u32) + 32) as char } else { c })
}

/// The column that holds the worn texture of a type is named after the type:
/// `selected_`, the type's stored name in lower case, and `_id`.
pub proof fn law_selection_column_names_type(t: TextureType)
    ensures
        selection_column_of(t) == "selected_"@ + ascii_lower(texture_type_name(t)) + "_id"@,
{
    reveal_strlit("selected_");
    reveal_strlit("_id");
    reveal_strlit("Skin");
    reveal_strlit("Cape");
    reveal_strlit("Elytra");
    reveal_strlit("selected_skin_id");
    reveal_strlit("selected_cape_id");
    reveal_strlit("selected_elytra_id");
    let n = texture_type_name(t);
    assert(ascii_lower("Skin"@) =~= seq!['s', 'k', 'i', 'n']);
    assert(ascii_lower("Cape"@) =~= seq!['c', 'a', 'p', 'e']);
    assert(ascii_lower("Elytra"@) =~= seq!['e', 'l', 'y', 't', 'r', 'a']);
    assert(selection_column_of(t) =~= "selected_"@ + ascii_lower(n) + "_id"@);
}

/// Different texture types are worn in different columns.
pub proof fn law_selection_columns_differ(a: TextureType, b: TextureType)
    ensures
        a != b ==> selection_column_of(a) != selection_column_of(b),
{
    reveal_strlit("selected_skin_id");
    reveal_strlit("selected_cape_id");
    reveal_strlit("selected_elytra_id");
    if a != b {
        assert(selection_column_of(a)[9] != selection_column_of(b)[9]);
    }
}

} // verus!
