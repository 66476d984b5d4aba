use vstd::prelude::*;

use crate::ids::{id_or_fresh, is_uuid_v4_text};
use crate::permissions::Permissions;
use crate::textures::clone_optional_text;

verus! {

/// The texture quota of a group that does not say otherwise.
pub const DEFAULT_MAX_TEXTURES: i64 = 5i64;

/// The contents of a group, as values.
pub struct GroupView {
    pub id: Seq<char>,
    pub group_name: Seq<char>,
    pub permissions: u64,
    pub max_textures: i64,
    pub created: Option<Seq<char>>,
}

/// A group: its rights and how many textures each member may upload.
#[derive(Debug, PartialEq, Eq)]
pub struct Group {
    pub id: String,
    pub group_name: String,
    pub permissions: Permissions,
    pub max_textures: i64,
    pub created: Option<String>,
}

impl View for Group {
    type V = GroupView;

    open spec fn view(&self) -> GroupView {
        GroupView {
            id: self.id@,
            group_name: self.group_name@,
            permissions: self.permissions@,
            max_textures: self.max_textures,
            created: self.created.deep_view(),
        }
    }
}

impl Clone for Group {
    fn clone(&self) -> (res: Group)
        ensures
            res@ == self@,
    {
        Group {
            id: self.id.clone(),
            group_name: self.group_name.clone(),
            permissions: self.permissions,
            max_textures: self.max_textures,
            created: clone_optional_text(&self.created),
        }
    }
}

impl Default for Group {
    fn default() -> (res: Group)
        ensures
            res@ == (GroupView {
                id: Seq::empty(),
                group_name: Seq::empty(),
                permissions: 0,
                max_textures: DEFAULT_MAX_TEXTURES,
                created: None,
            }),
    {
        Group {
            id: String::new(),
            group_name: String::new(),
            permissions: Permissions(0),
            max_textures: DEFAULT_MAX_TEXTURES,
            created: None,
        }
    }
}

/// The larger of a quota and zero.
pub open spec fn non_negative(n: i64) -> i64 {
    if n < 0 {
        0
    } else {
        n
    }
}

impl Group {
    /// The group as it is stored: a fresh id where the id is empty, and a
    /// negative quota raised to zero.
    pub fn normalized(self) -> (res: Group)
        ensures
            self.id@.len() > 0 ==> res@.id == self.id@,
            self.id@.len() == 0 ==> is_uuid_v4_text(res@.id),
            res@.group_name == self@.group_name,
            res@.permissions == self@.permissions,
            res@.max_textures == non_negative(self.max_textures),
            res@.created == self@.created,
    {
        let Group { id, group_name, permissions, max_textures, created } = self;
        let max_textures = if max_textures < 0 {
            0
        } else {
            max_textures
        };
        Group { id: id_or_fresh(id), group_name, permissions, max_textures, created }
    }
}

/// The rights of all groups together: every flag that some group has.
pub open spec fn union_of(flags: Seq<u64>) -> u64
    decreases flags.len(),
{
    if flags.len() == 0 {
        0
    } else {
        union_of(flags.drop_last()) | flags.last()
    }
}

/// The quota of all groups together: the largest, or zero without groups.
pub open spec fn largest_or_zero(limits: Seq<i64>) -> i64
    decreases limits.len(),
{
    if limits.len() == 0 {
        0
    } else if limits.len() == 1 {
        limits[0]
    } else {
        let rest = largest_or_zero(limits.drop_last());
        if rest < limits.last() {
            limits.last()
        } else {
            rest
        }
    }
}

/// The rights that a member of all the given groups has.
pub fn effective_permissions(groups: &Vec<Permissions>) -> (res: Permissions)
    ensures
        res@ == union_of(groups@.map_values(|p: Permissions| p@)),
{
    let ghost all = groups@.map_values(|p: Permissions| p@);
    let mut acc: u64 = 0;
    let mut i: usize = 0;
    while i < groups.len()
        invariant
            i <= groups.len(),
            all == groups@.map_values(|p: Permissions| p@),
            acc == union_of(all.take(i as int)),
        decreases groups.len() - i,
    {
        assert(all.take(i + 1).drop_last() =~= all.take(i as int));
        acc = acc | groups[i].0;
        i = i + 1;
    }
    assert(all.take(groups.len() as int) =~= all);
    Permissions(acc)
}

/// The texture quota of a member of all the given groups: the largest quota,
/// and zero for a user without groups.
pub fn effective_max_textures(limits: &Vec<i64>) -> (res: i64)
    ensures
        res == largest_or_zero(limits@),
{
    if limits.len() == 0 {
        return 0;
    }
    let mut acc: i64 = limits[0];
    let mut i: usize = 1;
    assert(limits@.take(1) =~= seq![limits@[0]]);
    while i < limits.len()
        invariant
            1 <= i <= limits.len(),
            acc == largest_or_zero(limits@.take(i as int)),
        decreases limits.len() - i,
    {
        assert(limits@.take(i + 1).drop_last() =~= limits@.take(i as int));
        if acc < limits[i] {
            acc = limits[i];
        }
        i = i + 1;
    }
    assert(limits@.take(limits.len() as int) =~= limits@);
    acc
}

/// A member of several groups has the rights of each of them.
pub proof fn law_union_grants_each(flags: Seq<u64>, i: int)
    requires
        0 <= i < flags.len(),
    ensures
        union_of(flags) & flags[i] == flags[i],
    decreases flags.len(),
{
    let u = union_of(flags.drop_last());
    let l = flags.last();
    if i == flags.len() - 1 {
        assert((u | l) & l == l) by (bit_vector);
    } else {
        law_union_grants_each(flags.drop_last(), i);
        let f = flags[i];
        assert(flags.drop_last()[i] == f);
        assert(u & f == f ==> (u | l) & f == f) by (bit_vector);
    }
}

/// A member of several groups has no right that none of them grants.
pub proof fn law_union_grants_nothing_else(flags: Seq<u64>, bits: u64)
    requires
        forall|i: int| 0 <= i < flags.len() ==> #[trigger] flags[i] & bits == 0,
    ensures
        union_of(flags) & bits == 0,
    decreases flags.len(),
{
    if flags.len() > 0 {
        let rest = flags.drop_last();
        assert forall|i: int| 0 <= i < rest.len() implies #[trigger] rest[i] & bits == 0 by {
            assert(rest[i] == flags[i]);
        }
        law_union_grants_nothing_else(rest, bits);
        let u = union_of(rest);
        let l = flags.last();
        assert(l & bits == 0);
        assert(u & bits == 0 && l & bits == 0 ==> (u | l) & bits == 0) by (bit_vector);
    } else {
        assert(0u64 & bits == 0) by (bit_vector);
    }
}

/// The quota of several groups is at least the quota of each, and is the
/// quota of one of them.
pub proof fn law_largest_quota(limits: Seq<i64>)
    requires
        limits.len() > 0,
    ensures
        forall|i: int| 0 <= i < limits.len() ==> limits[i] <= largest_or_zero(limits),
        exists|i: int| 0 <= i < limits.len() && limits[i] == largest_or_zero(limits),
    decreases limits.len(),
{
    if limits.len() == 1 {
        assert(limits[0] == largest_or_zero(limits));
    } else {
        let rest = limits.drop_last();
        law_largest_quota(rest);
        let r = largest_or_zero(rest);
        let j = choose|j: int| 0 <= j < rest.len() && rest[j] == r;
        assert forall|i: int| 0 <= i < limits.len() implies limits[i] <= largest_or_zero(limits) by {
            if i < limits.len() - 1 {
                assert(rest[i] == limits[i]);
            }
        }
        if r < limits.last() {
            assert(limits[limits.len() - 1] == largest_or_zero(limits));
        } else {
            assert(limits[j] == rest[j]);
        }
    }
}

} // verus!
