use vstd::prelude::*;

use crate::decimal::{
    decimal_text, digits_value, format_u64, is_canonical_numeral, lemma_canonical_numeral,
    lemma_parse_decimal_text, parse_u64, parse_u64_spec, without_plus,
};

verus! {

/// A set of permission flags, stored as the bits of a `u64`.
#[derive(Debug, Clone, Copy, PartialEq, Eq, Structural)]
pub struct Permissions(pub u64);

impl View for Permissions {
    type V = u64;

    open spec fn view(&self) -> u64 {
        self.0
    }
}

/// The bits of all named flags.
pub open spec fn all_bits() -> u64 {
    0x0030_0003u64
}

impl Permissions {
    /// Bit of the right to create, replace and delete textures.
    pub const TEXTURE_EDIT: u64 = 1u64;
    /// Bit of the right to use textures.
    pub const TEXTURE_USE: u64 = 2u64;
    /// Bit of the right to edit users.
    pub const USER_EDIT: u64 = 0x0010_0000u64;
    /// Bit of the right to edit groups.
    pub const GROUP_EDIT: u64 = 0x0020_0000u64;

    /// No flag set.
    pub fn empty() -> (res: Permissions)
        ensures
            res@ == 0,
    {
        Permissions(0)
    }

    /// Every named flag set.
    pub fn all() -> (res: Permissions)
        ensures
            res@ == all_bits(),
    {
        Permissions(0x0030_0003u64)
    }

    /// The raw bits.
    pub fn bits(&self) -> (res: u64)
        ensures
            res == self@,
    {
        self.0
    }

    /// The set with exactly the given bits, named or not.
    pub fn from_bits_retain(bits: u64) -> (res: Permissions)
        ensures
            res@ == bits,
    {
        Permissions(bits)
    }

    /// Whether no flag is set.
    pub fn is_empty(&self) -> (res: bool)
        ensures
            res == (self@ == 0),
    {
        self.0 == 0
    }

    /// Whether some flag of `flags` is set in `self`.
    pub fn intersects(&self, flags: u64) -> (res: bool)
        ensures
            res == (self@ & flags != 0),
    {
        self.0 & flags != 0
    }

    /// Sets every flag of `flags`.
    pub fn insert(&mut self, flags: u64)
        ensures
            final(self)@ == old(self)@ | flags,
    {
        self.0 = self.0 | flags;
    }

    /// Clears every flag of `flags`.
    pub fn remove(&mut self, flags: u64)
        ensures
            final(self)@ == old(self)@ & !flags,
    {
        self.0 = self.0 & !flags;
    }

    /// Sets (`value` true) or clears (`value` false) every flag of `flags`.
    pub fn set(&mut self, flags: u64, value: bool)
        ensures
            final(self)@ == if value {
                old(self)@ | flags
            } else {
                old(self)@ & !flags
            },
    {
        if value {
            self.insert(flags);
        } else {
            self.remove(flags);
        }
    }

    /// The flags set in either operand.
    pub fn union(self, other: Permissions) -> (res: Permissions)
        ensures
            res@ == self@ | other@,
    {
        Permissions(self.0 | other.0)
    }

    /// Reads the decimal number of the bits; text that is not such a number
    /// gives the empty set.
    pub fn from_str(string: &str) -> (res: Permissions)
        ensures
            res == permissions_from_text(string@),
    {
        match parse_u64(string) {
            Some(v) => Permissions(v),
            None => Permissions(0),
        }
    }

    /// The decimal number of the bits.
    pub fn to_str(&self) -> (res: String)
        ensures
            res@ == decimal_text(self@ as nat),
    {
        format_u64(self.0)
    }

    /// Each named flag with its name.
    pub fn all_named() -> (res: Vec<(u64, &'static str)>)
        ensures
            res@.len() == 4,
            res@[0].0 == Permissions::TEXTURE_EDIT && res@[0].1@ == "TEXTURE_EDIT"@,
            res@[1].0 == Permissions::TEXTURE_USE && res@[1].1@ == "TEXTURE_USE"@,
            res@[2].0 == Permissions::USER_EDIT && res@[2].1@ == "USER_EDIT"@,
            res@[3].0 == Permissions::GROUP_EDIT && res@[3].1@ == "GROUP_EDIT"@,
    {
        let mut v: Vec<(u64, &'static str)> = Vec::new();
        v.push((Permissions::TEXTURE_EDIT, "TEXTURE_EDIT"));
        v.push((Permissions::TEXTURE_USE, "TEXTURE_USE"));
        v.push((Permissions::USER_EDIT, "USER_EDIT"));
        v.push((Permissions::GROUP_EDIT, "GROUP_EDIT"));
        v
    }

    /// Whether every flag of `other` is set in `self`.
    pub fn contains(&self, flags: u64) -> (res: bool)
        ensures
            res == (self@ & flags == flags),
    {
        self.0 & flags == flags
    }
}

/// What `Permissions::from_str` makes of a text.
pub open spec fn permissions_from_text(s: Seq<char>) -> Permissions {
    match parse_u64_spec(s) {
        Some(v) => Permissions(v),
        None => Permissions(0),
    }
}

impl Default for Permissions {
    fn default() -> (res: Permissions)
        ensures
            res@ == 0,
    {
        Permissions(0)
    }
}

impl core::ops::BitOr for Permissions {
    type Output = Permissions;

    fn bitor(self, rhs: Permissions) -> (res: Permissions)
        ensures
            res@ == self@ | rhs@,
    {
        Permissions(self.0 | rhs.0)
    }
}

impl vstd::std_specs::ops::BitOrSpecImpl for Permissions {
    open spec fn obeys_bitor_spec() -> bool {
        true
    }

    open spec fn bitor_req(self, rhs: Permissions) -> bool {
        true
    }

    open spec fn bitor_spec(self, rhs: Permissions) -> Permissions {
        Permissions(self.0 | rhs.0)
    }
}

impl From<i64> for Permissions {
    fn from(value: i64) -> (res: Permissions) {
        Permissions(value as u64)
    }
}

impl vstd::std_specs::convert::FromSpecImpl<i64> for Permissions {
    open spec fn obeys_from_spec() -> bool {
        true
    }

    open spec fn from_spec(value: i64) -> Permissions {
        Permissions(value as u64)
    }
}

impl From<Permissions> for i64 {
    fn from(value: Permissions) -> (res: i64) {
        value.0 as i64
    }
}

impl vstd::std_specs::convert::FromSpecImpl<Permissions> for i64 {
    open spec fn obeys_from_spec() -> bool {
        true
    }

    open spec fn from_spec(value: Permissions) -> i64 {
        value.0 as i64
    }
}

/// Writing a set as decimal text and reading the text back gives the same set.
pub proof fn law_text_round_trip(p: Permissions)
    ensures
        permissions_from_text(decimal_text(p@ as nat)) == p,
{
    lemma_parse_decimal_text(p@);
}

/// Reading a canonical decimal numeral up to `u64::MAX` and writing the set
/// back as text gives the same numeral.
pub proof fn law_numeral_round_trip(s: Seq<char>)
    requires
        is_canonical_numeral(s),
        digits_value(s) <= u64::MAX,
    ensures
        decimal_text(permissions_from_text(s)@ as nat) == s,
{
    lemma_canonical_numeral(s);
    assert(without_plus(s) == s);
}

/// Storing a set as an `i64` and reading it back gives the same set.
pub proof fn law_i64_round_trip(p: Permissions)
    ensures
        ((p@ as i64) as u64) == p@,
{
    let b = p@;
    assert(((b as i64) as u64) == b) by (bit_vector);
}

/// After inserting flags, the set contains them; the flags that were set stay set.
pub proof fn law_insert_contains(bits: u64, flags: u64, other: u64)
    ensures
        (bits | flags) & flags == flags,
        bits & other == other ==> (bits | flags) & other == other,
{
    assert((bits | flags) & flags == flags) by (bit_vector);
    assert(bits & other == other ==> (bits | flags) & other == other) by (bit_vector);
}

/// After removing flags, none of them is set; the other flags are kept.
pub proof fn law_remove_clears(bits: u64, flags: u64)
    ensures
        (bits & !flags) & flags == 0,
        (bits & !flags) | (bits & flags) == bits,
{
    assert((bits & !flags) & flags == 0) by (bit_vector);
    assert((bits & !flags) | (bits & flags) == bits) by (bit_vector);
}

/// The union of two sets contains each of them.
pub proof fn law_union_contains_both(a: u64, b: u64)
    ensures
        (a | b) & a == a,
        (a | b) & b == b,
        a | b == b | a,
{
    assert((a | b) & a == a) by (bit_vector);
    assert((a | b) & b == b) by (bit_vector);
    assert(a | b == b | a) by (bit_vector);
}

} // verus!
