use vstd::prelude::*;

verus! {

/// A lowercase hexadecimal digit.
pub open spec fn is_lower_hex(c: char) -> bool {
    ('0' <= c && c <= '9') || ('a' <= c && c <= 'f')
}

/// The text of a random (version 4, RFC 4122 variant) UUID in hyphenated
/// lowercase form: 36 characters, hyphens at 8, 13, 18 and 23, lowercase hex
/// digits elsewhere, the version digit `4` at 14 and one of `8`, `9`, `a`,
/// `b` at 19.
pub open spec fn is_uuid_v4_text(s: Seq<char>) -> bool {
    &&& s.len() == 36
    &&& forall|i: int|
        0 <= i < 36 ==> if i == 8 || i == 13 || i == 18 || i == 23 {
            #[trigger] s[i] == '-'
        } else {
            is_lower_hex(s[i])
        }
    &&& s[14] == '4'
    &&& (s[19] == '8' || s[19] == '9' || s[19] == 'a' || s[19] == 'b')
}

/// A fresh random identifier.
///
/// Trusted: calls `uuid::Uuid::new_v4` and formats it with `to_string`.
/// `new_v4` masks random bits so that the version nibble is 4 and the variant
/// bits are `10`, and `to_string` writes the hyphenated lowercase form; the
/// contract claims that form (`is_uuid_v4_text`). The other digits are random,
/// so nothing else is stated, freshness included. `new_v4` panics only where
/// the system's random source fails.
#[verifier::external_body]
fn fresh_uuid() -> (res: String)
    ensures
        is_uuid_v4_text(res@),
{
    uuid::Uuid::new_v4().to_string()
}

/// Keeps a given identifier, or makes a fresh random one for an empty identifier.
pub fn id_or_fresh(id: String) -> (res: String)
    ensures
        id@.len() > 0 ==> res@ == id@,
        id@.len() == 0 ==> is_uuid_v4_text(res@),
{
    if id.as_str().is_empty() {
        fresh_uuid()
    } else {
        id
    }
}

} // verus!
