use api::groups::{effective_max_textures, effective_permissions};
use api::{Group, Permissions, DEFAULT_MAX_TEXTURES};

#[test]
fn overlapping_groups_grant_the_union_of_rights() {
    // usr and crtr share TEXTURE_EDIT; a sum of the bits would lose both rights.
    let usr = Permissions::from_bits_retain(Permissions::TEXTURE_EDIT | Permissions::TEXTURE_USE);
    let crtr = Permissions::from_bits_retain(Permissions::TEXTURE_EDIT);
    let adm = Permissions::from_bits_retain(Permissions::USER_EDIT | Permissions::GROUP_EDIT);
    let p = effective_permissions(&vec![usr, crtr, adm]);
    assert!(p.contains(Permissions::TEXTURE_USE));
    assert!(p.contains(Permissions::TEXTURE_EDIT));
    assert!(p.contains(Permissions::USER_EDIT));
    assert!(p.contains(Permissions::GROUP_EDIT));
    assert_eq!(p.bits(), Permissions::all().bits());
}

#[test]
fn user_without_groups_has_no_rights() {
    assert!(effective_permissions(&vec![]).is_empty());
}

#[test]
fn effective_quota_is_the_largest() {
    assert_eq!(effective_max_textures(&vec![5, 25]), 25);
    assert_eq!(effective_max_textures(&vec![5, 25, 1000]), 1000);
    assert_eq!(effective_max_textures(&vec![25, 5]), 25);
    assert_eq!(effective_max_textures(&vec![]), 0);
}

#[test]
fn stored_group_has_id_and_non_negative_quota() {
    let g = Group {
        id: "g1".to_string(),
        group_name: "Gruppe".to_string(),
        permissions: Permissions::from_bits_retain(Permissions::TEXTURE_USE),
        max_textures: -4,
        created: None,
    };
    let n = g.normalized();
    assert_eq!(n.id, "g1");
    assert_eq!(n.max_textures, 0);
    assert_eq!(n.group_name, "Gruppe");
    let fresh = Group::default().normalized();
    assert!(is_uuid_v4_text(&fresh.id));
    assert_eq!(fresh.max_textures, DEFAULT_MAX_TEXTURES);
}

#[test]
fn default_group_has_default_quota() {
    let g = Group::default();
    assert_eq!(g.max_textures, DEFAULT_MAX_TEXTURES);
    assert!(g.permissions.is_empty());
}

/// The hyphenated lowercase text of a random (version 4) UUID.
fn is_uuid_v4_text(s: &str) -> bool {
    let c: Vec<char> = s.chars().collect();
    c.len() == 36
        && c.iter().enumerate().all(|(i, &ch)| {
            if [8, 13, 18, 23].contains(&i) {
                ch == '-'
            } else {
                ch.is_ascii_digit() || ('a'..='f').contains(&ch)
            }
        })
        && c[14] == '4'
        && "89ab".contains(c[19])
}
