use api::textures::filter_by_type;
use api::{Blob, Texture, TextureType};

fn texture(id: &str, t: TextureType, owner: Option<&str>) -> Texture {
    Texture {
        id: id.to_string(),
        skin_name: format!("name-{id}"),
        texture_type: t,
        image_data: Blob(vec![1, 2, 3]),
        owner_id: owner.map(|o| o.to_string()),
    }
}

#[test]
fn texture_type_names() {
    assert_eq!(TextureType::Skin.name(), "Skin");
    assert_eq!(TextureType::Cape.name(), "Cape");
    assert_eq!(TextureType::Elytra.name(), "Elytra");
    for t in [TextureType::Skin, TextureType::Cape, TextureType::Elytra] {
        assert_eq!(TextureType::from_name(t.name()), t);
    }
    assert_eq!(TextureType::from(String::from("Cape")), TextureType::Cape);
    assert_eq!(TextureType::from(String::from("Elytra")), TextureType::Elytra);
    assert_eq!(TextureType::from(String::from("elytra")), TextureType::Skin);
    assert_eq!(TextureType::from(String::new()), TextureType::Skin);
    assert_eq!(TextureType::default(), TextureType::Skin);
    assert_eq!(TextureType::parse_name("Elytra"), Some(TextureType::Elytra));
    assert_eq!(TextureType::parse_name("Skin"), Some(TextureType::Skin));
    assert_eq!(TextureType::parse_name("skin"), None);
}

#[test]
fn blob_base64() {
    let b = Blob(vec![1, 2, 3]);
    assert_eq!(b.as_base64(), "AQID");
    assert_eq!(Blob(vec![0xff, 0xfe]).as_base64(), "//4=");
    assert_eq!(Blob(vec![]).as_base64(), "");
    assert_eq!(Blob::from_base64("AQID"), Ok(Blob(vec![1, 2, 3])));
    assert!(Blob::from_base64("A").is_err());
    assert!(Blob::from_base64("AQI").is_err());
    assert!(Blob::from_base64("!!!!").is_err());
}

#[test]
fn blob_base64_round_trip() {
    for data in [vec![], vec![0u8], vec![1, 2], vec![1, 2, 3], (0..=255u8).collect::<Vec<u8>>()] {
        let b = Blob(data);
        assert_eq!(Blob::from_base64(&b.as_base64()), Ok(b.clone()));
    }
}

#[test]
fn blob_empty_and_from() {
    assert!(Blob(vec![]).is_empty());
    assert!(!Blob(vec![0]).is_empty());
    assert_eq!(Blob::from(vec![7u8]), Blob(vec![7]));
    assert!(Blob::default().is_empty());
}

#[test]
fn texture_defaults_and_clone() {
    let t = Texture::default();
    assert_eq!(t.owner_id, None);
    assert_eq!(t.texture_type, TextureType::Skin);
    assert!(t.id.is_empty());
    let u = texture("a", TextureType::Cape, Some("u1"));
    assert_eq!(u.clone(), u);
}

#[test]
fn texture_keeps_or_gets_id() {
    let t = texture("abc", TextureType::Skin, None).with_id();
    assert_eq!(t.id, "abc");
    let t = texture("", TextureType::Skin, None).with_id();
    assert!(is_uuid_v4_text(&t.id));
    let u = texture("", TextureType::Skin, None).with_id();
    assert_ne!(t.id, u.id);
    assert_eq!(t.skin_name, "name-");
}

#[test]
fn filter_keeps_order_of_one_type() {
    let list = vec![
        texture("1", TextureType::Skin, None),
        texture("2", TextureType::Cape, None),
        texture("3", TextureType::Skin, Some("u")),
        texture("4", TextureType::Elytra, None),
    ];
    let skins = filter_by_type(&list, TextureType::Skin);
    assert_eq!(skins.iter().map(|t| t.id.as_str()).collect::<Vec<_>>(), vec!["1", "3"]);
    assert_eq!(filter_by_type(&list, TextureType::Elytra).len(), 1);
    assert!(filter_by_type(&vec![], TextureType::Cape).is_empty());
}

/// The hyphenated lowercase text of a random (version 4) UUID.
fn is_uuid_v4_text(s: &str) -> bool {
    let c: Vec<char> = s.chars().collect();
    c.len() == 36
        && c.iter().enumerate().all(|(i, &ch)| {
            if [8, 13, 18, 23].contains(&i) {
                ch == '-'
            } else {
                ch.is_ascii_digit() || ('a'..='f').contains(&ch)
            }
        })
        && c[14] == '4'
        && "89ab".contains(c[19])
}
