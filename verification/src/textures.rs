use vstd::prelude::*;

use base64::Engine;

use crate::ids::{id_or_fresh, is_uuid_v4_text};
use crate::text::same_text;

verus! {

/// The kind of a texture.
#[derive(Debug, Clone, Copy, PartialEq, Eq, Structural)]
pub enum TextureType {
    Skin,
    Cape,
    Elytra,
}

/// The name under which a texture type is stored.
pub open spec fn texture_type_name(t: TextureType) -> Seq<char> {
    match t {
        TextureType::Skin => "Skin"@,
        TextureType::Cape => "Cape"@,
        TextureType::Elytra => "Elytra"@,
    }
}

/// The texture type of a stored name; any other text reads as a skin.
pub open spec fn texture_type_named(name: Seq<char>) -> TextureType {
    if name == "Cape"@ {
        TextureType::Cape
    } else if name == "Elytra"@ {
        TextureType::Elytra
    } else {
        TextureType::Skin
    }
}

impl TextureType {
    /// The name under which this type is stored.
    pub fn name(&self) -> (res: &'static str)
        ensures
            res@ == texture_type_name(*self),
    {
        match self {
            TextureType::Skin => "Skin",
            TextureType::Cape => "Cape",
            TextureType::Elytra => "Elytra",
        }
    }

    /// The type with exactly this name; `None` for any other text.
    pub fn parse_name(name: &str) -> (res: Option<TextureType>)
        ensures
            res == (if name@ == "Skin"@ {
                Some(TextureType::Skin)
            } else if name@ == "Cape"@ {
                Some(TextureType::Cape)
            } else if name@ == "Elytra"@ {
                Some(TextureType::Elytra)
            } else {
                None::<TextureType>
            }),
    {
        if same_text(name, "Skin") {
            Some(TextureType::Skin)
        } else if same_text(name, "Cape") {
            Some(TextureType::Cape)
        } else if same_text(name, "Elytra") {
            Some(TextureType::Elytra)
        } else {
            None
        }
    }

    /// The type of a stored name; any other text reads as a skin.
    pub fn from_name(name: &str) -> (res: TextureType)
        ensures
            res == texture_type_named(name@),
    {
        if same_text(name, "Cape") {
            TextureType::Cape
        } else if same_text(name, "Elytra") {
            TextureType::Elytra
        } else {
            TextureType::Skin
        }
    }
}

impl Default for TextureType {
    fn default() -> (res: TextureType)
        ensures
            res == TextureType::Skin,
    {
        TextureType::Skin
    }
}

impl From<String> for TextureType {
    fn from(value: String) -> (res: TextureType) {
        TextureType::from_name(value.as_str())
    }
}

impl vstd::std_specs::convert::FromSpecImpl<String> for TextureType {
    open spec fn obeys_from_spec() -> bool {
        true
    }

    open spec fn from_spec(value: String) -> TextureType {
        texture_type_named(value@)
    }
}

/// Reading back the stored name of a type gives the type.
pub proof fn law_texture_type_name_round_trip(t: TextureType)
    ensures
        texture_type_named(texture_type_name(t)) == t,
{
    reveal_strlit("Skin");
    reveal_strlit("Cape");
    reveal_strlit("Elytra");
    assert("Skin"@[0] != "Cape"@[0]);
    assert("Skin"@.len() != "Elytra"@.len());
    assert("Cape"@.len() != "Elytra"@.len());
}

/// The character of a Base64 digit (0 to 63) in the standard alphabet:
/// `A`-`Z`, `a`-`z`, `0`-`9`, `+`, `/`.
pub open spec fn base64_digit(v: int) -> char {
    if v < 26 {
        (v + 65) as char
    } else if v < 52 {
        (v + 71) as char
    } else if v < 62 {
        (v - 4) as char
    } else if v == 62 {
        '+'
    } else {
        '/'
    }
}

/// The Base64 text of some bytes, standard alphabet, padded with `=`: each
/// group of three bytes gives four digits of six bits each, high bits first;
/// a last group of one or two bytes gives two or three digits (the unused low
/// bits zero) and `=` to make four.
pub open spec fn base64_text(data: Seq<u8>) -> Seq<char>
    decreases data.len(),
{
    if data.len() == 0 {
        Seq::empty()
    } else if data.len() == 1 {
        let a = data[0] as int;
        seq![base64_digit(a / 4), base64_digit((a % 4) * 16), '=', '=']
    } else if data.len() == 2 {
        let (a, b) = (data[0] as int, data[1] as int);
        seq![base64_digit(a / 4), base64_digit((a % 4) * 16 + b / 16), base64_digit((b % 16) * 4), '=']
    } else {
        let (a, b, c) = (data[0] as int, data[1] as int, data[2] as int);
        seq![
            base64_digit(a / 4),
            base64_digit((a % 4) * 16 + b / 16),
            base64_digit((b % 16) * 4 + c / 64),
            base64_digit(c % 64),
        ] + base64_text(data.subrange(3, data.len() as int))
    }
}

/// Different digits have different characters, and none of them is `=`.
proof fn lemma_base64_digit(v: int, w: int)
    requires
        0 <= v < 64,
        0 <= w < 64,
    ensures
        base64_digit(v) != '=',
        base64_digit(v) == base64_digit(w) ==> v == w,
{
}

/// Three bytes are given back by the four digits that they make.
proof fn lemma_base64_group(a: int, b: int, c: int, x: int, y: int, z: int)
    requires
        0 <= a < 256,
        0 <= b < 256,
        0 <= c < 256,
        0 <= x < 256,
        0 <= y < 256,
        0 <= z < 256,
        a / 4 == x / 4,
        (a % 4) * 16 + b / 16 == (x % 4) * 16 + y / 16,
        (b % 16) * 4 + c / 64 == (y % 16) * 4 + z / 64,
        c % 64 == z % 64,
    ensures
        a == x,
        b == y,
        c == z,
{
}

/// The Base64 text of some bytes has four characters for each group of up
/// to three bytes.
pub proof fn law_base64_text_len(data: Seq<u8>)
    ensures
        base64_text(data).len() == 4 * ((data.len() + 2) / 3),
    decreases data.len(),
{
    if data.len() >= 3 {
        law_base64_text_len(data.subrange(3, data.len() as int));
    }
}

/// The characters of the Base64 text at 2 and 3: digits where the bytes
/// reach that far, `=` where they do not.
proof fn lemma_base64_padding(data: Seq<u8>)
    requires
        data.len() > 0,
    ensures
        base64_text(data).len() >= 4,
        base64_text(data)[0] == base64_digit(data[0] as int / 4),
        (base64_text(data)[2] == '=') <==> data.len() == 1,
        (base64_text(data)[3] == '=') <==> data.len() <= 2,
{
    let t = base64_text(data);
    law_base64_text_len(data);
    let a = data[0] as int;
    if data.len() == 1 {
        lemma_base64_digit(a / 4, 0);
    } else {
        let b = data[1] as int;
        let c = if data.len() >= 3 {
            data[2] as int
        } else {
            0
        };
        lemma_base64_digit((b % 16) * 4 + c / 64, 0);
        if data.len() >= 3 {
            lemma_base64_digit(c % 64, 0);
        }
    }
}

/// Different bytes have different Base64 texts: a Base64 text is read back
/// as the one sequence of bytes that it was written from.
pub proof fn law_base64_injective(a: Seq<u8>, b: Seq<u8>)
    requires
        base64_text(a) == base64_text(b),
    ensures
        a == b,
    decreases a.len(),
{
    let t = base64_text(a);
    law_base64_text_len(a);
    law_base64_text_len(b);
    if a.len() == 0 || b.len() == 0 {
        return;
    }
    lemma_base64_padding(a);
    lemma_base64_padding(b);
    let a0 = a[0] as int;
    let x0 = b[0] as int;
    if a.len() == 1 {
        let (d, e) = ((a0 % 4) * 16, (x0 % 4) * 16);
        assert(t[1] == base64_digit(d) && t[1] == base64_digit(e));
        lemma_base64_digit(a0 / 4, x0 / 4);
        lemma_base64_digit(d, e);
        lemma_base64_group(a0, 0, 0, x0, 0, 0);
        assert(a =~= b);
    } else if a.len() == 2 {
        let (a1, x1) = (a[1] as int, b[1] as int);
        let (d, e) = ((a0 % 4) * 16 + a1 / 16, (x0 % 4) * 16 + x1 / 16);
        let (f, g) = ((a1 % 16) * 4, (x1 % 16) * 4);
        assert(t[1] == base64_digit(d) && t[1] == base64_digit(e));
        assert(t[2] == base64_digit(f) && t[2] == base64_digit(g));
        lemma_base64_digit(a0 / 4, x0 / 4);
        lemma_base64_digit(d, e);
        lemma_base64_digit(f, g);
        lemma_base64_group(a0, a1, 0, x0, x1, 0);
        assert(a =~= b);
    } else {
        let (a1, x1, a2, x2) = (a[1] as int, b[1] as int, a[2] as int, b[2] as int);
        let (d, e) = ((a0 % 4) * 16 + a1 / 16, (x0 % 4) * 16 + x1 / 16);
        let (f, g) = ((a1 % 16) * 4 + a2 / 64, (x1 % 16) * 4 + x2 / 64);
        assert(t[1] == base64_digit(d) && t[1] == base64_digit(e));
        assert(t[2] == base64_digit(f) && t[2] == base64_digit(g));
        assert(t[3] == base64_digit(a2 % 64) && t[3] == base64_digit(x2 % 64));
        lemma_base64_digit(a0 / 4, x0 / 4);
        lemma_base64_digit(d, e);
        lemma_base64_digit(f, g);
        lemma_base64_digit(a2 % 64, x2 % 64);
        lemma_base64_group(a0, a1, a2, x0, x1, x2);
        let (ra, rb) = (a.subrange(3, a.len() as int), b.subrange(3, b.len() as int));
        assert(base64_text(ra) =~= t.subrange(4, t.len() as int));
        assert(base64_text(rb) =~= t.subrange(4, t.len() as int));
        law_base64_injective(ra, rb);
        assert forall|i: int| 0 <= i < a.len() implies a[i] == b[i] by {
            if i >= 3 {
                assert(a[i] == ra[i - 3] && b[i] == rb[i - 3]);
            }
        }
        assert(a =~= b);
    }
}

/// The most bytes whose Base64 text length fits in a `usize`.
pub open spec fn base64_encodable(len: nat) -> bool {
    len <= (usize::MAX / 4) * 3
}

/// Base64 text of some bytes, with padding.
///
/// Trusted: calls `Engine::encode` of `base64::engine::general_purpose::STANDARD`
/// (standard alphabet, `encode_padding` on), which writes `base64_text`.
/// `encode` panics where the text length would overflow a `usize`; `requires`
/// leaves those inputs out.
#[verifier::external_body]
fn encode_base64(data: &[u8]) -> (res: String)
    requires
        base64_encodable(data@.len()),
    ensures
        res@ == base64_text(data@),
{
    base64::engine::general_purpose::STANDARD.encode(data)
}

/// Bytes of a Base64 text.
///
/// Trusted: calls `Engine::decode` of `base64::engine::general_purpose::STANDARD`,
/// whose configuration (`decode_padding_mode` `RequireCanonical`,
/// `decode_allow_trailing_bits` off) accepts a text only in the canonical form
/// that the encoder writes: every character in the alphabet, `=` only as the
/// padding of the last group and exactly as much of it as makes a group of
/// four, and zero unused bits in the last digit. So it accepts exactly the
/// texts `base64_text(b)`, and answers `b`. The decoder's error is handed on
/// as its message, whose text is not stated.
#[verifier::external_body]
fn decode_base64(text: &str) -> (res: Result<Vec<u8>, String>)
    ensures
        match res {
            Ok(v) => base64_text(v@) == text@,
            Err(_) => forall|b: Seq<u8>| #[trigger] base64_text(b) != text@,
        },
{
    match base64::engine::general_purpose::STANDARD.decode(text) {
        Ok(v) => Ok(v),
        Err(e) => Err(e.to_string()),
    }
}

/// Raw image data.
#[derive(Debug, PartialEq, Eq)]
pub struct Blob(pub Vec<u8>);

impl View for Blob {
    type V = Seq<u8>;

    open spec fn view(&self) -> Seq<u8> {
        self.0@
    }
}

impl Blob {
    /// The bytes as Base64 text.
    pub fn as_base64(&self) -> (res: String)
        requires
            base64_encodable(self@.len()),
        ensures
            res@ == base64_text(self@),
    {
        encode_base64(self.0.as_slice())
    }

    /// The bytes that a Base64 text holds; the decoder's message where the
    /// text is not the Base64 text of any bytes.
    pub fn from_base64(text: &str) -> (res: Result<Blob, String>)
        ensures
            match res {
                Ok(b) => base64_text(b@) == text@,
                Err(_) => forall|b: Seq<u8>| #[trigger] base64_text(b) != text@,
            },
    {
        match decode_base64(text) {
            Ok(v) => Ok(Blob(v)),
            Err(e) => Err(e),
        }
    }

    /// Whether there are no bytes.
    pub fn is_empty(&self) -> (res: bool)
        ensures
            res == (self@.len() == 0),
    {
        self.0.len() == 0
    }
}

impl Clone for Blob {
    fn clone(&self) -> (res: Blob)
        ensures
            res@ == self@,
    {
        Blob(self.0.clone())
    }
}

impl Default for Blob {
    fn default() -> (res: Blob)
        ensures
            res@ == Seq::<u8>::empty(),
    {
        Blob(Vec::new())
    }
}

impl From<Vec<u8>> for Blob {
    fn from(vec: Vec<u8>) -> (res: Blob) {
        Blob(vec)
    }
}

impl vstd::std_specs::convert::FromSpecImpl<Vec<u8>> for Blob {
    open spec fn obeys_from_spec() -> bool {
        true
    }

    open spec fn from_spec(vec: Vec<u8>) -> Blob {
        Blob(vec)
    }
}

} // verus!

verus! {

/// The contents of a texture, as values.
pub struct TextureView {
    pub id: Seq<char>,
    pub skin_name: Seq<char>,
    pub texture_type: TextureType,
    pub image_data: Seq<u8>,
    pub owner_id: Option<Seq<char>>,
}

/// A texture: a named image of some type, and the user who uploaded it.
#[derive(Debug, PartialEq, Eq)]
pub struct Texture {
    pub id: String,
    pub skin_name: String,
    pub texture_type: TextureType,
    pub image_data: Blob,
    /// The id of the uploader; `None` for textures from before owners were kept.
    pub owner_id: Option<String>,
}

impl View for Texture {
    type V = TextureView;

    open spec fn view(&self) -> TextureView {
        TextureView {
            id: self.id@,
            skin_name: self.skin_name@,
            texture_type: self.texture_type,
            image_data: self.image_data@,
            owner_id: self.owner_id.deep_view(),
        }
    }
}

/// A copy of an optional text.
pub fn clone_optional_text(s: &Option<String>) -> (res: Option<String>)
    ensures
        res.deep_view() == s.deep_view(),
{
    match s {
        Some(t) => Some(t.clone()),
        None => None,
    }
}

impl Clone for Texture {
    fn clone(&self) -> (res: Texture)
        ensures
            res@ == self@,
    {
        Texture {
            id: self.id.clone(),
            skin_name: self.skin_name.clone(),
            texture_type: self.texture_type,
            image_data: self.image_data.clone(),
            owner_id: clone_optional_text(&self.owner_id),
        }
    }
}

impl Default for Texture {
    fn default() -> (res: Texture)
        ensures
            res@.id.len() == 0,
            res@.skin_name.len() == 0,
            res@.texture_type == TextureType::Skin,
            res@.image_data.len() == 0,
            res@.owner_id is None,
    {
        Texture {
            id: String::new(),
            skin_name: String::new(),
            texture_type: TextureType::Skin,
            image_data: Blob(Vec::new()),
            owner_id: None,
        }
    }
}

/// How many textures a user has uploaded, and how many the user's groups allow.
#[derive(Debug, Clone, Copy, PartialEq, Eq, Structural)]
pub struct TextureQuota {
    pub used: i64,
    pub limit: i64,
}

impl Default for TextureQuota {
    fn default() -> (res: TextureQuota)
        ensures
            res == (TextureQuota { used: 0, limit: 0 }),
    {
        TextureQuota { used: 0, limit: 0 }
    }
}

/// The textures of one type, in their order.
pub open spec fn textures_of_type(list: Seq<TextureView>, t: TextureType) -> Seq<TextureView> {
    list.filter(|v: TextureView| v.texture_type == t)
}

/// The textures of one type, in their order, as the texture list shows them.
pub fn filter_by_type(textures: &Vec<Texture>, t: TextureType) -> (res: Vec<Texture>)
    ensures
        res@.map_values(|x: Texture| x@) == textures_of_type(
            textures@.map_values(|x: Texture| x@),
            t,
        ),
{
    let mut res: Vec<Texture> = Vec::new();
    let ghost all = textures@.map_values(|x: Texture| x@);
    let mut i: usize = 0;
    while i < textures.len()
        invariant
            i <= textures.len(),
            all == textures@.map_values(|x: Texture| x@),
            res@.map_values(|x: Texture| x@) == textures_of_type(all.take(i as int), t),
        decreases textures.len() - i,
    {
        proof {
            reveal_with_fuel(Seq::filter, 1);
            assert(all.take(i + 1).drop_last() =~= all.take(i as int));
        }
        if textures[i].texture_type == t {
            let c = textures[i].clone();
            res.push(c);
            assert(res@.map_values(|x: Texture| x@) =~= textures_of_type(all.take(i as int), t).push(all[i as int]));
        }
        i = i + 1;
    }
    assert(all.take(textures.len() as int) =~= all);
    res
}

impl Texture {
    /// The same texture, with a fresh id where the id is empty.
    pub fn with_id(self) -> (res: Texture)
        ensures
            self.id@.len() > 0 ==> res@ == self@,
            self.id@.len() == 0 ==> is_uuid_v4_text(res@.id) && res@ == (TextureView { id: res@.id, ..self@ }),
    {
        let Texture { id, skin_name, texture_type, image_data, owner_id } = self;
        Texture { id: id_or_fresh(id), skin_name, texture_type, image_data, owner_id }
    }
}

} // verus!
