use vstd::prelude::*;

use crate::errors::KrustifyError;
use crate::notification::{image_source_of, ImageData};

verus! {

/// A hint value, in the types of the bus's type system that hints use.
#[derive(Debug)]
pub enum HintValue {
    Str(String),
    Bool(bool),
    U8(u8),
    I32(i32),
    Structure(Vec<HintValue>),
    Array(Vec<HintValue>),
    /// A value of any other type.
    Other,
}

/// One hint: a key and its value.
#[derive(Debug)]
pub struct Hint {
    pub key: String,
    pub value: HintValue,
}

/// The hints a notification request carries, once decoded.
#[derive(Debug)]
pub struct ParsedHints {
    /// The sender's desktop entry name, or empty.
    pub desktop_entry: String,
    pub image_data: Option<ImageData>,
    pub image_path: Option<String>,
}

/// An image as mathematical values: width, height, rowstride, alpha flag, bits per sample,
/// channels and bytes.
pub type ImageSpec = (i32, i32, i32, bool, i32, i32, Seq<u8>);

/// `i` is the first hint of `h` under `key`.
pub open spec fn is_first_key(h: Seq<Hint>, i: int, key: Seq<char>) -> bool {
    &&& 0 <= i < h.len()
    &&& h[i].key@ == key
    &&& forall|j: int| 0 <= j < i ==> (#[trigger] h[j]).key@ != key
}

/// The value of the first hint of `h` under `key`.
pub open spec fn hint_of(h: Seq<Hint>, key: Seq<char>) -> Option<HintValue> {
    if exists|i: int| is_first_key(h, i, key) {
        Some(h[choose|i: int| is_first_key(h, i, key)].value)
    } else {
        None
    }
}

/// A string hint: absent, or a string, else a type error.
pub open spec fn str_result(v: Option<HintValue>) -> Result<Option<Seq<char>>, KrustifyError> {
    match v {
        None => Ok(None),
        Some(HintValue::Str(s)) => Ok(Some(s@)),
        Some(_) => Err(KrustifyError::IncorrectType),
    }
}

/// The byte an array element holds.
pub open spec fn byte_of(v: HintValue) -> u8 {
    match v {
        HintValue::U8(b) => b,
        _ => 0,
    }
}

/// The image an image hint's value describes: a structure of width, height, rowstride,
/// alpha flag, bits per sample, channels and an array of bytes. Further fields are
/// ignored.
pub open spec fn image_value_result(v: HintValue) -> Result<ImageSpec, KrustifyError> {
    match v {
        HintValue::Structure(f) => {
            let f = f@;
            if f.len() < 7 {
                Err(KrustifyError::MissingImageField)
            } else {
                match (f[0], f[1], f[2], f[3], f[4], f[5], f[6]) {
                    (
                        HintValue::I32(w),
                        HintValue::I32(h),
                        HintValue::I32(rs),
                        HintValue::Bool(a),
                        HintValue::I32(bps),
                        HintValue::I32(ch),
                        HintValue::Array(bytes),
                    ) => if forall|i: int| 0 <= i < bytes@.len() ==> (#[trigger] bytes@[i]) is U8 {
                        Ok((w, h, rs, a, bps, ch, bytes@.map_values(|b: HintValue| byte_of(b))))
                    } else {
                        Err(KrustifyError::IncorrectType)
                    },
                    _ => Err(KrustifyError::IncorrectType),
                }
            }
        },
        _ => Err(KrustifyError::IncorrectType),
    }
}

/// The key of the raw image hint that counts: the first present of its four spellings.
pub open spec fn image_key(h: Seq<Hint>) -> Option<Seq<char>> {
    if hint_of(h, "image-data"@) is Some {
        Some("image-data"@)
    } else if hint_of(h, "image_data"@) is Some {
        Some("image_data"@)
    } else if hint_of(h, "icon-data"@) is Some {
        Some("icon-data"@)
    } else if hint_of(h, "icon_data"@) is Some {
        Some("icon_data"@)
    } else {
        None
    }
}

/// The raw image of the hints, if any.
pub open spec fn image_result(h: Seq<Hint>) -> Result<Option<ImageSpec>, KrustifyError> {
    match image_key(h) {
        None => Ok(None),
        Some(k) => match image_value_result(hint_of(h, k).unwrap()) {
            Ok(i) => Ok(Some(i)),
            Err(e) => Err(e),
        },
    }
}

/// The first failure in decoding the hints: desktop entry, then raw image, then image path.
pub open spec fn parse_error(h: Seq<Hint>) -> Option<KrustifyError> {
    if str_result(hint_of(h, "desktop-entry"@)) is Err {
        Some(str_result(hint_of(h, "desktop-entry"@))->Err_0)
    } else if image_result(h) is Err {
        Some(image_result(h)->Err_0)
    } else if str_result(hint_of(h, "image-path"@)) is Err {
        Some(str_result(hint_of(h, "image-path"@))->Err_0)
    } else {
        None
    }
}

/// An image as mathematical values.
pub open spec fn image_spec(d: ImageData) -> ImageSpec {
    (d.width, d.height, d.rowstride, d.has_alpha, d.bits_per_sample, d.channels, d.data@)
}

/// An optional string as an optional sequence of characters.
pub open spec fn opt_str(s: Option<String>) -> Option<Seq<char>> {
    match s {
        Some(x) => Some(x@),
        None => None,
    }
}

/// The decoded hints, as mathematical values.
pub open spec fn parsed_matches(p: ParsedHints, h: Seq<Hint>) -> bool {
    &&& p.desktop_entry@ == match str_result(hint_of(h, "desktop-entry"@))->Ok_0 {
        Some(s) => s,
        None => Seq::<char>::empty(),
    }
    &&& match p.image_data {
        Some(d) => image_result(h)->Ok_0 == Some(image_spec(d)),
        None => image_result(h)->Ok_0 is None,
    }
    &&& opt_str(p.image_path) == str_result(hint_of(h, "image-path"@))->Ok_0
}

/// The value of the first hint under `key`.
pub fn find_hint<'a>(hints: &'a Vec<Hint>, key: &str) -> (r: Option<&'a HintValue>)
    ensures
        match r {
            Some(v) => hint_of(hints@, key@) == Some(*v),
            None => hint_of(hints@, key@) is None,
        },
{
    let k = key.to_string();
    let mut j: usize = 0;
    while j < hints.len()
        invariant
            k@ == key@,
            j <= hints.len(),
            forall|q: int| 0 <= q < j ==> (#[trigger] hints@[q]).key@ != key@,
        decreases hints.len() - j,
    {
        if hints[j].key.eq(&k) {
            proof {
                assert(is_first_key(hints@, j as int, key@));
                let i = choose|i: int| is_first_key(hints@, i, key@);
                assert(i == j) by {
                    if i < j {
                    } else if j < i {
                        assert(hints@[j as int].key@ != key@);
                    }
                }
            }
            return Some(&hints[j].value);
        }
        j += 1;
    }
    None
}

/// The value behind an optional reference.
pub open spec fn owned(v: Option<&HintValue>) -> Option<HintValue> {
    match v {
        Some(x) => Some(*x),
        None => None,
    }
}

/// Decodes a string hint.
fn str_hint(v: Option<&HintValue>) -> (r: Result<Option<String>, KrustifyError>)
    ensures
        match r {
            Ok(s) => str_result(owned(v)) == Ok::<Option<Seq<char>>, KrustifyError>(opt_str(s)),
            Err(e) => str_result(owned(v)) == Err::<Option<Seq<char>>, KrustifyError>(e),
        },
{
    match v {
        None => Ok(None),
        Some(HintValue::Str(s)) => Ok(Some(s.clone())),
        Some(_) => Err(KrustifyError::IncorrectType),
    }
}

/// Decodes the value of a raw image hint.
pub fn decode_image(v: &HintValue) -> (r: Result<ImageData, KrustifyError>)
    ensures
        match r {
            Ok(d) => image_value_result(*v) == Ok::<ImageSpec, KrustifyError>(image_spec(d)),
            Err(e) => image_value_result(*v) == Err::<ImageSpec, KrustifyError>(e),
        },
{
    let f = match v {
        HintValue::Structure(f) => f,
        _ => {
            return Err(KrustifyError::IncorrectType);
        },
    };
    if f.len() < 7 {
        return Err(KrustifyError::MissingImageField);
    }
    let (width, height, rowstride, has_alpha, bits_per_sample, channels, bytes) = match (
        &f[0],
        &f[1],
        &f[2],
        &f[3],
        &f[4],
        &f[5],
        &f[6],
    ) {
        (
            HintValue::I32(w),
            HintValue::I32(h),
            HintValue::I32(rs),
            HintValue::Bool(a),
            HintValue::I32(bps),
            HintValue::I32(ch),
            HintValue::Array(bytes),
        ) => (*w, *h, *rs, *a, *bps, *ch, bytes),
        _ => {
            return Err(KrustifyError::IncorrectType);
        },
    };
    let mut data: Vec<u8> = Vec::new();
    let mut j: usize = 0;
    while j < bytes.len()
        invariant
            *v == HintValue::Structure(*f),
            f@.len() >= 7,
            f@[0] == HintValue::I32(width),
            f@[1] == HintValue::I32(height),
            f@[2] == HintValue::I32(rowstride),
            f@[3] == HintValue::Bool(has_alpha),
            f@[4] == HintValue::I32(bits_per_sample),
            f@[5] == HintValue::I32(channels),
            f@[6] == HintValue::Array(*bytes),
            j <= bytes@.len(),
            forall|q: int| 0 <= q < j ==> (#[trigger] bytes@[q]) is U8,
            data@ == bytes@.take(j as int).map_values(|b: HintValue| byte_of(b)),
        decreases bytes.len() - j,
    {
        match &bytes[j] {
            HintValue::U8(b) => {
                data.push(*b);
            },
            _ => {
                proof {
                    assert(!(bytes@[j as int] is U8));
                }
                return Err(KrustifyError::IncorrectType);
            },
        }
        proof {
            assert(bytes@.take(j + 1).map_values(|b: HintValue| byte_of(b)) =~= bytes@.take(
                j as int,
            ).map_values(|b: HintValue| byte_of(b)).push(byte_of(bytes@[j as int])));
        }
        j += 1;
    }
    proof {
        assert(bytes@.take(bytes@.len() as int) == bytes@);
    }
    Ok(ImageData::new(width, height, rowstride, has_alpha, bits_per_sample, channels, data))
}

/// Decodes the hints of a notification request: the desktop entry, the raw image under
/// the first present of its four spellings, and the image path. A value of the wrong type
/// fails the whole request.
pub fn parse_hints(hints: &Vec<Hint>) -> (r: Result<ParsedHints, KrustifyError>)
    ensures
        match r {
            Ok(p) => parse_error(hints@) is None && parsed_matches(p, hints@),
            Err(e) => parse_error(hints@) == Some(e),
        },
{
    proof {
        reveal_strlit("desktop-entry");
        reveal_strlit("image-data");
        reveal_strlit("image_data");
        reveal_strlit("icon-data");
        reveal_strlit("icon_data");
        reveal_strlit("image-path");
    }
    let desktop_entry = match str_hint(find_hint(hints, "desktop-entry")) {
        Ok(Some(s)) => s,
        Ok(None) => String::new(),
        Err(e) => {
            return Err(e);
        },
    };
    let image_value = match find_hint(hints, "image-data") {
        Some(v) => Some(v),
        None => match find_hint(hints, "image_data") {
            Some(v) => Some(v),
            None => match find_hint(hints, "icon-data") {
                Some(v) => Some(v),
                None => find_hint(hints, "icon_data"),
            },
        },
    };
    let image_data = match image_value {
        Some(v) => match decode_image(v) {
            Ok(d) => Some(d),
            Err(e) => {
                return Err(e);
            },
        },
        None => None,
    };
    let image_path = match str_hint(find_hint(hints, "image-path")) {
        Ok(p) => p,
        Err(e) => {
            return Err(e);
        },
    };
    Ok(ParsedHints { desktop_entry, image_data, image_path })
}

/// Raw image data wins over an image path: when the hints carry both and decode, the
/// pop-up shows the raw image.
pub proof fn lemma_raw_image_wins(h: Seq<Hint>, p: ParsedHints)
    requires
        hint_of(h, "image-data"@) is Some,
        hint_of(h, "image-path"@) is Some,
        parse_error(h) is None,
        parsed_matches(p, h),
    ensures
        p.image_data is Some,
        p.image_path is Some,
        image_source_of(p.image_data, p.image_path) is Raw,
{
}

/// A key of `h` under which no hint stands.
pub proof fn lemma_absent_key(h: Seq<Hint>, key: Seq<char>)
    requires
        forall|i: int| 0 <= i < h.len() ==> (#[trigger] h[i]).key@ != key,
    ensures
        hint_of(h, key) is None,
{
}

/// Hints that carry no desktop entry and no image decode without error to an empty
/// desktop entry and no image.
pub proof fn lemma_plain_hints(h: Seq<Hint>, p: ParsedHints)
    requires
        forall|i: int|
            0 <= i < h.len() ==> {
                let k = (#[trigger] h[i]).key@;
                &&& k != "desktop-entry"@
                &&& k != "image-data"@
                &&& k != "image_data"@
                &&& k != "icon-data"@
                &&& k != "icon_data"@
                &&& k != "image-path"@
            },
    ensures
        parse_error(h) is None,
        parsed_matches(p, h) ==> p.desktop_entry@.len() == 0 && p.image_data is None
            && p.image_path is None,
{
    lemma_absent_key(h, "desktop-entry"@);
    lemma_absent_key(h, "image-data"@);
    lemma_absent_key(h, "image_data"@);
    lemma_absent_key(h, "icon-data"@);
    lemma_absent_key(h, "icon_data"@);
    lemma_absent_key(h, "image-path"@);
}

} // verus!
