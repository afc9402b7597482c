//! The player's head as a profile icon: which skin it is cut from, how the
//! cached icon is named and reused, and how the icon is handed to the
//! window. Failures are HTTP status codes, as the window receives them.
//!
//! The caller performs the requests and keeps the cache files; it asks this
//! module at each step.
use vstd::prelude::*;

use crate::text::{
    ascii_lower, chars_of, concat2, is_ascii_alphanumeric, is_ascii_alphanumeric_char, str_eq,
    str_to_string, string_of, to_ascii_lowercase,
};
use crate::config::{join_path, path_join};
use vstd::utf8::encode_utf8;

verus! {

// ---------------------------------------------------------------------------
// Names
// ---------------------------------------------------------------------------
/// A user name as a file name: ASCII letters and digits in lower case,
/// anything else as `_`.
pub open spec fn sanitized(username: Seq<char>) -> Seq<char> {
    Seq::new(
        username.len(),
        |i: int|
            if is_ascii_alphanumeric_char(username[i]) {
                ascii_lower(username[i])
            } else {
                '_'
            },
    )
}

pub fn sanitize_username(username: &str) -> (r: String)
    ensures
        r@ == sanitized(username@),
{
    let chars = chars_of(username);
    let mut out: Vec<char> = Vec::new();
    let mut i: usize = 0;
    while i < chars.len()
        invariant
            i <= chars.len(),
            chars@ == username@,
            out@ == sanitized(username@).take(i as int),
        decreases chars.len() - i,
    {
        let c = chars[i];
        if is_ascii_alphanumeric(c) {
            out.push(to_ascii_lowercase(c));
        } else {
            out.push('_');
        }
        assert(out@ =~= sanitized(username@).take(i + 1));
        i = i + 1;
    }
    assert(out@ =~= sanitized(username@));
    string_of(&out)
}

/// The cached icon and its metadata file for `username` in `cache_dir`.
pub fn cache_paths(cache_dir: &str, username: &str) -> (r: (String, String))
    ensures
        r.0@ == path_join(cache_dir@, sanitized(username@) + ".png"@),
        r.1@ == path_join(cache_dir@, sanitized(username@) + ".json"@),
{
    let safe = sanitize_username(username);
    let icon = concat2(safe.as_str(), ".png");
    let meta = concat2(safe.as_str(), ".json");
    (join_path(cache_dir, icon.as_str()), join_path(cache_dir, meta.as_str()))
}

/// The Minecraft services lookup of a player by name.
pub fn profile_lookup_url(username: &str) -> (r: String)
    ensures
        r@ == "https://api.minecraftservices.com/minecraft/profile/lookup/name/"@ + username@,
{
    concat2("https://api.minecraftservices.com/minecraft/profile/lookup/name/", username)
}

/// The session server's profile of a player by id.
pub fn session_profile_url(id: &str) -> (r: String)
    ensures
        r@ == "https://sessionserver.mojang.com/session/minecraft/profile/"@ + id@,
{
    concat2("https://sessionserver.mojang.com/session/minecraft/profile/", id)
}

// ---------------------------------------------------------------------------
// Base64
// ---------------------------------------------------------------------------
/// The symbol of a six-bit value in the standard Base64 alphabet.
pub open spec fn b64_symbol(n: int) -> char {
    if n < 26 {
        (65 + n) as char
    } else if n < 52 {
        (97 + n - 26) as char
    } else if n < 62 {
        (48 + n - 52) as char
    } else if n == 62 {
        '+'
    } else {
        '/'
    }
}

/// Standard Base64 with `=` padding (RFC 4648): each three bytes as four
/// symbols, a last one or two bytes padded to four.
pub open spec fn base64_encode(b: Seq<u8>) -> Seq<char>
    decreases b.len(),
{
    if b.len() == 0 {
        Seq::empty()
    } else if b.len() == 1 {
        seq![b64_symbol(b[0] as int / 4), b64_symbol((b[0] % 4) * 16), '=', '=']
    } else if b.len() == 2 {
        seq![
            b64_symbol(b[0] as int / 4),
            b64_symbol((b[0] % 4) * 16 + b[1] / 16),
            b64_symbol((b[1] % 16) * 4),
            '=',
        ]
    } else {
        seq![
            b64_symbol(b[0] as int / 4),
            b64_symbol((b[0] % 4) * 16 + b[1] / 16),
            b64_symbol((b[1] % 16) * 4 + b[2] / 64),
            b64_symbol(b[2] as int % 64),
        ] + base64_encode(b.skip(3))
    }
}

/// `STANDARD.encode` of the `base64` crate: the standard alphabet with
/// padding (the `PAD` configuration).
#[verifier::external_body]
fn base64_encode_bytes(data: &[u8]) -> (r: String)
    ensures
        r@ == base64_encode(data@),
{
    base64::Engine::encode(&base64::engine::general_purpose::STANDARD, data)
}

#[verifier::external_type_specification]
#[verifier::external_body]
pub struct ExDecodeError(base64::DecodeError);

/// `STANDARD.decode` of the `base64` crate. Its `PAD` configuration asks
/// for canonical padding and refuses trailing bits, so the text decodes
/// exactly when it is the encoding of some bytes, and then to those bytes.
#[verifier::external_body]
fn base64_decode_bytes(input: &[u8]) -> (r: Result<Vec<u8>, base64::DecodeError>)
    ensures
        r matches Ok(d) ==> encode_utf8(base64_encode(d@)) == input@,
        (exists|d: Seq<u8>| encode_utf8(base64_encode(d)) == input@) ==> r is Ok,
{
    base64::Engine::decode(&base64::engine::general_purpose::STANDARD, input)
}

/// An icon as a data URL for the window.
pub fn png_to_data_url(png_bytes: &[u8]) -> (r: String)
    ensures
        r@ == "data:image/png;base64,"@ + base64_encode(png_bytes@),
{
    let encoded = base64_encode_bytes(png_bytes);
    concat2("data:image/png;base64,", encoded.as_str())
}

// ---------------------------------------------------------------------------
// The skin
// ---------------------------------------------------------------------------
/// A response that is not a success ends the lookup with its status.
pub fn check_status(status: u16) -> (r: Result<(), u16>)
    ensures
        200 <= status <= 299 ==> r is Ok,
        !(200 <= status <= 299) ==> r == Err::<(), u16>(status),
{
    if 200 <= status && status <= 299 {
        Ok(())
    } else {
        Err(status)
    }
}

/// The value of the first profile property named `textures`.
pub open spec fn textures_index(props: Seq<(String, String)>) -> int
    decreases props.len(),
{
    if props.len() == 0 {
        0
    } else if props[0].0@ == "textures"@ {
        0
    } else {
        1 + textures_index(props.drop_first())
    }
}

pub proof fn lemma_textures_index(props: Seq<(String, String)>)
    ensures
        0 <= textures_index(props) <= props.len(),
        textures_index(props) < props.len() ==> props[textures_index(props)].0@ == "textures"@,
        forall|k: int| 0 <= k < textures_index(props) ==> props[k].0@ != "textures"@,
    decreases props.len(),
{
    if props.len() > 0 && props[0].0@ != "textures"@ {
        lemma_textures_index(props.drop_first());
        assert forall|k: int| 0 <= k < textures_index(props) implies props[k].0@ != "textures"@ by {
            if k > 0 {
                assert(props[k] == props.drop_first()[k - 1]);
            }
        }
    }
}

/// The textures property of a profile (name and value pairs); a profile
/// without one has no skin (404).
pub fn textures_property(properties: &Vec<(String, String)>) -> (r: Result<String, u16>)
    ensures
        ({
            let k = textures_index(properties@);
            &&& k < properties@.len() ==> (r matches Ok(v) && v@ == properties@[k].1@)
            &&& k == properties@.len() ==> r == Err::<String, u16>(404)
        }),
{
    proof {
        lemma_textures_index(properties@);
    }
    let mut i: usize = 0;
    assert(properties@.skip(0) =~= properties@);
    while i < properties.len()
        invariant
            i <= properties.len(),
            textures_index(properties@) == i + textures_index(properties@.skip(i as int)),
        decreases properties.len() - i,
    {
        assert(properties@.skip(i as int)[0] == properties@[i as int]);
        if str_eq(properties[i].0.as_str(), "textures") {
            return Ok(properties[i].1.clone());
        }
        assert(properties@.skip(i as int).drop_first() =~= properties@.skip(i + 1));
        i = i + 1;
    }
    Err(404)
}

/// The bytes of the textures property, which is Base64; text that is not
/// is an internal error (500).
pub fn decode_textures(value: &str) -> (r: Result<Vec<u8>, u16>)
    ensures
        r matches Ok(d) ==> encode_utf8(base64_encode(d@)) == encode_utf8(value@),
        (exists|d: Seq<u8>| encode_utf8(base64_encode(d)) == encode_utf8(value@)) ==> r is Ok,
        r is Err ==> r == Err::<Vec<u8>, u16>(500),
{
    match base64_decode_bytes(value.as_bytes()) {
        Ok(d) => Ok(d),
        Err(_) => Err(500),
    }
}

/// The skin texture's URL; textures without a skin are not found (404).
pub fn skin_url(skin: Option<String>) -> (r: Result<String, u16>)
    ensures
        match skin {
            Some(u) => r == Ok::<String, u16>(u),
            None => r == Err::<String, u16>(404),
        },
{
    match skin {
        Some(u) => Ok(u),
        None => Err(404),
    }
}

// ---------------------------------------------------------------------------
// The cache
// ---------------------------------------------------------------------------
/// What is kept beside a cached icon: the skin's entity tag and URL.
#[derive(Debug)]
pub struct IconCacheMeta {
    pub etag: Option<String>,
    pub skin_url: Option<String>,
}

impl Default for IconCacheMeta {
    fn default() -> (m: Self)
        ensures
            m.etag is None,
            m.skin_url is None,
    {
        IconCacheMeta { etag: None, skin_url: None }
    }
}

/// The entity tag to revalidate with: the cached one, where it belongs to
/// the skin about to be fetched.
pub fn revalidation_etag(meta: &IconCacheMeta, skin_url: &str) -> (r: Option<String>)
    ensures
        match (meta.etag, meta.skin_url) {
            (Some(e), Some(u)) => if u@ == skin_url@ {
                r matches Some(x) && x@ == e@
            } else {
                r is None
            },
            _ => r is None,
        },
{
    match (&meta.etag, &meta.skin_url) {
        (Some(e), Some(u)) => if str_eq(u.as_str(), skin_url) {
            Some(e.clone())
        } else {
            None
        },
        _ => None,
    }
}

/// What follows a skin response.
#[derive(Debug)]
pub enum SkinStep {
    /// The skin did not change and the icon is cached: reuse it.
    UseCached,
    /// The skin did not change but no icon is cached: fetch it anew.
    FetchAgain,
    /// Go on with this response.
    Continue,
}

pub fn skin_response_step(status: u16, has_cached_icon: bool) -> (r: SkinStep)
    ensures
        status == 304 && has_cached_icon ==> r is UseCached,
        status == 304 && !has_cached_icon ==> r is FetchAgain,
        status != 304 ==> r is Continue,
{
    if status == 304 {
        if has_cached_icon {
            SkinStep::UseCached
        } else {
            SkinStep::FetchAgain
        }
    } else {
        SkinStep::Continue
    }
}

// ---------------------------------------------------------------------------
// The icon
// ---------------------------------------------------------------------------
/// An RGBA image as plain values: its size and its pixels, four bytes
/// (red, green, blue, alpha) per pixel, row by row from the top left.
#[derive(Debug)]
pub struct RgbaPixels {
    pub width: u32,
    pub height: u32,
    pub pixels: Vec<u8>,
}

impl RgbaPixels {
    /// The pixels fill the image exactly.
    pub open spec fn wf(&self) -> bool {
        self.pixels@.len() == 4 * self.width * self.height
    }
}

pub open spec fn min_u32(a: u32, b: u32) -> u32 {
    if a <= b {
        a
    } else {
        b
    }
}

/// The rectangle that `imageops::crop_imm` keeps of a `w` by `h` image:
/// the corner moved into the image, the size cut to it.
pub open spec fn crop_bounds(w: u32, h: u32, x: u32, y: u32, cw: u32, ch: u32) -> (u32, u32, u32, u32) {
    let x1 = min_u32(x, w);
    let y1 = min_u32(y, h);
    (x1, y1, min_u32(cw, (w - x1) as u32), min_u32(ch, (h - y1) as u32))
}

/// Row `r` of the crop at (`x`, `y`), `cw` pixels wide, of an image `w`
/// pixels wide.
pub open spec fn crop_row(w: u32, px: Seq<u8>, x: u32, y: u32, cw: u32, r: int) -> Seq<u8> {
    let start = 4 * ((y + r) * w + x);
    px.subrange(start, start + 4 * cw)
}

/// The first `n` rows of a crop, one after the other.
pub open spec fn crop_rows(w: u32, px: Seq<u8>, x: u32, y: u32, cw: u32, n: nat) -> Seq<u8>
    decreases n,
{
    if n == 0 {
        Seq::empty()
    } else {
        crop_rows(w, px, x, y, cw, (n - 1) as nat) + crop_row(w, px, x, y, cw, n - 1)
    }
}

/// What `crop_imm(image, x, y, cw, ch).to_image()` gives of the image
/// (`w`, `h`, `px`): its width, its height and its pixels.
pub open spec fn crop_view(w: u32, h: u32, px: Seq<u8>, x: u32, y: u32, cw: u32, ch: u32) -> (
    u32,
    u32,
    Seq<u8>,
) {
    let b = crop_bounds(w, h, x, y, cw, ch);
    (b.2, b.3, crop_rows(w, px, b.0, b.1, b.2, b.3 as nat))
}

proof fn lemma_row_in_image(w: int, h: int, x1: int, cw1: int, row: int)
    by (nonlinear_arith)
    requires
        0 <= row < h,
        0 <= x1,
        0 <= cw1,
        x1 + cw1 <= w,
    ensures
        0 <= row * w,
        row * w + x1 + cw1 <= h * w,
        4 * (row * w + x1 + cw1) <= 4 * w * h,
{
}

/// Cuts the rectangle at (`x`, `y`) of size `cw` by `ch` out of `img`, as
/// `imageops::crop_imm` followed by `to_image` does: the rectangle is first
/// moved and cut to fit inside the image.
pub fn crop_pixels(img: &RgbaPixels, x: u32, y: u32, cw: u32, ch: u32) -> (r: RgbaPixels)
    requires
        img.wf(),
    ensures
        r.wf(),
        (r.width, r.height, r.pixels@) == crop_view(img.width, img.height, img.pixels@, x, y, cw, ch),
{
    let x1 = if x <= img.width { x } else { img.width };
    let y1 = if y <= img.height { y } else { img.height };
    let cw1 = if cw <= img.width - x1 { cw } else { img.width - x1 };
    let ch1 = if ch <= img.height - y1 { ch } else { img.height - y1 };
    let w = img.width as usize;
    let ghost px = img.pixels@;
    let n: usize = img.pixels.len();
    let mut out: Vec<u8> = Vec::new();
    let mut row: u32 = 0;
    while row < ch1
        invariant
            img.wf(),
            px == img.pixels@,
            w == img.width,
            n == px.len(),
            x1 + cw1 <= img.width,
            y1 + ch1 <= img.height,
            row <= ch1,
            out@ == crop_rows(img.width, px, x1, y1, cw1, row as nat),
            out@.len() == 4 * cw1 * row,
        decreases ch1 - row,
    {
        proof {
            lemma_row_in_image(img.width as int, img.height as int, x1 as int, cw1 as int, (y1 + row) as int);
            assert(4 * img.width * img.height == n);
        }
        let start: usize = 4 * ((y1 + row) as usize * w + x1 as usize);
        let end: usize = start + 4 * (cw1 as usize);
        let ghost before = out@;
        let mut k: usize = start;
        while k < end
            invariant
                img.wf(),
                px == img.pixels@,
                start <= k <= end,
                end <= px.len(),
                out@ == before + px.subrange(start as int, k as int),
            decreases end - k,
        {
            out.push(img.pixels[k]);
            assert(out@ =~= before + px.subrange(start as int, k + 1));
            k = k + 1;
        }
        assert(px.subrange(start as int, end as int) == crop_row(img.width, px, x1, y1, cw1, row as int));
        assert(4 * cw1 * (row + 1) == 4 * cw1 * row + 4 * cw1) by (nonlinear_arith);
        row = row + 1;
    }
    RgbaPixels { width: cw1, height: ch1, pixels: out }
}

#[verifier::external_type_specification]
#[verifier::external_body]
pub struct ExImageError(image::ImageError);

/// What `image::load_from_memory` decodes from these bytes (the format
/// guessed from their first bytes), read pixel by pixel as RGBA: its width,
/// its height and its pixels; `None` where it refuses them.
pub uninterp spec fn decoded_rgba(bytes: Seq<u8>) -> Option<(u32, u32, Seq<u8>)>;

/// `image::load_from_memory`, its pixels read through `get_pixel` as RGBA
/// (a crop of the whole image, as the icon's crops read them). The buffer
/// `to_image` fills is made by `ImageBuffer::new`, four bytes per pixel.
#[verifier::external_body]
fn load_image(bytes: &[u8]) -> (r: Result<RgbaPixels, image::ImageError>)
    ensures
        match r {
            Ok(img) => img.wf() && decoded_rgba(bytes@) == Some((img.width, img.height, img.pixels@)),
            Err(_) => decoded_rgba(bytes@) is None,
        },
{
    let img = image::load_from_memory(bytes)?;
    let rgba = image::imageops::crop_imm(&img, 0, 0, img.width(), img.height()).to_image();
    Ok(RgbaPixels { width: rgba.width(), height: rgba.height(), pixels: rgba.into_raw() })
}

/// The pixels `imageops::overlay(bottom, top, 0, 0)` leaves in `bottom`,
/// each `top` pixel blended over the one below it.
pub uninterp spec fn overlay_result(
    bottom_w: u32,
    bottom_h: u32,
    bottom: Seq<u8>,
    top_w: u32,
    top_h: u32,
    top: Seq<u8>,
) -> Seq<u8>;

/// `imageops::overlay` at the top left corner on RGBA buffers; it changes
/// the pixels of `bottom` in place and keeps its size.
#[verifier::external_body]
fn overlay_at_origin(bottom: &mut RgbaPixels, top: &RgbaPixels)
    requires
        old(bottom).wf(),
        top.wf(),
    ensures
        final(bottom).width == old(bottom).width,
        final(bottom).height == old(bottom).height,
        final(bottom).pixels@ == overlay_result(
            old(bottom).width,
            old(bottom).height,
            old(bottom).pixels@,
            top.width,
            top.height,
            top.pixels@,
        ),
        final(bottom).wf(),
{
    let pixels = std::mem::take(&mut bottom.pixels);
    let mut lower = image::RgbaImage::from_raw(bottom.width, bottom.height, pixels).expect("pixels fill the image");
    let upper = image::RgbaImage::from_raw(top.width, top.height, top.pixels.clone()).expect("pixels fill the image");
    image::imageops::overlay(&mut lower, &upper, 0, 0);
    bottom.pixels = lower.into_raw();
}

/// The PNG file `DynamicImage::write_to` writes of an RGBA image.
pub uninterp spec fn png_bytes(w: u32, h: u32, pixels: Seq<u8>) -> Seq<u8>;

/// `DynamicImage::write_to` with the PNG format, into memory, of an RGBA
/// image. The `png` encoder refuses an image of zero width or height
/// (`Writer::init`); writing into a `Vec` cannot fail, so a small image
/// with pixels is encoded. Whether a large image is encoded is not stated
/// here.
#[verifier::external_body]
fn encode_png(img: &RgbaPixels) -> (r: Result<Vec<u8>, image::ImageError>)
    requires
        img.wf(),
    ensures
        r matches Ok(b) ==> b@ == png_bytes(img.width, img.height, img.pixels@),
        0 < img.width && 0 < img.height && img.width * img.height <= 65536 ==> r is Ok,
{
    let buffer = image::RgbaImage::from_raw(img.width, img.height, img.pixels.clone()).expect("pixels fill the image");
    let mut bytes: Vec<u8> = Vec::new();
    image::DynamicImage::ImageRgba8(buffer).write_to(&mut std::io::Cursor::new(&mut bytes), image::ImageFormat::Png)?;
    Ok(bytes)
}

/// The head icon of a decoded skin: the 8x8 face at (8, 8) with the hat
/// layer at (40, 8) laid over it, as PNG.
pub open spec fn head_icon_png(w: u32, h: u32, px: Seq<u8>) -> Seq<u8> {
    let head = crop_view(w, h, px, 8, 8, 8, 8);
    let hat = crop_view(w, h, px, 40, 8, 8, 8);
    png_bytes(head.0, head.1, overlay_result(head.0, head.1, head.2, hat.0, hat.1, hat.2))
}

/// Whether the face of a decoded skin has pixels: the skin reaches past
/// (8, 8).
pub open spec fn has_face(w: u32, h: u32, px: Seq<u8>) -> bool {
    crop_view(w, h, px, 8, 8, 8, 8).0 > 0 && crop_view(w, h, px, 8, 8, 8, 8).1 > 0
}

/// The icon of a skin. A skin that is not an image is refused with 415; a
/// decoded skin gives its head icon, or 500 where the face has no pixels
/// to encode.
pub fn process_icon_from_skin(skin: &[u8]) -> (r: Result<Vec<u8>, u16>)
    ensures
        decoded_rgba(skin@) is None <==> r == Err::<Vec<u8>, u16>(415),
        decoded_rgba(skin@) matches Some(d) ==> (r == Err::<Vec<u8>, u16>(500) || (r matches Ok(b)
            && b@ == head_icon_png(d.0, d.1, d.2))),
        decoded_rgba(skin@) matches Some(d) ==> (has_face(d.0, d.1, d.2) ==> (r matches Ok(b) && b@
            == head_icon_png(d.0, d.1, d.2))),
{
    let image = match load_image(skin) {
        Ok(i) => i,
        Err(_) => return Err(415),
    };
    let mut head = crop_pixels(&image, 8, 8, 8, 8);
    let hat = crop_pixels(&image, 40, 8, 8, 8);
    overlay_at_origin(&mut head, &hat);
    assert(head.width <= 8 && head.height <= 8);
    assert(head.width * head.height <= 64) by (nonlinear_arith)
        requires
            head.width <= 8,
            head.height <= 8,
    ;
    match encode_png(&head) {
        Ok(bytes) => Ok(bytes),
        Err(_) => Err(500),
    }
}

/// A cached icon's file name holds only lower-case ASCII letters, digits
/// and `_`, one for each character of the user name.
pub proof fn law_sanitized_names_are_plain(username: Seq<char>)
    ensures
        sanitized(username).len() == username.len(),
        forall|i: int|
            0 <= i < username.len() ==> ({
                let c = #[trigger] sanitized(username)[i];
                ('a' <= c <= 'z') || ('0' <= c <= '9') || c == '_'
            }),
{
}

} // verus!
