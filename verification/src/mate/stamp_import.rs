//! Turning a square pixel-art image into a stamp: a palette of its opaque colours
//! plus one palette index per pixel.
//!
//! Transparent pixels become "outside"; every opaque colour becomes a palette slot
//! that the runtime recolours at draw time.

use vstd::prelude::*;
use crate::strs::{decimal, is_path_segment, is_path_segment_exec, push_decimal};

verus! {

pub const MIN_STAMP_PX: u32 = 1;
/// Hard safety cap (memory / distance-transform cost), not a design resolution limit.
pub const ABSOLUTE_MAX_STAMP_PX: u32 = 256;
/// Pixel-art stamps use a small number of design colours.
pub const MAX_STAMP_PALETTE: usize = 16;
/// Pixels whose alpha is below one half are outside the stamp; for 8-bit alpha
/// that is every value below this one.
pub const ALPHA_INSIDE_MIN: u8 = 128;

/// A stamp asset as written to disk.
#[derive(Debug, Clone)]
pub struct StampJson {
    pub format: &'static str,
    pub version: u32,
    pub id: String,
    pub size: u32,
    /// Distinct opaque colours, in discovery order (row-major scan).
    pub palette: Vec<[u8; 3]>,
    /// One entry per pixel: 0 = outside, n = `palette[n - 1]`.
    pub pixels: Vec<u8>,
}

/// Why an image was refused as a stamp.
#[derive(Debug, Clone, Copy, PartialEq, Eq)]
pub enum StampImportError {
    InvalidId,
    NotSquare { width: u32, height: u32 },
    TooSmall { width: u32 },
    TooLarge { width: u32 },
    TooManyColors,
    /// The bytes are not an image this build can decode.
    Undecodable,
}

impl StampImportError {
    pub open spec fn spec_message(self) -> Seq<char> {
        match self {
            StampImportError::InvalidId => "stamp id must be non-empty and path-safe"@,
            StampImportError::NotSquare { width, height } => "stamp png must be square (got "@ + decimal(
                width as nat,
            ) + "×"@ + decimal(height as nat) + ")"@,
            StampImportError::TooSmall { width } => "stamp png must be at least 1×1px (got "@ + decimal(
                width as nat,
            ) + ")"@,
            StampImportError::TooLarge { width } => "stamp png exceeds safety limit 256×256px (got "@
                + decimal(width as nat) + ")"@,
            StampImportError::TooManyColors =>
                "stamp png has more than 16 opaque colors; use crisp pixel art with a small palette"@,
            StampImportError::Undecodable => "stamp png could not be decoded"@,
        }
    }

    /// The human-readable error text.
    pub fn message(&self) -> (r: String)
        ensures
            r@ == self.spec_message(),
    {
        match self {
            StampImportError::InvalidId => String::from_str("stamp id must be non-empty and path-safe"),
            StampImportError::NotSquare { width, height } => {
                let mut s = String::from_str("stamp png must be square (got ");
                push_decimal(&mut s, *width as u64);
                s.append("×");
                push_decimal(&mut s, *height as u64);
                s.append(")");
                s
            },
            StampImportError::TooSmall { width } => {
                let mut s = String::from_str("stamp png must be at least 1×1px (got ");
                push_decimal(&mut s, *width as u64);
                s.append(")");
                s
            },
            StampImportError::TooLarge { width } => {
                let mut s = String::from_str("stamp png exceeds safety limit 256×256px (got ");
                push_decimal(&mut s, *width as u64);
                s.append(")");
                s
            },
            StampImportError::TooManyColors => String::from_str(
                "stamp png has more than 16 opaque colors; use crisp pixel art with a small palette",
            ),
            StampImportError::Undecodable => String::from_str("stamp png could not be decoded"),
        }
    }
}

/// Colour of pixel `i` of an RGBA byte buffer.
pub open spec fn rgb_at(rgba: Seq<u8>, i: int) -> [u8; 3] {
    [rgba[4 * i], rgba[4 * i + 1], rgba[4 * i + 2]]
}

/// Alpha of pixel `i` of an RGBA byte buffer.
pub open spec fn alpha_at(rgba: Seq<u8>, i: int) -> u8 {
    rgba[4 * i + 3]
}

/// Index of the first occurrence of `c` in `pal` (`pal.len()` when absent).
pub open spec fn pal_pos(pal: Seq<[u8; 3]>, c: [u8; 3]) -> int
    decreases pal.len(),
{
    if pal.len() == 0 {
        0
    } else if pal[0] == c {
        0
    } else {
        1 + pal_pos(pal.drop_first(), c)
    }
}

/// Palette and pixel indices after a row-major scan of the first `n` pixels, or
/// `None` once a seventeenth opaque colour appears.
pub open spec fn stamp_scan(rgba: Seq<u8>, n: nat) -> Option<(Seq<[u8; 3]>, Seq<u8>)>
    decreases n,
{
    if n == 0 {
        Some((Seq::empty(), Seq::empty()))
    } else {
        match stamp_scan(rgba, (n - 1) as nat) {
            None => None,
            Some((pal, px)) => {
                let i = n - 1;
                if alpha_at(rgba, i) < ALPHA_INSIDE_MIN {
                    Some((pal, px.push(0u8)))
                } else {
                    let c = rgb_at(rgba, i);
                    let k = pal_pos(pal, c);
                    if k < pal.len() {
                        Some((pal, px.push((k + 1) as u8)))
                    } else if pal.len() >= MAX_STAMP_PALETTE {
                        None
                    } else {
                        Some((pal.push(c), px.push((pal.len() + 1) as u8)))
                    }
                }
            },
        }
    }
}

/// Outcome of importing a `width`×`height` RGBA image as stamp `id`: the checks on
/// the id and the size in this order, then the palette scan.
pub open spec fn spec_import_stamp(id: Seq<char>, width: u32, height: u32, rgba: Seq<u8>) -> Result<
    (Seq<[u8; 3]>, Seq<u8>),
    StampImportError,
> {
    if !is_path_segment(id) {
        Err(StampImportError::InvalidId)
    } else if width != height {
        Err(StampImportError::NotSquare { width, height })
    } else if width < MIN_STAMP_PX {
        Err(StampImportError::TooSmall { width })
    } else if width > ABSOLUTE_MAX_STAMP_PX {
        Err(StampImportError::TooLarge { width })
    } else {
        match stamp_scan(rgba, (width * height) as nat) {
            Some(r) => Ok(r),
            None => Err(StampImportError::TooManyColors),
        }
    }
}

/// Once the scan has failed, scanning further pixels does not recover.
proof fn lemma_scan_stays_none(rgba: Seq<u8>, m: nat, k: nat)
    requires
        m <= k,
        stamp_scan(rgba, m) is None,
    ensures
        stamp_scan(rgba, k) is None,
    decreases k - m,
{
    if m < k {
        lemma_scan_stays_none(rgba, m, (k - 1) as nat);
    }
}

proof fn lemma_pal_pos(pal: Seq<[u8; 3]>, c: [u8; 3], j: int)
    requires
        0 <= j <= pal.len(),
        forall|k: int| 0 <= k < j ==> pal[k] != c,
        j == pal.len() || pal[j] == c,
    ensures
        pal_pos(pal, c) == j,
    decreases j,
{
    if j > 0 {
        lemma_pal_pos(pal.drop_first(), c, j - 1);
    }
}

fn rgb_eq(a: [u8; 3], b: [u8; 3]) -> (r: bool)
    ensures
        r == (a == b),
{
    let r = a[0] == b[0] && a[1] == b[1] && a[2] == b[2];
    proof {
        if r {
            assert(a =~= b);
        }
    }
    r
}

/// Checks a stamp id on its own (before any image is read).
pub fn validate_stamp_id(id: &str) -> (r: Result<(), StampImportError>)
    ensures
        r is Ok <==> is_path_segment(id@),
        r is Err ==> r == Err::<(), StampImportError>(StampImportError::InvalidId),
{
    if is_path_segment_exec(id) {
        Ok(())
    } else {
        Err(StampImportError::InvalidId)
    }
}

/// Imports a decoded square image (`rgba`: row-major RGBA bytes) as stamp `id`.
pub fn import_stamp_from_rgba(id: &str, width: u32, height: u32, rgba: &[u8]) -> (r: Result<
    StampJson,
    StampImportError,
>)
    requires
        rgba@.len() == 4 * width * height,
    ensures
        match spec_import_stamp(id@, width, height, rgba@) {
            Ok((pal, px)) => r matches Ok(s) && s.format@ == "glowbe-mate-stamp"@ && s.version == 2
                && s.id@ == id@ && s.size == width && s.palette@ == pal && s.pixels@ == px,
            Err(e) => r == Err::<StampJson, StampImportError>(e),
        },
{
    validate_stamp_id(id)?;
    if width != height {
        return Err(StampImportError::NotSquare { width, height });
    }
    if width < MIN_STAMP_PX {
        return Err(StampImportError::TooSmall { width });
    }
    if width > ABSOLUTE_MAX_STAMP_PX {
        return Err(StampImportError::TooLarge { width });
    }
    assert(width * height <= 65536) by (nonlinear_arith)
        requires
            width <= 256,
            height == width,
    ;
    assert(4 * width * height == 4 * (width * height)) by (nonlinear_arith);
    let n = (width as usize) * (height as usize);
    let mut palette: Vec<[u8; 3]> = Vec::new();
    let mut pixels: Vec<u8> = Vec::new();
    let mut i: usize = 0;
    while i < n
        invariant
            is_path_segment(id@),
            width == height,
            MIN_STAMP_PX <= width <= ABSOLUTE_MAX_STAMP_PX,
            n == width * height,
            n <= 65536,
            rgba@.len() == 4 * n,
            i <= n,
            stamp_scan(rgba@, i as nat) == Some((palette@, pixels@)),
            palette@.len() <= MAX_STAMP_PALETTE,
        decreases n - i,
    {
        let a = rgba[4 * i + 3];
        if a < ALPHA_INSIDE_MIN {
            pixels.push(0);
        } else {
            let c: [u8; 3] = [rgba[4 * i], rgba[4 * i + 1], rgba[4 * i + 2]];
            assert(c =~= rgb_at(rgba@, i as int));
            let mut j: usize = 0;
            while j < palette.len() && !rgb_eq(palette[j], c)
                invariant
                    j <= palette@.len(),
                    forall|k: int| 0 <= k < j ==> palette@[k] != c,
                decreases palette@.len() - j,
            {
                j += 1;
            }
            proof {
                lemma_pal_pos(palette@, c, j as int);
            }
            if j < palette.len() {
                pixels.push((j + 1) as u8);
            } else {
                if palette.len() >= MAX_STAMP_PALETTE {
                    proof {
                        assert(stamp_scan(rgba@, (i + 1) as nat) is None);
                        lemma_scan_stays_none(rgba@, (i + 1) as nat, n as nat);
                    }
                    return Err(StampImportError::TooManyColors);
                }
                palette.push(c);
                pixels.push(palette.len() as u8);
            }
        }
        i += 1;
    }
    Ok(StampJson { format: "glowbe-mate-stamp", version: 2, id: String::from_str(id), size: width, palette, pixels })
}


/// The palette and pixels of a completed scan describe the image: one entry per pixel,
/// 0 for a pixel whose alpha is below one half, otherwise `n` with `palette[n - 1]`
/// the pixel's colour; the palette holds at most 16 colours, none twice.
pub open spec fn describes_image(rgba: Seq<u8>, n: nat, pal: Seq<[u8; 3]>, px: Seq<u8>) -> bool {
    &&& px.len() == n
    &&& pal.len() <= MAX_STAMP_PALETTE
    &&& forall|a: int, b: int| 0 <= a < b < pal.len() ==> #[trigger] pal[a] != #[trigger] pal[b]
    &&& forall|i: int| 0 <= i < n ==> {
        &&& (alpha_at(rgba, i) < ALPHA_INSIDE_MIN ==> #[trigger] px[i] == 0)
        &&& (alpha_at(rgba, i) >= ALPHA_INSIDE_MIN ==> 1 <= px[i] <= pal.len() && pal[px[i] - 1] == rgb_at(rgba, i))
    }
}

proof fn lemma_pal_pos_found(pal: Seq<[u8; 3]>, c: [u8; 3])
    ensures
        0 <= pal_pos(pal, c) <= pal.len(),
        pal_pos(pal, c) < pal.len() ==> pal[pal_pos(pal, c)] == c,
        pal_pos(pal, c) == pal.len() ==> forall|k: int| 0 <= k < pal.len() ==> pal[k] != c,
    decreases pal.len(),
{
    if pal.len() > 0 && pal[0] != c {
        lemma_pal_pos_found(pal.drop_first(), c);
        assert forall|k: int| 0 < k < pal.len() implies pal[k] == pal.drop_first()[k - 1] by {}
    }
}

proof fn lemma_scan_describes(rgba: Seq<u8>, n: nat)
    ensures
        match stamp_scan(rgba, n) {
            Some((pal, px)) => describes_image(rgba, n, pal, px),
            None => true,
        },
    decreases n,
{
    if n > 0 && stamp_scan(rgba, n) is Some {
        let prev = stamp_scan(rgba, (n - 1) as nat);
        assert(prev is Some);
        lemma_scan_describes(rgba, (n - 1) as nat);
        let (pal, px) = prev.unwrap();
        let i = n - 1;
        let c = rgb_at(rgba, i);
        lemma_pal_pos_found(pal, c);
        let (pal2, px2) = stamp_scan(rgba, n).unwrap();
        assert forall|j: int| 0 <= j < n implies {
            &&& (alpha_at(rgba, j) < ALPHA_INSIDE_MIN ==> #[trigger] px2[j] == 0)
            &&& (alpha_at(rgba, j) >= ALPHA_INSIDE_MIN ==> 1 <= px2[j] <= pal2.len() && pal2[px2[j] - 1] == rgb_at(
                rgba,
                j,
            ))
        } by {
            if j < i {
                assert(px2[j] == px[j]);
                if alpha_at(rgba, j) >= ALPHA_INSIDE_MIN {
                    assert(pal2[px[j] - 1] == pal[px[j] - 1]);
                }
            }
        }
    }
}

/// Stamp law: an imported stamp has one entry per pixel; transparent pixels are 0 and
/// every opaque pixel `n` names its own colour as `palette[n - 1]`; the palette holds at
/// most 16 colours, each once.
pub proof fn lemma_import_describes_image(id: Seq<char>, width: u32, height: u32, rgba: Seq<u8>)
    ensures
        match spec_import_stamp(id, width, height, rgba) {
            Ok((pal, px)) => describes_image(rgba, (width * height) as nat, pal, px),
            Err(_) => true,
        },
{
    lemma_scan_describes(rgba, (width * height) as nat);
}

/// What `image::load_from_memory(bytes)` followed by `to_rgba8()` gives: the width,
/// the height and the row-major RGBA bytes, or `None` when the bytes do not decode.
pub uninterp spec fn decoded_rgba(bytes: Seq<u8>) -> Option<(u32, u32, Seq<u8>)>;

/// Decodes an encoded image (`image::load_from_memory`, format guessed from the
/// bytes) into RGBA8 (`DynamicImage::to_rgba8`). The contract names the result and
/// states nothing more of it.
#[verifier::external_body]
pub(crate) fn decode_rgba(bytes: &[u8]) -> (r: Option<(u32, u32, Vec<u8>)>)
    ensures
        match r {
            Some((w, h, px)) => decoded_rgba(bytes@) == Some((w, h, px@)),
            None => decoded_rgba(bytes@) is None,
        },
{
    match image::load_from_memory(bytes) {
        Ok(img) => {
            let rgba = img.to_rgba8();
            Some((rgba.width(), rgba.height(), rgba.into_raw()))
        },
        Err(_) => None,
    }
}

/// Outcome of importing the encoded image `png` as stamp `id`: the id is checked
/// first, then the image is decoded and imported as its RGBA pixels.
pub open spec fn spec_import_stamp_png(id: Seq<char>, png: Seq<u8>) -> Result<
    (Seq<[u8; 3]>, Seq<u8>, u32),
    StampImportError,
> {
    if !is_path_segment(id) {
        Err(StampImportError::InvalidId)
    } else {
        match decoded_rgba(png) {
            None => Err(StampImportError::Undecodable),
            Some((w, h, px)) => if px.len() != 4 * w * h {
                Err(StampImportError::Undecodable)
            } else {
                match spec_import_stamp(id, w, h, px) {
                    Ok((pal, pix)) => Ok((pal, pix, w)),
                    Err(e) => Err(e),
                }
            },
        }
    }
}

/// Imports an encoded square image (PNG or JPEG bytes) as stamp `id`.
pub fn import_stamp_from_png_bytes(id: &str, png: &[u8]) -> (r: Result<StampJson, StampImportError>)
    ensures
        match spec_import_stamp_png(id@, png@) {
            Ok((pal, px, size)) => r matches Ok(s) && s.format@ == "glowbe-mate-stamp"@ && s.version == 2
                && s.id@ == id@ && s.size == size && s.palette@ == pal && s.pixels@ == px,
            Err(e) => r == Err::<StampJson, StampImportError>(e),
        },
{
    validate_stamp_id(id)?;
    match decode_rgba(png) {
        None => Err(StampImportError::Undecodable),
        Some((w, h, px)) => {
            assert((w as int) * (h as int) <= 0xffff_ffff * 0xffff_ffff) by (nonlinear_arith)
                requires
                    w <= 0xffff_ffff,
                    h <= 0xffff_ffff,
            ;
            let need: u128 = (w as u128) * (h as u128);
            assert(need == (w as int) * (h as int));
            assert(4 * w * h == 4 * ((w as int) * (h as int))) by (nonlinear_arith);
            if px.len() as u128 != 4 * need {
                return Err(StampImportError::Undecodable);
            }
            import_stamp_from_rgba(id, w, h, px.as_slice())
        },
    }
}

} // verus!
