//! Media clip helpers: display names, upload file kinds, clip kinds and image sequences in zip archives.

use vstd::prelude::*;
use crate::strs::{
    ascii_lower_seq, ascii_lowercase_chars, char_is_control, chars_ends_with, chars_lt, chars_range_eq, chars_vec,
    decimal, has_infix, has_suffix, is_control_char, lemma_seq_lt_total, lemma_seq_lt_transitive, path_extension,
    path_extension_of, push_decimal, seq_lt, str_contains, str_eq, string_from_chars, trim_bounds, trim_ws,
    lemma_trim_ws_piece, is_path_segment, is_path_segment_exec,
};
use crate::mate::stamp_import::{decode_rgba, decoded_rgba};
use crate::clip::{is_demo_id, spec_validate_clip_id, validate_clip_id};
use crate::demos::DemoId;

verus! {

/// Longest display name kept, in characters.
pub const MAX_DISPLAY_NAME_CHARS: usize = 120;

/// The display name kept for an input: trimmed, cut to 120 characters, control
/// characters replaced by spaces, trimmed again; blank names are dropped.
pub open spec fn spec_sanitize_display_name(input: Option<Seq<char>>) -> Option<Seq<char>> {
    match input {
        None => None,
        Some(s) => {
            let t = trim_ws(s);
            if t.len() == 0 {
                None
            } else {
                let cut = if t.len() > 120 { t.take(120) } else { t };
                let u = cut.map_values(|c: char| if is_control_char(c) { ' ' } else { c });
                let w = trim_ws(u);
                if w.len() == 0 {
                    None
                } else {
                    Some(w)
                }
            }
        },
    }
}

/// Short display name for the UI; empty or blank names give `None` (key omitted / removed).
pub fn sanitize_display_name(input: Option<&str>) -> (r: Option<String>)
    ensures
        match spec_sanitize_display_name(
            match input {
                Some(s) => Some(s@),
                None => None,
            },
        ) {
            Some(w) => r matches Some(x) && x@ == w,
            None => r is None,
        },
{
    let s = match input {
        Some(s) => s,
        None => return None,
    };
    let v = chars_vec(s);
    let (a, b) = trim_bounds(&v, 0, v.len());
    assert(v@.subrange(0, v.len() as int) =~= s@);
    if a == b {
        return None;
    }
    let ghost t = v@.subrange(a as int, b as int);
    let end = if b - a > MAX_DISPLAY_NAME_CHARS { a + MAX_DISPLAY_NAME_CHARS } else { b };
    let ghost cut = if t.len() > 120 { t.take(120) } else { t };
    assert(cut =~= v@.subrange(a as int, end as int));
    let mut u: Vec<char> = Vec::new();
    let mut i = a;
    while i < end
        invariant
            a <= i <= end <= v.len(),
            u@ == v@.subrange(a as int, i as int).map_values(|c: char| if is_control_char(c) { ' ' } else { c }),
        decreases end - i,
    {
        let c = v[i];
        u.push(if char_is_control(c) { ' ' } else { c });
        assert(v@.subrange(a as int, i + 1) =~= v@.subrange(a as int, i as int).push(c));
        assert(v@.subrange(a as int, i + 1).map_values(|c: char| if is_control_char(c) { ' ' } else { c })
            =~= v@.subrange(a as int, i as int).map_values(|c: char| if is_control_char(c) { ' ' } else { c }).push(
            if is_control_char(c) { ' ' } else { c },
        ));
        i += 1;
    }
    let (x, y) = trim_bounds(&u, 0, u.len());
    assert(u@.subrange(0, u.len() as int) =~= u@);
    if x == y {
        None
    } else {
        Some(string_from_chars(&u, x, y))
    }
}

/// A zip entry name that is a PNG or JPEG image (case-insensitive extension).
pub open spec fn spec_is_image_zip_entry(name: Seq<char>) -> bool {
    let lower = ascii_lower_seq(name);
    has_suffix(lower, ".png"@) || has_suffix(lower, ".jpg"@) || has_suffix(lower, ".jpeg"@)
}

pub fn is_image_zip_entry(name: &str) -> (r: bool)
    ensures
        r == spec_is_image_zip_entry(name@),
{
    let lower = ascii_lowercase_chars(name);
    chars_ends_with(&lower, ".png") || chars_ends_with(&lower, ".jpg") || chars_ends_with(&lower, ".jpeg")
}

/// The lower-cased extension of a path, if it has one.
pub open spec fn lower_ext(path: Seq<char>) -> Option<Seq<char>> {
    match path_extension_of(path) {
        Some(e) => Some(ascii_lower_seq(e)),
        None => None,
    }
}

fn lower_extension(path: &str) -> (r: Option<Vec<char>>)
    ensures
        match lower_ext(path@) {
            Some(e) => r matches Some(v) && v@ == e,
            None => r is None,
        },
{
    match path_extension(path) {
        Some(e) => Some(ascii_lowercase_chars(e.as_str())),
        None => None,
    }
}

/// A video file by extension (mp4, webm, mov, mkv; any case).
pub open spec fn spec_is_video_file(path: Seq<char>) -> bool {
    match lower_ext(path) {
        Some(e) => e == "mp4"@ || e == "webm"@ || e == "mov"@ || e == "mkv"@,
        None => false,
    }
}

pub fn is_video_file_public(path: &str) -> (r: bool)
    ensures
        r == spec_is_video_file(path@),
{
    match lower_extension(path) {
        Some(e) => {
            let n = e.len();
            assert(e@.subrange(0, n as int) =~= e@);
            chars_range_eq(&e, 0, n, "mp4") || chars_range_eq(&e, 0, n, "webm") || chars_range_eq(&e, 0, n, "mov")
                || chars_range_eq(&e, 0, n, "mkv")
        },
        None => false,
    }
}

/// The local-file-header signature a zip archive starts with: `PK\x03\x04`.
pub open spec fn is_zip_signature(head: Seq<u8>) -> bool {
    head.len() >= 4 && head[0] == 0x50 && head[1] == 0x4b && head[2] == 0x03 && head[3] == 0x04
}

/// A zip archive: `.zip` extension (any case), or else the first bytes `head` of the
/// file carry the zip signature.
pub fn is_zip_file_public(path: &str, head: &[u8]) -> (r: bool)
    ensures
        r == (lower_ext(path@) == Some("zip"@) || is_zip_signature(head@)),
{
    let by_name = match lower_extension(path) {
        Some(e) => {
            let n = e.len();
            assert(e@.subrange(0, n as int) =~= e@);
            chars_range_eq(&e, 0, n, "zip")
        },
        None => false,
    };
    by_name || (head.len() >= 4 && head[0] == 0x50 && head[1] == 0x4b && head[2] == 0x03 && head[3] == 0x04)
}

/// Clip kind for a source kind (`equirectangular-*` → `equirect-*`; others unchanged).
pub open spec fn spec_clip_kind_from_source(k: Seq<char>) -> Seq<char> {
    if k == "equirectangular-image"@ {
        "equirect-image"@
    } else if k == "equirectangular-image-sequence"@ {
        "equirect-image-sequence"@
    } else if k == "equirectangular-video"@ {
        "equirect-video"@
    } else {
        k
    }
}

pub fn clip_kind_from_source(source_kind: &str) -> (r: String)
    ensures
        r@ == spec_clip_kind_from_source(source_kind@),
{
    if str_eq(source_kind, "equirectangular-image") {
        String::from_str("equirect-image")
    } else if str_eq(source_kind, "equirectangular-image-sequence") {
        String::from_str("equirect-image-sequence")
    } else if str_eq(source_kind, "equirectangular-video") {
        String::from_str("equirect-video")
    } else {
        String::from_str(source_kind)
    }
}

/// Source metadata stored in a clip manifest.
#[derive(Debug)]
pub struct ClipSourceMeta {
    pub kind: String,
    pub path: String,
    pub orig_width: u32,
    pub orig_height: u32,
}

/// Monotone progress: the value a progress counter moves to when `v` is reported
/// while it shows `cur` (capped at 100, never going back); `None` leaves it as is.
pub fn next_progress(cur: u8, v: u8) -> (r: Option<u8>)
    ensures
        ({
            let capped = if v > 100 { 100u8 } else { v };
            if capped <= cur {
                r is None
            } else {
                r == Some(capped)
            }
        }),
{
    let v = if v > 100 { 100 } else { v };
    if v <= cur {
        None
    } else {
        Some(v)
    }
}

/// Most images an image-sequence archive may hold.
pub const MAX_ZIP_FRAMES: usize = 3600;

/// An archive entry that becomes a frame: a file, outside `__MACOSX`, without `..`,
/// named like a PNG or JPEG image.
pub open spec fn zip_entry_is_frame(is_file: bool, name: Seq<char>) -> bool {
    is_file && !has_infix(name, "__MACOSX"@) && !has_infix(name, ".."@) && spec_is_image_zip_entry(name)
}

/// Names of the frame entries of an archive listing `(is_file, name)`, in archive order.
pub open spec fn zip_frame_names(entries: Seq<(bool, String)>) -> Seq<Seq<char>>
    decreases entries.len(),
{
    if entries.len() == 0 {
        Seq::empty()
    } else {
        let rest = zip_frame_names(entries.drop_last());
        let e = entries.last();
        if zip_entry_is_frame(e.0, e.1@) {
            rest.push(e.1@)
        } else {
            rest
        }
    }
}

/// Name `x` comes before name `y` of `names` once sorted (ties in archive order).
pub open spec fn frame_name_before(names: Seq<Seq<char>>, x: int, y: int) -> bool {
    seq_lt(names[x], names[y]) || (names[x] == names[y] && x < y)
}

/// `p` lists every index of `names` once, in sorted order.
pub open spec fn is_frame_order(names: Seq<Seq<char>>, p: Seq<int>) -> bool {
    &&& p.len() == names.len()
    &&& forall|i: int| 0 <= i < p.len() ==> 0 <= #[trigger] p[i] < names.len()
    &&& forall|i: int, j: int| 0 <= i < j < p.len() ==> frame_name_before(names, #[trigger] p[i], #[trigger] p[j])
}

/// The frames of an image-sequence archive, given its listing `(is_file, name)`: the
/// names of the frame entries, sorted; an archive without any is refused with
/// "zip contains no png/jpeg images".
pub fn zip_collect_image_names(entries: &Vec<(bool, String)>) -> (r: Result<Vec<String>, String>)
    ensures
        zip_frame_names(entries@).len() == 0 ==> (r matches Err(e) && e@ == "zip contains no png/jpeg images"@),
        zip_frame_names(entries@).len() > 0 ==> (r matches Ok(v) && exists|p: Seq<int>| {
            &&& is_frame_order(zip_frame_names(entries@), p)
            &&& v.len() == p.len()
            &&& forall|i: int| 0 <= i < v.len() ==> (#[trigger] v@[i])@ == zip_frame_names(entries@)[p[i]]
        }),
{
    let mut out: Vec<String> = Vec::new();
    let mut keys: Vec<Vec<char>> = Vec::new();
    let ghost mut p: Seq<int> = Seq::empty();
    let mut k: usize = 0;
    while k < entries.len()
        invariant
            k <= entries.len(),
            is_frame_order(zip_frame_names(entries@.take(k as int)), p),
            out.len() == p.len() == keys.len(),
            forall|i: int| 0 <= i < p.len() ==> (#[trigger] out@[i])@ == zip_frame_names(entries@.take(k as int))[p[i]],
            forall|i: int| 0 <= i < p.len() ==> (#[trigger] keys@[i])@ == zip_frame_names(entries@.take(k as int))[p[i]],
        decreases entries.len() - k,
    {
        let ghost before = zip_frame_names(entries@.take(k as int));
        assert(entries@.take(k + 1).drop_last() =~= entries@.take(k as int));
        let is_file = entries[k].0;
        let name = &entries[k].1;
        let keep = is_file && !str_contains(name.as_str(), "__MACOSX") && !str_contains(name.as_str(), "..")
            && is_image_zip_entry(name.as_str());
        if keep {
            let key = chars_vec(name.as_str());
            let m = out.len();
            let mut j: usize = 0;
            while j < keys.len() && !chars_lt(&key, &keys[j])
                invariant
                    j <= keys.len(),
                    key@ == name@,
                    forall|i: int| 0 <= i < j ==> !seq_lt(key@, #[trigger] keys@[i]@),
                decreases keys.len() - j,
            {
                j += 1;
            }
            let ghost names = zip_frame_names(entries@.take(k + 1));
            let ghost p2 = p.insert(j as int, m as int);
            let ghost old_out = out@;
            let ghost old_keys = keys@;
            proof {
                assert(names == before.push(name@));
                assert(names.len() == m + 1);
                assert forall|i: int| 0 <= i < p2.len() implies 0 <= #[trigger] p2[i] < names.len() by {
                    if i < j {
                        assert(p2[i] == p[i]);
                    } else if i > j {
                        assert(p2[i] == p[i - 1]);
                    }
                }
                assert forall|a: int, b: int| 0 <= a < b < p2.len() implies frame_name_before(names, #[trigger] p2[a], #[trigger] p2[b]) by {
                    if b < j {
                        assert(p2[a] == p[a] && p2[b] == p[b]);
                        assert(frame_name_before(before, p[a], p[b]));
                    } else if a > j {
                        assert(p2[a] == p[a - 1] && p2[b] == p[b - 1]);
                        assert(frame_name_before(before, p[a - 1], p[b - 1]));
                    } else if a < j && b > j {
                        assert(p2[a] == p[a] && p2[b] == p[b - 1]);
                        assert(frame_name_before(before, p[a], p[b - 1]));
                    } else if b == j {
                        assert(p2[a] == p[a]);
                        assert(!seq_lt(key@, old_keys[a]@));
                        lemma_seq_lt_total(key@, old_keys[a]@);
                        assert(p[a] < m);
                    } else {
                        assert(a == j && b > j);
                        assert(p2[b] == p[b - 1]);
                        assert(seq_lt(key@, old_keys[j as int]@));
                        if b - 1 > j {
                            assert(frame_name_before(before, p[j as int], p[b - 1]));
                            if seq_lt(old_keys[j as int]@, old_keys[b - 1]@) {
                                lemma_seq_lt_transitive(key@, old_keys[j as int]@, old_keys[b - 1]@);
                            }
                        }
                    }
                }
            }
            out.insert(j, name.clone());
            keys.insert(j, key);
            proof {
                assert forall|i: int| 0 <= i < p2.len() implies (#[trigger] out@[i])@ == names[p2[i]] by {
                    if i < j {
                        assert(out@[i] == old_out[i]);
                    } else if i > j {
                        assert(out@[i] == old_out[i - 1]);
                    }
                }
                assert forall|i: int| 0 <= i < p2.len() implies (#[trigger] keys@[i])@ == names[p2[i]] by {
                    if i < j {
                        assert(keys@[i] == old_keys[i]);
                    } else if i > j {
                        assert(keys@[i] == old_keys[i - 1]);
                    }
                }
                p = p2;
            }
        } else {
            assert(zip_frame_names(entries@.take(k + 1)) == before);
        }
        k += 1;
    }
    assert(entries@.take(entries.len() as int) =~= entries@);
    if out.len() == 0 {
        return Err(String::from_str("zip contains no png/jpeg images"));
    }
    Ok(out)
}

/// An archive with more than `MAX_ZIP_FRAMES` frames is refused.
pub fn check_zip_frame_count(n: usize) -> (r: Result<(), String>)
    ensures
        n <= MAX_ZIP_FRAMES ==> r is Ok,
        n > MAX_ZIP_FRAMES ==> (r matches Err(e) && e@ == "zip has too many images (max 3600)"@),
{
    if n > MAX_ZIP_FRAMES {
        Err(String::from_str("zip has too many images (max 3600)"))
    } else {
        Ok(())
    }
}

/// Every frame must have the first frame's size; the first frame must not be empty.
pub fn check_zip_frame_size(first_w: u32, first_h: u32, name: &str, w: u32, h: u32) -> (r: Result<(), String>)
    ensures
        (w == first_w && h == first_h) ==> r is Ok,
        !(w == first_w && h == first_h) ==> (r matches Err(e) && e@ == "all zip images must share size "@
            + decimal(first_w as nat) + "×"@ + decimal(first_h as nat) + ", but "@ + name@ + " is "@ + decimal(
            w as nat,
        ) + "×"@ + decimal(h as nat)),
{
    if w == first_w && h == first_h {
        return Ok(());
    }
    let mut e = String::from_str("all zip images must share size ");
    push_decimal(&mut e, first_w as u64);
    e.append("×");
    push_decimal(&mut e, first_h as u64);
    e.append(", but ");
    e.append(name);
    e.append(" is ");
    push_decimal(&mut e, w as u64);
    e.append("×");
    push_decimal(&mut e, h as u64);
    Err(e)
}

/// What `image::imageops::resize` with the triangle filter gives for the `w`×`h`
/// RGBA image `rgba` resized to `ow`×`oh`: its row-major RGBA bytes.
pub uninterp spec fn triangle_resized(rgba: Seq<u8>, w: u32, h: u32, ow: u32, oh: u32) -> Seq<u8>;

/// Resizes a `w`×`h` RGBA image to `ow`×`oh` with the triangle (bilinear) filter
/// (`image::imageops::resize`); the result holds `ow * oh` RGBA pixels, as every
/// path of that function builds a buffer of the requested size.
#[verifier::external_body]
fn resize_triangle(rgba: &Vec<u8>, w: u32, h: u32, ow: u32, oh: u32) -> (r: Vec<u8>)
    requires
        rgba@.len() == 4 * w * h,
        4 * ow * oh <= usize::MAX,
    ensures
        r@ == triangle_resized(rgba@, w, h, ow, oh),
        r@.len() == 4 * ow * oh,
{
    let img = image::RgbaImage::from_raw(w, h, rgba.clone()).unwrap();
    image::imageops::resize(&img, ow, oh, image::imageops::FilterType::Triangle).into_raw()
}

/// The RGB bytes of row-major RGBA bytes (alpha dropped).
pub open spec fn rgb_of(rgba: Seq<u8>) -> Seq<u8>
    decreases rgba.len(),
{
    if rgba.len() < 4 {
        Seq::empty()
    } else {
        rgb_of(rgba.subrange(0, rgba.len() - 4)) + rgba.subrange(rgba.len() - 4, rgba.len() - 1)
    }
}

/// Name and bytes of each frame, by their views.
pub open spec fn frames_view(frames: Seq<(String, Vec<u8>)>) -> Seq<(Seq<char>, Seq<u8>)> {
    frames.map_values(|f: (String, Vec<u8>)| (f.0@, f.1@))
}

/// Width and height of the decoded first frame.
pub open spec fn first_dims(frames: Seq<(Seq<char>, Seq<u8>)>) -> (u32, u32) {
    match decoded_rgba(frames[0].1) {
        Some((w, h, _)) => (w, h),
        None => (0, 0),
    }
}

/// Step `i` of building an equirect sequence from the encoded `frames`: decode frame
/// `i`, check its size against frame 0 (frame 0 must not be empty), then append the
/// RGB of the frame resized to `ow`×`oh`.
pub open spec fn sequence_step(
    frames: Seq<(Seq<char>, Seq<u8>)>,
    i: int,
    acc: Seq<u8>,
    ow: u32,
    oh: u32,
) -> Result<Seq<u8>, Seq<char>> {
    let name = frames[i].0;
    match decoded_rgba(frames[i].1) {
        None => Err("decode "@ + name),
        Some((w, h, px)) => if px.len() != 4 * w * h {
            Err("decode "@ + name)
        } else if i == 0 && (w == 0 || h == 0) {
            Err("invalid image size in zip"@)
        } else if i > 0 && !(w == first_dims(frames).0 && h == first_dims(frames).1) {
            let (w0, h0) = first_dims(frames);
            Err("all zip images must share size "@ + decimal(w0 as nat) + "×"@ + decimal(h0 as nat) + ", but "@
                + name + " is "@ + decimal(w as nat) + "×"@ + decimal(h as nat))
        } else {
            Ok(acc + rgb_of(triangle_resized(px, w, h, ow, oh)))
        },
    }
}

/// The first `n` frames, built in order; the first failing frame decides the error.
pub open spec fn sequence_upto(frames: Seq<(Seq<char>, Seq<u8>)>, n: nat, ow: u32, oh: u32) -> Result<
    Seq<u8>,
    Seq<char>,
>
    decreases n,
{
    if n == 0 {
        Ok(Seq::empty())
    } else {
        match sequence_upto(frames, (n - 1) as nat, ow, oh) {
            Err(e) => Err(e),
            Ok(acc) => sequence_step(frames, n - 1, acc, ow, oh),
        }
    }
}

/// The equirect clip bytes of an image sequence: none at all or more than
/// `MAX_ZIP_FRAMES` frames are refused first; otherwise every frame in order.
pub open spec fn spec_equirect_sequence(frames: Seq<(Seq<char>, Seq<u8>)>, ow: u32, oh: u32) -> Result<
    Seq<u8>,
    Seq<char>,
> {
    if frames.len() == 0 {
        Err("zip contains no png/jpeg images"@)
    } else if frames.len() > MAX_ZIP_FRAMES {
        Err("zip has too many images (max 3600)"@)
    } else {
        sequence_upto(frames, frames.len(), ow, oh)
    }
}

/// Once a frame has failed, the whole sequence fails with its error.
proof fn lemma_sequence_err_stays(frames: Seq<(Seq<char>, Seq<u8>)>, m: nat, k: nat, ow: u32, oh: u32)
    requires
        m <= k,
        sequence_upto(frames, m, ow, oh) is Err,
    ensures
        sequence_upto(frames, k, ow, oh) == sequence_upto(frames, m, ow, oh),
    decreases k - m,
{
    if m < k {
        lemma_sequence_err_stays(frames, m, (k - 1) as nat, ow, oh);
    }
}

/// Appends the RGB bytes of `rgba` to `out`.
fn push_rgb(out: &mut Vec<u8>, rgba: &Vec<u8>)
    requires
        rgba@.len() % 4 == 0,
    ensures
        final(out)@ == old(out)@ + rgb_of(rgba@),
{
    let ghost start = out@;
    let mut p: usize = 0;
    let n = rgba.len() / 4;
    assert(4 * n == rgba@.len()) by (nonlinear_arith)
        requires
            n == rgba@.len() / 4,
            rgba@.len() % 4 == 0,
    ;
    assert(rgba@.take(0) =~= Seq::<u8>::empty());
    assert(start + rgb_of(Seq::<u8>::empty()) =~= start);
    while p < n
        invariant
            4 * n == rgba@.len(),
            rgba@.len() == rgba.len(),
            p <= n,
            out@ == start + rgb_of(rgba@.take(4 * p)),
        decreases n - p,
    {
        let o = 4 * p;
        out.push(rgba[o]);
        out.push(rgba[o + 1]);
        out.push(rgba[o + 2]);
        proof {
            let t = rgba@.take(4 * p + 4);
            assert(t.subrange(0, t.len() - 4) =~= rgba@.take(4 * p));
            assert(t.subrange(t.len() - 4, t.len() - 1) =~= seq![rgba@[o as int], rgba@[o + 1], rgba@[o + 2]]);
            assert(out@ =~= start + rgb_of(t));
        }
        p += 1;
    }
    assert(rgba@.take(4 * p) =~= rgba@);
}

fn decode_error(name: &String) -> (r: String)
    ensures
        r@ == "decode "@ + name@,
{
    let mut e = String::from_str("decode ");
    e.append(name.as_str());
    e
}

/// Builds the equirect clip bytes of an image sequence: the frames (name and encoded
/// bytes, in play order) are decoded, checked to share frame 0's size and resized to
/// `out_w`×`out_h`; the result is their RGB bytes in order, and the frame count.
pub fn equirect_sequence(frames: &Vec<(String, Vec<u8>)>, out_w: u32, out_h: u32) -> (r: Result<(Vec<u8>, u32), String>)
    requires
        4 * out_w * out_h <= usize::MAX,
    ensures
        match spec_equirect_sequence(frames_view(frames@), out_w, out_h) {
            Ok(buf) => r matches Ok((v, n)) && v@ == buf && n == frames.len(),
            Err(e) => r matches Err(m) && m@ == e,
        },
{
    if frames.len() == 0 {
        return Err(String::from_str("zip contains no png/jpeg images"));
    }
    if frames.len() > MAX_ZIP_FRAMES {
        return Err(String::from_str("zip has too many images (max 3600)"));
    }
    let mut out: Vec<u8> = Vec::new();
    let mut w0: u32 = 0;
    let mut h0: u32 = 0;
    let mut i: usize = 0;
    while i < frames.len()
        invariant
            0 < frames.len() <= MAX_ZIP_FRAMES,
            4 * out_w * out_h <= usize::MAX,
            i <= frames.len(),
            sequence_upto(frames_view(frames@), i as nat, out_w, out_h) == Ok::<Seq<u8>, Seq<char>>(out@),
            i > 0 ==> first_dims(frames_view(frames@)) == (w0, h0),
            frames_view(frames@).len() == frames.len(),
        decreases frames.len() - i,
    {
        let name = &frames[i].0;
        assert(frames_view(frames@)[i as int] == (frames@[i as int].0@, frames@[i as int].1@));
        match decode_rgba(frames[i].1.as_slice()) {
            None => {
                proof {
                    lemma_sequence_err_stays(frames_view(frames@), (i + 1) as nat, frames.len() as nat, out_w, out_h);
                }
                return Err(decode_error(name));
            },
            Some((w, h, px)) => {
                assert((w as int) * (h as int) <= 0xffff_ffff * 0xffff_ffff) by (nonlinear_arith)
                    requires
                        w <= 0xffff_ffff,
                        h <= 0xffff_ffff,
                ;
                let need: u128 = (w as u128) * (h as u128);
                assert(4 * w * h == 4 * ((w as int) * (h as int))) by (nonlinear_arith);
                if px.len() as u128 != 4 * need {
                    proof {
                        lemma_sequence_err_stays(frames_view(frames@), (i + 1) as nat, frames.len() as nat, out_w, out_h);
                    }
                    return Err(decode_error(name));
                }
                if i == 0 {
                    if w == 0 || h == 0 {
                        proof {
                            lemma_sequence_err_stays(frames_view(frames@), (i + 1) as nat, frames.len() as nat, out_w, out_h);
                        }
                        return Err(String::from_str("invalid image size in zip"));
                    }
                    w0 = w;
                    h0 = h;
                } else {
                    match check_zip_frame_size(w0, h0, name.as_str(), w, h) {
                        Ok(()) => {},
                        Err(e) => {
                            proof {
                                lemma_sequence_err_stays(frames_view(frames@), (i + 1) as nat, frames.len() as nat, out_w, out_h);
                            }
                            return Err(e);
                        },
                    }
                }
                let resized = resize_triangle(&px, w, h, out_w, out_h);
                let ghost k: int = out_w as int * out_h as int;
                assert(4 * out_w * out_h == 4 * k) by (nonlinear_arith)
                    requires
                        k == out_w as int * out_h as int,
                ;
                assert(resized@.len() % 4 == 0);
                push_rgb(&mut out, &resized);
            },
        }
        i += 1;
    }
    Ok((out, frames.len() as u32))
}

/// The equirect clip frame of a single encoded image: its RGB bytes resized to
/// `ow`×`oh`, with the image's own width and height; "decode image" when the bytes
/// do not decode, "image has zero width or height" for an empty image.
pub open spec fn spec_equirect_image(bytes: Seq<u8>, ow: u32, oh: u32) -> Result<(Seq<u8>, u32, u32), Seq<char>> {
    match decoded_rgba(bytes) {
        None => Err("decode image"@),
        Some((w, h, px)) => if px.len() != 4 * w * h {
            Err("decode image"@)
        } else if w == 0 || h == 0 {
            Err("image has zero width or height"@)
        } else {
            Ok((rgb_of(triangle_resized(px, w, h, ow, oh)), w, h))
        },
    }
}

/// Builds the single frame of an equirect clip from one encoded image.
pub fn equirect_image(bytes: &[u8], out_w: u32, out_h: u32) -> (r: Result<(Vec<u8>, u32, u32), String>)
    requires
        4 * out_w * out_h <= usize::MAX,
    ensures
        match spec_equirect_image(bytes@, out_w, out_h) {
            Ok((buf, w, h)) => r matches Ok((v, rw, rh)) && v@ == buf && rw == w && rh == h,
            Err(e) => r matches Err(m) && m@ == e,
        },
{
    match decode_rgba(bytes) {
        None => Err(String::from_str("decode image")),
        Some((w, h, px)) => {
            assert((w as int) * (h as int) <= 0xffff_ffff * 0xffff_ffff) by (nonlinear_arith)
                requires
                    w <= 0xffff_ffff,
                    h <= 0xffff_ffff,
            ;
            let need: u128 = (w as u128) * (h as u128);
            assert(4 * w * h == 4 * ((w as int) * (h as int))) by (nonlinear_arith);
            if px.len() as u128 != 4 * need {
                return Err(String::from_str("decode image"));
            }
            if w == 0 || h == 0 {
                return Err(String::from_str("image has zero width or height"));
            }
            let resized = resize_triangle(&px, w, h, out_w, out_h);
            let ghost k: int = out_w as int * out_h as int;
            assert(4 * out_w * out_h == 4 * k) by (nonlinear_arith)
                requires
                    k == out_w as int * out_h as int,
            ;
            assert(resized@.len() % 4 == 0);
            let mut out: Vec<u8> = Vec::new();
            push_rgb(&mut out, &resized);
            assert(out@ =~= rgb_of(resized@));
            Ok((out, w, h))
        },
    }
}

/// What `zip::ZipArchive` reads from the bytes of an archive: for each entry, in index
/// order, whether it is a file, its name and its contents (`None` where they cannot
/// be read); `None` when the archive, or one of its entries, cannot be opened.
pub uninterp spec fn zip_archive_entries(archive: Seq<u8>) -> Option<Seq<(bool, Seq<char>, Option<Seq<u8>>)>>;

/// Bytes of an optional buffer, by their view.
pub open spec fn opt_bytes(o: Option<Vec<u8>>) -> Option<Seq<u8>> {
    match o {
        Some(v) => Some(v@),
        None => None,
    }
}

/// Archive entries by their views.
pub open spec fn entries_view(v: Seq<(bool, String, Option<Vec<u8>>)>) -> Seq<(bool, Seq<char>, Option<Seq<u8>>)> {
    v.map_values(|e: (bool, String, Option<Vec<u8>>)| (e.0, e.1@, opt_bytes(e.2)))
}

/// Lists an archive's entries (`zip::ZipArchive::new`, then `by_index` and
/// `read_to_end` for each index).
#[verifier::external_body]
fn read_zip_entries(archive: &[u8]) -> (r: Option<Vec<(bool, String, Option<Vec<u8>>)>>)
    ensures
        match r {
            Some(v) => zip_archive_entries(archive@) == Some(entries_view(v@)),
            None => zip_archive_entries(archive@) is None,
        },
{
    let mut z = zip::ZipArchive::new(std::io::Cursor::new(archive)).ok()?;
    let mut out = Vec::new();
    for i in 0..z.len() {
        let mut f = z.by_index(i).ok()?;
        let mut buf = Vec::new();
        let contents = std::io::Read::read_to_end(&mut f, &mut buf).ok().map(|_| buf);
        out.push((f.is_file(), f.name().to_string(), contents));
    }
    Some(out)
}

/// Positions of the entries of `es` that are image frames, in archive order.
pub open spec fn frame_positions(es: Seq<(bool, Seq<char>, Option<Seq<u8>>)>) -> Seq<int>
    decreases es.len(),
{
    if es.len() == 0 {
        Seq::empty()
    } else {
        let rest = frame_positions(es.drop_last());
        if zip_entry_is_frame(es.last().0, es.last().1) {
            rest.push(es.len() - 1)
        } else {
            rest
        }
    }
}

/// Names of the image-frame entries of `es`, in archive order.
pub open spec fn frame_entry_names(es: Seq<(bool, Seq<char>, Option<Seq<u8>>)>) -> Seq<Seq<char>> {
    frame_positions(es).map_values(|i: int| es[i].1)
}

proof fn lemma_frame_positions(es: Seq<(bool, Seq<char>, Option<Seq<u8>>)>)
    ensures
        forall|j: int| 0 <= j < frame_positions(es).len() ==> 0 <= #[trigger] frame_positions(es)[j] < es.len(),
    decreases es.len(),
{
    if es.len() > 0 {
        lemma_frame_positions(es.drop_last());
        let rest = frame_positions(es.drop_last());
        assert forall|j: int| 0 <= j < rest.len() implies 0 <= #[trigger] rest[j] < es.len() by {}
    }
}

/// Entry positions of `es` for the image frames in play order: by name, ties in
/// archive order.
pub open spec fn is_zip_play_order(es: Seq<(bool, Seq<char>, Option<Seq<u8>>)>, q: Seq<int>) -> bool {
    exists|p: Seq<int>| {
        &&& is_frame_order(frame_entry_names(es), p)
        &&& q.len() == p.len()
        &&& forall|k: int| 0 <= k < q.len() ==> #[trigger] q[k] == frame_positions(es)[p[k]]
    }
}

/// Positions of the image-frame entries of an archive listing, in play order.
fn zip_play_order(es: &Vec<(bool, String, Option<Vec<u8>>)>) -> (r: Vec<usize>)
    ensures
        is_zip_play_order(entries_view(es@), r@.map_values(|x: usize| x as int)),
{
    let ghost ev = entries_view(es@);
    let mut out: Vec<usize> = Vec::new();
    let mut keys: Vec<Vec<char>> = Vec::new();
    let ghost mut p: Seq<int> = Seq::empty();
    let mut k: usize = 0;
    while k < es.len()
        invariant
            ev == entries_view(es@),
            ev.len() == es.len(),
            k <= es.len(),
            is_frame_order(frame_entry_names(ev.take(k as int)), p),
            out.len() == p.len() == keys.len(),
            forall|i: int| 0 <= i < p.len() ==> (#[trigger] out@[i]) as int == frame_positions(ev.take(k as int))[p[i]],
            forall|i: int| 0 <= i < p.len() ==> (#[trigger] keys@[i])@ == frame_entry_names(ev.take(k as int))[p[i]],
        decreases es.len() - k,
    {
        let ghost before = ev.take(k as int);
        let ghost pos = frame_positions(before);
        let ghost names = frame_entry_names(before);
        let ghost after = ev.take(k + 1);
        proof {
            assert(after.drop_last() =~= before);
            assert(ev[k as int] == (es@[k as int].0, es@[k as int].1@, opt_bytes(es@[k as int].2)));
            assert(after.last() == ev[k as int]);
            lemma_frame_positions(before);
        }
        let is_file = es[k].0;
        let name = &es[k].1;
        let keep = is_file && !str_contains(name.as_str(), "__MACOSX") && !str_contains(name.as_str(), "..")
            && is_image_zip_entry(name.as_str());
        if keep {
            let key = chars_vec(name.as_str());
            let m = out.len();
            let mut j: usize = 0;
            while j < keys.len() && !chars_lt(&key, &keys[j])
                invariant
                    j <= keys.len(),
                    key@ == name@,
                    forall|i: int| 0 <= i < j ==> !seq_lt(key@, #[trigger] keys@[i]@),
                decreases keys.len() - j,
            {
                j += 1;
            }
            let ghost names2 = frame_entry_names(after);
            let ghost pos2 = frame_positions(after);
            let ghost p2 = p.insert(j as int, m as int);
            let ghost old_out = out@;
            let ghost old_keys = keys@;
            proof {
                assert(pos2 == pos.push(k as int));
                assert forall|i: int| 0 <= i < pos.len() implies after[pos[i]] == before[pos[i]] by {}
                assert(names2 =~= names.push(name@));
                assert(names.len() == m);
                assert forall|i: int| 0 <= i < p2.len() implies 0 <= #[trigger] p2[i] < names2.len() by {
                    if i < j {
                        assert(p2[i] == p[i]);
                    } else if i > j {
                        assert(p2[i] == p[i - 1]);
                    }
                }
                assert forall|a: int, b: int| 0 <= a < b < p2.len() implies frame_name_before(names2, #[trigger] p2[a], #[trigger] p2[b]) by {
                    if b < j {
                        assert(p2[a] == p[a] && p2[b] == p[b]);
                        assert(frame_name_before(names, p[a], p[b]));
                    } else if a > j {
                        assert(p2[a] == p[a - 1] && p2[b] == p[b - 1]);
                        assert(frame_name_before(names, p[a - 1], p[b - 1]));
                    } else if a < j && b > j {
                        assert(p2[a] == p[a] && p2[b] == p[b - 1]);
                        assert(frame_name_before(names, p[a], p[b - 1]));
                    } else if b == j {
                        assert(p2[a] == p[a]);
                        assert(!seq_lt(key@, old_keys[a]@));
                        lemma_seq_lt_total(key@, old_keys[a]@);
                        assert(p[a] < m);
                    } else {
                        assert(a == j && b > j);
                        assert(p2[b] == p[b - 1]);
                        assert(seq_lt(key@, old_keys[j as int]@));
                        if b - 1 > j {
                            assert(frame_name_before(names, p[j as int], p[b - 1]));
                            if seq_lt(old_keys[j as int]@, old_keys[b - 1]@) {
                                lemma_seq_lt_transitive(key@, old_keys[j as int]@, old_keys[b - 1]@);
                            }
                        }
                    }
                }
            }
            out.insert(j, k);
            keys.insert(j, key);
            proof {
                assert forall|i: int| 0 <= i < p2.len() implies (#[trigger] out@[i]) as int == pos2[p2[i]] by {
                    if i < j {
                        assert(out@[i] == old_out[i]);
                    } else if i > j {
                        assert(out@[i] == old_out[i - 1]);
                    }
                }
                assert forall|i: int| 0 <= i < p2.len() implies (#[trigger] keys@[i])@ == names2[p2[i]] by {
                    if i < j {
                        assert(keys@[i] == old_keys[i]);
                    } else if i > j {
                        assert(keys@[i] == old_keys[i - 1]);
                    }
                }
                p = p2;
            }
        } else {
            proof {
                assert(frame_positions(after) == pos);
                assert forall|i: int| 0 <= i < pos.len() implies after[pos[i]] == before[pos[i]] by {}
                assert(frame_entry_names(after) =~= names);
            }
        }
        k += 1;
    }
    assert(ev.take(es.len() as int) =~= ev);
    let ghost q = out@.map_values(|x: usize| x as int);
    assert(q.len() == p.len());
    assert forall|i: int| 0 <= i < q.len() implies #[trigger] q[i] == frame_positions(ev)[p[i]] by {
        assert(q[i] == out@[i] as int);
    }
    out
}

/// The first of the chosen entries `q` of `es`, in order, whose contents could not be read.
pub open spec fn first_unreadable(es: Seq<(bool, Seq<char>, Option<Seq<u8>>)>, q: Seq<int>) -> Option<int>
    decreases q.len(),
{
    if q.len() == 0 {
        None
    } else {
        match first_unreadable(es, q.drop_last()) {
            Some(k) => Some(k),
            None => if es[q.last()].2 is None {
                Some(q.len() - 1)
            } else {
                None
            },
        }
    }
}

/// Names and contents of the chosen entries `q` of `es`.
pub open spec fn chosen_frames(es: Seq<(bool, Seq<char>, Option<Seq<u8>>)>, q: Seq<int>) -> Seq<(Seq<char>, Seq<u8>)> {
    Seq::new(q.len(), |k: int| (es[q[k]].1, es[q[k]].2.unwrap()))
}

/// The equirect clip bytes of the image entries `q` (in play order) of an archive:
/// none or more than `MAX_ZIP_FRAMES` are refused, then the first unreadable entry,
/// then the frames are built as `spec_equirect_sequence` builds them.
pub open spec fn spec_zip_sequence(es: Seq<(bool, Seq<char>, Option<Seq<u8>>)>, q: Seq<int>, ow: u32, oh: u32) -> Result<
    Seq<u8>,
    Seq<char>,
> {
    if q.len() == 0 {
        Err("zip contains no png/jpeg images"@)
    } else if q.len() > MAX_ZIP_FRAMES {
        Err("zip has too many images (max 3600)"@)
    } else {
        match first_unreadable(es, q) {
            Some(k) => Err("read zip entry "@ + es[q[k]].1),
            None => spec_equirect_sequence(chosen_frames(es, q), ow, oh),
        }
    }
}

/// `r` is the outcome `out` with `n` frames (an error by its message).
pub open spec fn sequence_result_is(r: Result<(Vec<u8>, u32), String>, out: Result<Seq<u8>, Seq<char>>, n: nat) -> bool {
    match out {
        Ok(buf) => r matches Ok((v, k)) && v@ == buf && k == n,
        Err(e) => r matches Err(m) && m@ == e,
    }
}

/// `r` is the outcome `out` (an error by its message).
pub open spec fn probe_result_is(r: Result<(u32, u32, u32), String>, out: Result<(u32, u32, u32), Seq<char>>) -> bool {
    match out {
        Ok(t) => r == Ok::<(u32, u32, u32), String>(t),
        Err(e) => r matches Err(m) && m@ == e,
    }
}

/// Builds the equirect clip bytes of a ZIP archive of PNG/JPEG frames: the frame
/// entries are taken in name order, read, decoded, checked to share one size and
/// resized to `out_w`×`out_h`; the result is their RGB bytes in order and the count.
pub fn equirect_from_zip(archive: &[u8], out_w: u32, out_h: u32) -> (r: Result<(Vec<u8>, u32), String>)
    requires
        4 * out_w * out_h <= usize::MAX,
    ensures
        match zip_archive_entries(archive@) {
            None => r matches Err(m) && m@ == "open zip archive"@,
            Some(ents) => exists|q: Seq<int>|
                #![trigger is_zip_play_order(ents, q)]
                is_zip_play_order(ents, q) && sequence_result_is(r, spec_zip_sequence(ents, q, out_w, out_h), q.len()),
        },
{
    let es = match read_zip_entries(archive) {
        Some(v) => v,
        None => {
            return Err(String::from_str("open zip archive"));
        },
    };
    let ghost ev = entries_view(es@);
    let order = zip_play_order(&es);
    let ghost q = order@.map_values(|x: usize| x as int);
    assert(is_zip_play_order(ev, q));
    proof {
        let p = choose|p: Seq<int>| {
            &&& is_frame_order(frame_entry_names(ev), p)
            &&& q.len() == p.len()
            &&& forall|k: int| 0 <= k < q.len() ==> #[trigger] q[k] == frame_positions(ev)[p[k]]
        };
        lemma_frame_positions(ev);
        assert forall|k: int| 0 <= k < q.len() implies 0 <= #[trigger] q[k] < ev.len() by {
            assert(0 <= p[k] < frame_positions(ev).len());
        }
    }
    if order.len() == 0 {
        let r: Result<(Vec<u8>, u32), String> = Err(String::from_str("zip contains no png/jpeg images"));
        proof {
            lemma_zip_outcome(archive@, ev, q, r, out_w, out_h);
        }
        return r;
    }
    if order.len() > MAX_ZIP_FRAMES {
        let r: Result<(Vec<u8>, u32), String> = Err(String::from_str("zip has too many images (max 3600)"));
        proof {
            lemma_zip_outcome(archive@, ev, q, r, out_w, out_h);
        }
        return r;
    }
    let mut frames: Vec<(String, Vec<u8>)> = Vec::new();
    let mut k: usize = 0;
    while k < order.len()
        invariant
            ev == entries_view(es@),
            ev.len() == es.len(),
            zip_archive_entries(archive@) == Some(ev),
            is_zip_play_order(ev, q),
            q == order@.map_values(|x: usize| x as int),
            0 < q.len() <= MAX_ZIP_FRAMES,
            forall|j: int| 0 <= j < q.len() ==> 0 <= #[trigger] q[j] < ev.len(),
            k <= order.len(),
            first_unreadable(ev, q.take(k as int)) is None,
            frames.len() == k,
            frames_view(frames@) =~= chosen_frames(ev, q.take(k as int)),
        decreases order.len() - k,
    {
        let idx = order[k];
        assert(q[k as int] == idx as int);
        assert(q.take(k + 1).drop_last() =~= q.take(k as int));
        assert(ev[idx as int] == (es@[idx as int].0, es@[idx as int].1@, opt_bytes(es@[idx as int].2)));
        match &es[idx].2 {
            None => {
                proof {
                    assert(first_unreadable(ev, q.take(k + 1)) == Some(k as int));
                    lemma_unreadable_stays(ev, q, (k + 1) as nat);
                }
                let mut e = String::from_str("read zip entry ");
                e.append(es[idx].1.as_str());
                let r: Result<(Vec<u8>, u32), String> = Err(e);
                proof {
                    assert(first_unreadable(ev, q) == Some(k as int));
                    assert(e@ == "read zip entry "@ + ev[q[k as int]].1);
                    lemma_zip_outcome(archive@, ev, q, r, out_w, out_h);
                }
                return r;
            },
            Some(bytes) => {
                let b = bytes.clone();
                assert(b@ =~= bytes@);
                let nm = es[idx].1.clone();
                assert(nm@ == es@[idx as int].1@);
                let ghost old_frames = frames@;
                frames.push((nm, b));
                proof {
                    assert(first_unreadable(ev, q.take(k + 1)) is None);
                    let want = chosen_frames(ev, q.take(k + 1));
                    let have = frames_view(frames@);
                    assert(frames@ == old_frames.push((nm, b)));
                    assert forall|j: int| 0 <= j < k + 1 implies #[trigger] have[j] == want[j] by {
                        if j < k {
                            assert(frames@[j] == old_frames[j]);
                            assert(frames_view(old_frames)[j] == chosen_frames(ev, q.take(k as int))[j]);
                        } else {
                            assert(have[j] == (nm@, b@));
                        }
                    }
                    assert(have =~= want);
                }
            },
        }
        k += 1;
    }
    assert(q.take(k as int) =~= q);
    let r = equirect_sequence(&frames, out_w, out_h);
    proof {
        lemma_zip_outcome(archive@, ev, q, r, out_w, out_h);
    }
    r
}

proof fn lemma_zip_outcome(
    archive: Seq<u8>,
    ev: Seq<(bool, Seq<char>, Option<Seq<u8>>)>,
    q: Seq<int>,
    r: Result<(Vec<u8>, u32), String>,
    ow: u32,
    oh: u32,
)
    requires
        zip_archive_entries(archive) == Some(ev),
        is_zip_play_order(ev, q),
        sequence_result_is(r, spec_zip_sequence(ev, q, ow, oh), q.len()),
    ensures
        match zip_archive_entries(archive) {
            None => r matches Err(m) && m@ == "open zip archive"@,
            Some(ents) => exists|q3: Seq<int>|
                #![trigger is_zip_play_order(ents, q3)]
                is_zip_play_order(ents, q3) && sequence_result_is(r, spec_zip_sequence(ents, q3, ow, oh), q3.len()),
        },
{
    match zip_archive_entries(archive) {
        Some(ents) => {
            assert(ents == ev);
            assert(is_zip_play_order(ents, q) && sequence_result_is(r, spec_zip_sequence(ents, q, ow, oh), q.len()));
        },
        None => {},
    }
}

proof fn lemma_probe_outcome(
    archive: Seq<u8>,
    ev: Seq<(bool, Seq<char>, Option<Seq<u8>>)>,
    q: Seq<int>,
    r: Result<(u32, u32, u32), String>,
)
    requires
        zip_archive_entries(archive) == Some(ev),
        is_zip_play_order(ev, q),
        probe_result_is(r, spec_probe_zip(ev, q)),
    ensures
        match zip_archive_entries(archive) {
            None => r matches Err(m) && m@ == "open zip archive"@,
            Some(ents) => exists|q3: Seq<int>|
                #![trigger is_zip_play_order(ents, q3)]
                is_zip_play_order(ents, q3) && probe_result_is(r, spec_probe_zip(ents, q3)),
        },
{
    match zip_archive_entries(archive) {
        Some(ents) => {
            assert(ents == ev);
            assert(is_zip_play_order(ents, q) && probe_result_is(r, spec_probe_zip(ents, q)));
        },
        None => {},
    }
}

/// Once a chosen entry is unreadable, so it stays for every longer prefix.
proof fn lemma_unreadable_stays(es: Seq<(bool, Seq<char>, Option<Seq<u8>>)>, q: Seq<int>, m: nat)
    requires
        m <= q.len(),
        first_unreadable(es, q.take(m as int)) is Some,
    ensures
        first_unreadable(es, q) == first_unreadable(es, q.take(m as int)),
    decreases q.len() - m,
{
    if m < q.len() {
        assert(q.take(m + 1 as int).drop_last() =~= q.take(m as int));
        lemma_unreadable_stays(es, q, m + 1);
    } else {
        assert(q.take(m as int) =~= q);
    }
}

/// What probing an archive of PNG/JPEG frames finds: the size of the first frame in
/// name order, and the number of frames.
pub open spec fn spec_probe_zip(es: Seq<(bool, Seq<char>, Option<Seq<u8>>)>, q: Seq<int>) -> Result<(u32, u32, u32), Seq<char>> {
    if q.len() == 0 {
        Err("zip contains no png/jpeg images"@)
    } else {
        let first = es[q[0]];
        match first.2 {
            None => Err("read zip entry "@ + first.1),
            Some(bytes) => match decoded_rgba(bytes) {
                None => Err("decode "@ + first.1),
                Some((w, h, _)) => Ok((w, h, q.len() as u32)),
            },
        }
    }
}

/// Size of the first frame (in name order) of a ZIP archive of PNG/JPEG frames, and
/// how many frames it holds.
pub fn probe_zip_image_sequence(archive: &[u8]) -> (r: Result<(u32, u32, u32), String>)
    ensures
        match zip_archive_entries(archive@) {
            None => r matches Err(m) && m@ == "open zip archive"@,
            Some(ents) => exists|q: Seq<int>|
                #![trigger is_zip_play_order(ents, q)]
                is_zip_play_order(ents, q) && probe_result_is(r, spec_probe_zip(ents, q)),
        },
{
    let es = match read_zip_entries(archive) {
        Some(v) => v,
        None => {
            return Err(String::from_str("open zip archive"));
        },
    };
    let ghost ev = entries_view(es@);
    let order = zip_play_order(&es);
    let ghost q = order@.map_values(|x: usize| x as int);
    assert(is_zip_play_order(ev, q));
    if order.len() == 0 {
        let r: Result<(u32, u32, u32), String> = Err(String::from_str("zip contains no png/jpeg images"));
        proof {
            lemma_probe_outcome(archive@, ev, q, r);
        }
        return r;
    }
    proof {
        let p = choose|p: Seq<int>| {
            &&& is_frame_order(frame_entry_names(ev), p)
            &&& q.len() == p.len()
            &&& forall|k: int| 0 <= k < q.len() ==> #[trigger] q[k] == frame_positions(ev)[p[k]]
        };
        lemma_frame_positions(ev);
        assert(q[0] == frame_positions(ev)[p[0]]);
    }
    let idx = order[0];
    assert(q[0] == idx as int);
    assert(ev[idx as int] == (es@[idx as int].0, es@[idx as int].1@, opt_bytes(es@[idx as int].2)));
    let name = &es[idx].1;
    let r: Result<(u32, u32, u32), String> = match &es[idx].2 {
        None => {
            let mut e = String::from_str("read zip entry ");
            e.append(name.as_str());
            Err(e)
        },
        Some(bytes) => match decode_rgba(bytes.as_slice()) {
            None => Err(decode_error(name)),
            Some((w, h, _)) => Ok((w, h, order.len() as u32)),
        },
    };
    proof {
        lemma_probe_outcome(archive@, ev, q, r);
    }
    r
}

/// What `image` writes for the `w`×`h` RGBA image `rgba` encoded as PNG
/// (`DynamicImage::write_to` with `ImageFormat::Png`), or `None` when encoding fails.
pub uninterp spec fn png_encoded(w: u32, h: u32, rgba: Seq<u8>) -> Option<Seq<u8>>;

/// Encodes a `w`×`h` RGBA image as PNG.
#[verifier::external_body]
fn encode_png(w: u32, h: u32, rgba: &Vec<u8>) -> (r: Option<Vec<u8>>)
    requires
        rgba@.len() == 4 * w * h,
    ensures
        match r {
            Some(p) => png_encoded(w, h, rgba@) == Some(p@),
            None => png_encoded(w, h, rgba@) is None,
        },
{
    let img = image::RgbaImage::from_raw(w, h, rgba.clone())?;
    let mut buf = Vec::new();
    let mut cursor = std::io::Cursor::new(&mut buf);
    image::DynamicImage::ImageRgba8(img).write_to(&mut cursor, image::ImageFormat::Png).ok()?;
    Some(buf)
}

/// A frame of a source, as exported: its PNG bytes, or, for a video, the note that
/// the frame is extracted by the video tool outside the library.
#[derive(Debug, Clone, PartialEq, Eq)]
pub enum SourceFrame {
    Png(Vec<u8>),
    Video,
}

/// The encoded image `bytes` (named `name` in errors) decoded and re-encoded as PNG.
pub open spec fn spec_png_of(bytes: Seq<u8>, name: Seq<char>) -> Result<Seq<u8>, Seq<char>> {
    match decoded_rgba(bytes) {
        None => Err("decode "@ + name),
        Some((w, h, px)) => if px.len() != 4 * w * h {
            Err("decode "@ + name)
        } else {
            match png_encoded(w, h, px) {
                None => Err("encode png"@),
                Some(p) => Ok(p),
            }
        },
    }
}

/// Frame `idx` of an image-sequence archive whose image entries in play order are `q`.
pub open spec fn spec_sequence_frame(es: Seq<(bool, Seq<char>, Option<Seq<u8>>)>, q: Seq<int>, idx: u32) -> Result<
    Seq<u8>,
    Seq<char>,
> {
    if q.len() == 0 {
        Err("zip contains no png/jpeg images"@)
    } else if idx >= q.len() {
        Err("zip frame index "@ + decimal(idx as nat) + " out of range"@)
    } else {
        let e = es[q[idx as int]];
        match e.2 {
            None => Err("read zip entry "@ + e.1),
            Some(b) => spec_png_of(b, e.1),
        }
    }
}

/// `r` is the PNG outcome `out` (an error by its message).
pub open spec fn png_result_is(r: Result<SourceFrame, String>, out: Result<Seq<u8>, Seq<char>>) -> bool {
    match out {
        Ok(p) => r matches Ok(SourceFrame::Png(v)) && v@ == p,
        Err(e) => r matches Err(m) && m@ == e,
    }
}

fn png_of(bytes: &[u8], name: &String) -> (r: Result<SourceFrame, String>)
    ensures
        png_result_is(r, spec_png_of(bytes@, name@)),
{
    match decode_rgba(bytes) {
        None => Err(decode_error(name)),
        Some((w, h, px)) => {
            assert((w as int) * (h as int) <= 0xffff_ffff * 0xffff_ffff) by (nonlinear_arith)
                requires
                    w <= 0xffff_ffff,
                    h <= 0xffff_ffff,
            ;
            let need: u128 = (w as u128) * (h as u128);
            assert(4 * w * h == 4 * ((w as int) * (h as int))) by (nonlinear_arith);
            if px.len() as u128 != 4 * need {
                return Err(decode_error(name));
            }
            match encode_png(w, h, &px) {
                None => Err(String::from_str("encode png")),
                Some(p) => Ok(SourceFrame::Png(p)),
            }
        },
    }
}

proof fn lemma_frame_outcome(
    bytes: Seq<u8>,
    ev: Seq<(bool, Seq<char>, Option<Seq<u8>>)>,
    q: Seq<int>,
    idx: u32,
    r: Result<SourceFrame, String>,
)
    requires
        zip_archive_entries(bytes) == Some(ev),
        is_zip_play_order(ev, q),
        png_result_is(r, spec_sequence_frame(ev, q, idx)),
    ensures
        match zip_archive_entries(bytes) {
            None => r matches Err(m) && m@ == "open zip"@,
            Some(ents) => exists|q3: Seq<int>|
                #![trigger is_zip_play_order(ents, q3)]
                is_zip_play_order(ents, q3) && png_result_is(r, spec_sequence_frame(ents, q3, idx)),
        },
{
    match zip_archive_entries(bytes) {
        Some(ents) => {
            assert(ents == ev);
            assert(is_zip_play_order(ents, q) && png_result_is(r, spec_sequence_frame(ents, q, idx)));
        },
        None => {},
    }
}

/// Frame `frame_index` of a source of kind `kind` whose original file holds `bytes`,
/// as PNG: a single image has only frame 0; an image sequence (a ZIP archive) gives
/// its image entries in play order; a video frame is left to the video tool; any other
/// kind is refused.
pub fn source_frame_png(kind: &str, bytes: &[u8], frame_index: u32) -> (r: Result<SourceFrame, String>)
    ensures
        kind@ == "equirectangular-image"@ ==> {
            &&& frame_index != 0 ==> (r matches Err(m) && m@ == "single-image source only has frame 0"@)
            &&& frame_index == 0 ==> png_result_is(r, spec_png_of(bytes@, "image"@))
        },
        kind@ == "equirectangular-image-sequence"@ ==> match zip_archive_entries(bytes@) {
            None => r matches Err(m) && m@ == "open zip"@,
            Some(ents) => exists|q: Seq<int>|
                #![trigger is_zip_play_order(ents, q)]
                is_zip_play_order(ents, q) && png_result_is(r, spec_sequence_frame(ents, q, frame_index)),
        },
        kind@ == "equirectangular-video"@ ==> r == Ok::<SourceFrame, String>(SourceFrame::Video),
        !(kind@ == "equirectangular-image"@ || kind@ == "equirectangular-image-sequence"@ || kind@
            == "equirectangular-video"@) ==> (r matches Err(m) && m@ == "unsupported source kind: "@ + kind@),
{
    proof {
        reveal_strlit("equirectangular-image");
        reveal_strlit("equirectangular-image-sequence");
        reveal_strlit("equirectangular-video");
        assert("equirectangular-image"@.len() != "equirectangular-image-sequence"@.len());
        assert("equirectangular-video"@.len() != "equirectangular-image-sequence"@.len());
        assert("equirectangular-image"@[16] != "equirectangular-video"@[16]);
    }
    if str_eq(kind, "equirectangular-image") {
        if frame_index != 0 {
            return Err(String::from_str("single-image source only has frame 0"));
        }
        let name = String::from_str("image");
        return png_of(bytes, &name);
    }
    if str_eq(kind, "equirectangular-image-sequence") {
        let es = match read_zip_entries(bytes) {
            Some(v) => v,
            None => {
                return Err(String::from_str("open zip"));
            },
        };
        let ghost ev = entries_view(es@);
        let order = zip_play_order(&es);
        let ghost q = order@.map_values(|x: usize| x as int);
        assert(is_zip_play_order(ev, q));
        let r: Result<SourceFrame, String> = if order.len() == 0 {
            Err(String::from_str("zip contains no png/jpeg images"))
        } else if frame_index as usize >= order.len() {
            let mut e = String::from_str("zip frame index ");
            push_decimal(&mut e, frame_index as u64);
            e.append(" out of range");
            Err(e)
        } else {
            proof {
                let p = choose|p: Seq<int>| {
                    &&& is_frame_order(frame_entry_names(ev), p)
                    &&& q.len() == p.len()
                    &&& forall|k: int| 0 <= k < q.len() ==> #[trigger] q[k] == frame_positions(ev)[p[k]]
                };
                lemma_frame_positions(ev);
                assert(q[frame_index as int] == frame_positions(ev)[p[frame_index as int]]);
            }
            let idx = order[frame_index as usize];
            assert(q[frame_index as int] == idx as int);
            assert(ev[idx as int] == (es@[idx as int].0, es@[idx as int].1@, opt_bytes(es@[idx as int].2)));
            match &es[idx].2 {
                None => {
                    let mut e = String::from_str("read zip entry ");
                    e.append(es[idx].1.as_str());
                    Err(e)
                },
                Some(b) => png_of(b.as_slice(), &es[idx].1),
            }
        };
        proof {
            lemma_frame_outcome(bytes@, ev, q, frame_index, r);
        }
        return r;
    }
    if str_eq(kind, "equirectangular-video") {
        return Ok(SourceFrame::Video);
    }
    let mut e = String::from_str("unsupported source kind: ");
    e.append(kind);
    Err(e)
}

/// A clip's thumbnail is its source's thumbnail frame: the clip id must be valid, and
/// built-in demo clips have none.
pub fn check_clip_thumbnail(clip_id: &str) -> (r: Result<(), String>)
    ensures
        match spec_validate_clip_id(clip_id@) {
            Err(e) => r matches Err(m) && m@ == e.spec_message(),
            Ok(()) => if DemoId::spec_parse(clip_id@) is Some {
                r matches Err(m) && m@ == "demo clips have no source thumbnail"@
            } else {
                r is Ok
            },
        },
{
    match validate_clip_id(clip_id) {
        Err(e) => Err(String::from_str(e.message())),
        Ok(()) => {
            if is_demo_id(clip_id) {
                Err(String::from_str("demo clips have no source thumbnail"))
            } else {
                Ok(())
            }
        },
    }
}

/// The source a clip's thumbnail comes from: its `sourceId`, which it must have.
pub fn thumbnail_source_id(source_id: &Option<String>) -> (r: Result<String, String>)
    ensures
        match *source_id {
            Some(s) => r matches Ok(t) && t@ == s@,
            None => r matches Err(m) && m@ == "clip has no sourceId"@,
        },
{
    match source_id {
        Some(s) => Ok(s.clone()),
        None => Err(String::from_str("clip has no sourceId")),
    }
}

/// A layout whose LED map is loaded must be named by a single path segment.
pub fn check_uv_layout_id(layout_id: &str) -> (r: Result<(), String>)
    ensures
        r is Ok <==> is_path_segment(layout_id@),
        r matches Err(m) ==> m@ == "layout id must be non-empty and must not contain path separators"@,
{
    if is_path_segment_exec(layout_id) {
        Ok(())
    } else {
        Err(String::from_str("layout id must be non-empty and must not contain path separators"))
    }
}

/// A loaded LED map must be the one asked for: its own `layoutId` equals the request.
pub fn check_ledmap_layout_id(requested: &str, found: &str) -> (r: Result<(), String>)
    ensures
        r is Ok <==> found@ == requested@,
        r matches Err(m) ==> m@ == "layout id mismatch in ledmap: got "@ + found@ + ", expected "@ + requested@,
{
    if str_eq(found, requested) {
        Ok(())
    } else {
        let mut e = String::from_str("layout id mismatch in ledmap: got ");
        e.append(found);
        e.append(", expected ");
        e.append(requested);
        Err(e)
    }
}

/// Progress shown once the first of `n` frames is converted: `100 / n`, at least 1.
pub fn first_frame_progress(n: u32) -> (r: u8)
    requires
        n > 0,
    ensures
        r == (if 100u32 / n >= 1 { 100u32 / n } else { 1 }),
{
    let q = 100u32 / n;
    if q >= 1 {
        q as u8
    } else {
        1
    }
}

/// Progress shown once frame `idx` (0-based) of `n` is converted: the share of frames
/// done in percent, kept within 2..=99.
pub fn frame_progress(idx: u32, n: u32) -> (r: u8)
    requires
        0 < n,
        idx < n,
        n <= MAX_ZIP_FRAMES,
    ensures
        r == ({
            let pct = (idx + 1) * 100 / (n as int);
            let capped = if pct > 99 { 99 } else { pct };
            if capped < 2 { 2 } else { capped }
        }),
{
    assert((idx + 1) * 100 <= 360000) by (nonlinear_arith)
        requires
            idx < n,
            n <= 3600,
    ;
    let pct = (idx + 1) * 100 / n;
    let capped = if pct > 99 { 99 } else { pct };
    if capped < 2 {
        2
    } else {
        capped as u8
    }
}


/// Display-name law: a sanitized name is non-empty, trimmed, at most 120 characters
/// long and free of control characters, and it is kept as it is when sanitized
/// again, so saving a name that was read back never changes it.
pub proof fn lemma_sanitize_display_name_clean(input: Option<Seq<char>>)
    ensures
        match spec_sanitize_display_name(input) {
            Some(w) => {
                &&& spec_sanitize_display_name(Some(w)) == Some(w)
                &&& w.len() > 0
                &&& w.len() <= 120
                &&& trim_ws(w) == w
                &&& forall|i: int| 0 <= i < w.len() ==> !is_control_char(#[trigger] w[i])
            },
            None => true,
        },
{
    if let Some(s) = input {
        let t = trim_ws(s);
        if t.len() > 0 {
            let cut = if t.len() > 120 { t.take(120) } else { t };
            let u = cut.map_values(|c: char| if is_control_char(c) { ' ' } else { c });
            let w = trim_ws(u);
            if w.len() > 0 {
                let (a, b) = lemma_trim_ws_piece(u);
                assert(trim_ws(w) == w);
                assert(w.len() <= 120);
                assert forall|i: int| 0 <= i < w.len() implies !is_control_char(#[trigger] w[i]) by {
                    assert(w[i] == u[a + i]);
                }
                let u2 = w.map_values(|c: char| if is_control_char(c) { ' ' } else { c });
                assert(u2 =~= w);
                assert(spec_sanitize_display_name(Some(w)) == Some(trim_ws(u2)));
            }
        }
    }
}

} // verus!
