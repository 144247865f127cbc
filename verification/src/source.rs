//! Source media entities: identifiers, manifests and summaries.

use vstd::prelude::*;
use crate::media::{
    is_video_file_public, is_zip_file_public, is_zip_play_order, is_zip_signature, lower_ext, probe_result_is,
    probe_zip_image_sequence, sanitize_display_name, spec_is_video_file, spec_probe_zip, spec_sanitize_display_name,
    zip_archive_entries,
};
use crate::mate::stamp_import::{decode_rgba, decoded_rgba};
use crate::strs::{chars_contains, chars_vec, contains_char, decimal, push_decimal, str_eq};

verus! {

/// Metadata file of a source entity (its JSON description).
#[derive(Debug)]
pub struct SourceManifest {
    pub format: String,
    pub id: String,
    pub kind: String,
    pub frame_count: u32,
    pub width: u32,
    pub height: u32,
    pub fps: Option<u32>,
    pub created_at_unix_sec: u64,
    pub display_name: Option<String>,
}

/// What the API lists for a source.
#[derive(Debug)]
pub struct SourceSummary {
    pub id: String,
    pub kind: String,
    pub frame_count: u32,
    pub width: u32,
    pub height: u32,
    pub fps: Option<u32>,
    pub created_at_unix_sec: u64,
    pub display_name: Option<String>,
}

/// Why a source id was refused: "source id must be non-empty and path-safe".
#[derive(Debug, Clone, Copy, PartialEq, Eq)]
pub struct SourceIdError;

/// `s` contains two consecutive dots.
pub open spec fn has_dot_dot(s: Seq<char>) -> bool {
    exists|i: int| 0 <= i < s.len() - 1 && #[trigger] s[i] == '.' && s[i + 1] == '.'
}

/// Source ids are single path segments without `..`.
pub fn validate_source_id(id: &str) -> (r: Result<(), SourceIdError>)
    ensures
        r is Ok <==> (id@.len() > 0 && !contains_char(id@, '/') && !contains_char(id@, '\\') && !has_dot_dot(id@)),
{
    let v = chars_vec(id);
    if v.len() == 0 || chars_contains(&v, '/') || chars_contains(&v, '\\') {
        return Err(SourceIdError);
    }
    let mut i: usize = 0;
    while i < v.len() - 1
        invariant
            v.len() > 0,
            v@ == id@,
            forall|k: int| 0 <= k < i && k < v.len() - 1 ==> !(#[trigger] v@[k] == '.' && v@[k + 1] == '.'),
        decreases v.len() - i,
    {
        if v[i] == '.' && v[i + 1] == '.' {
            return Err(SourceIdError);
        }
        i += 1;
    }
    Ok(())
}

/// The summary of a source manifest.
pub fn summary_from_manifest(m: &SourceManifest) -> (r: SourceSummary)
    ensures
        r.id == m.id,
        r.kind == m.kind,
        r.frame_count == m.frame_count,
        r.width == m.width,
        r.height == m.height,
        r.fps == m.fps,
        r.created_at_unix_sec == m.created_at_unix_sec,
        r.display_name == m.display_name,
{
    SourceSummary {
        id: m.id.clone(),
        kind: m.kind.clone(),
        frame_count: m.frame_count,
        width: m.width,
        height: m.height,
        fps: m.fps,
        created_at_unix_sec: m.created_at_unix_sec,
        display_name: match &m.display_name {
            Some(d) => Some(d.clone()),
            None => None,
        },
    }
}

pub open spec fn opt_str_view(o: Option<String>) -> Option<Seq<char>> {
    match o {
        Some(s) => Some(s@),
        None => None,
    }
}

/// A manifest is read only in the `glowbe-source` format; others are refused with
/// "unsupported source format: {format}".
pub fn check_source_manifest_format(m: &SourceManifest) -> (r: Result<(), String>)
    ensures
        m.format@ == "glowbe-source"@ ==> r is Ok,
        m.format@ != "glowbe-source"@ ==> (r matches Err(e) && e@ == "unsupported source format: "@ + m.format@),
{
    if str_eq(m.format.as_str(), "glowbe-source") {
        Ok(())
    } else {
        let mut e = String::from_str("unsupported source format: ");
        e.append(m.format.as_str());
        Err(e)
    }
}

/// Renames source `source_id`, whose manifest is `m`: a source id that is not a
/// single path segment without `..` is refused (before any file of it would be read)
/// and leaves `m` as it was; otherwise the display name becomes the sanitized
/// `display_name` (removed when blank) and every other field stays.
pub fn set_source_display_name(source_id: &str, m: &mut SourceManifest, display_name: Option<&str>) -> (r: Result<
    (),
    SourceIdError,
>)
    ensures
        r is Ok <==> (source_id@.len() > 0 && !contains_char(source_id@, '/') && !contains_char(source_id@, '\\')
            && !has_dot_dot(source_id@)),
        r is Err ==> *final(m) == *old(m),
        r is Ok ==> opt_str_view(final(m).display_name) == spec_sanitize_display_name(
            match display_name {
                Some(s) => Some(s@),
                None => None,
            },
        ),
        final(m).format == old(m).format,
        final(m).id == old(m).id,
        final(m).kind == old(m).kind,
        final(m).frame_count == old(m).frame_count,
        final(m).width == old(m).width,
        final(m).height == old(m).height,
        final(m).fps == old(m).fps,
        final(m).created_at_unix_sec == old(m).created_at_unix_sec,
{
    validate_source_id(source_id)?;
    m.display_name = sanitize_display_name(display_name);
    Ok(())
}

/// Frame `frame_index` of a source can be exported when the source is a video (any
/// index) or the index is below its frame count; the result is the frame rate to
/// decode with (30 when the manifest states none). Otherwise the error reads
/// "frame index {i} out of range (frameCount={n})".
pub fn check_source_frame_index(m: &SourceManifest, frame_index: u32) -> (r: Result<u32, String>)
    ensures
        (m.kind@ == "equirectangular-video"@ || frame_index < m.frame_count) ==> r == Ok::<u32, String>(
            match m.fps {
                Some(f) => f,
                None => 30,
            },
        ),
        !(m.kind@ == "equirectangular-video"@ || frame_index < m.frame_count) ==> (r matches Err(e) && e@
            == "frame index "@ + decimal(frame_index as nat) + " out of range (frameCount="@ + decimal(
            m.frame_count as nat,
        ) + ")"@),
{
    if !str_eq(m.kind.as_str(), "equirectangular-video") && frame_index >= m.frame_count {
        let mut e = String::from_str("frame index ");
        push_decimal(&mut e, frame_index as u64);
        e.append(" out of range (frameCount=");
        push_decimal(&mut e, m.frame_count as u64);
        e.append(")");
        return Err(e);
    }
    Ok(match m.fps {
        Some(f) => f,
        None => 30,
    })
}

/// Source `x` is listed before source `y` of `v`: newer first, ties in input order.
pub open spec fn newer_before(v: Seq<SourceSummary>, x: int, y: int) -> bool {
    v[x].created_at_unix_sec > v[y].created_at_unix_sec || (v[x].created_at_unix_sec
        == v[y].created_at_unix_sec && x < y)
}

/// `p` lists every index of `v` once, in listing order.
pub open spec fn is_newest_first_order(v: Seq<SourceSummary>, p: Seq<int>) -> bool {
    &&& p.len() == v.len()
    &&& forall|i: int| 0 <= i < p.len() ==> 0 <= #[trigger] p[i] < v.len()
    &&& forall|i: int, j: int| 0 <= i < j < p.len() ==> newer_before(v, #[trigger] p[i], #[trigger] p[j])
}

/// Sorts sources newest first (stable: equally old sources keep their order).
pub fn sort_sources_newest_first(v: Vec<SourceSummary>) -> (r: Vec<SourceSummary>)
    ensures
        exists|p: Seq<int>| {
            &&& is_newest_first_order(v@, p)
            &&& r.len() == p.len()
            &&& forall|i: int| 0 <= i < r.len() ==> #[trigger] r@[i] == v@[p[i]]
        },
{
    let ghost all = v@;
    let n = v.len();
    let mut rest = v;
    let mut out: Vec<SourceSummary> = Vec::new();
    let ghost mut p: Seq<int> = Seq::empty();
    let mut m: usize = 0;
    while rest.len() > 0
        invariant
            all.len() == n,
            m + rest@.len() == all.len(),
            rest@ == all.skip(m as int),
            is_newest_first_order(all.take(m as int), p),
            out.len() == p.len(),
            forall|i: int| 0 <= i < p.len() ==> #[trigger] out@[i] == all[p[i]],
        decreases rest@.len(),
    {
        let x = rest.remove(0);
        assert(x == all[m as int]);
        let key = x.created_at_unix_sec;
        let mut j: usize = 0;
        while j < out.len() && out[j].created_at_unix_sec >= key
            invariant
                j <= out.len(),
                forall|i: int| 0 <= i < j ==> (#[trigger] out@[i]).created_at_unix_sec >= key,
            decreases out.len() - j,
        {
            j += 1;
        }
        let ghost old_out = out@;
        let ghost p2 = p.insert(j as int, m as int);
        let ghost took = all.take(m + 1);
        proof {
            assert(all.take(m as int) =~= took.drop_last());
            assert forall|i: int| 0 <= i < p2.len() implies 0 <= #[trigger] p2[i] < took.len() by {
                if i < j {
                    assert(p2[i] == p[i]);
                } else if i > j {
                    assert(p2[i] == p[i - 1]);
                }
            }
            assert forall|a: int, b: int| 0 <= a < b < p2.len() implies newer_before(took, #[trigger] p2[a], #[trigger] p2[b]) by {
                if b < j {
                    assert(p2[a] == p[a] && p2[b] == p[b]);
                    assert(newer_before(all.take(m as int), p[a], p[b]));
                } else if a > j {
                    assert(p2[a] == p[a - 1] && p2[b] == p[b - 1]);
                    assert(newer_before(all.take(m as int), p[a - 1], p[b - 1]));
                } else if a < j && b > j {
                    assert(p2[a] == p[a] && p2[b] == p[b - 1]);
                    assert(newer_before(all.take(m as int), p[a], p[b - 1]));
                } else if b == j {
                    assert(p2[a] == p[a]);
                    assert(old_out[a] == all[p[a]]);
                    assert(old_out[a].created_at_unix_sec >= key);
                } else {
                    assert(a == j && b > j);
                    assert(p2[b] == p[b - 1]);
                    assert(old_out[j as int] == all[p[j as int]]);
                    assert(old_out[j as int].created_at_unix_sec < key);
                    if b - 1 > j {
                        assert(newer_before(all.take(m as int), p[j as int], p[b - 1]));
                    }
                    assert(old_out[b - 1] == all[p[b - 1]]);
                }
            }
        }
        out.insert(j, x);
        proof {
            assert forall|i: int| 0 <= i < p2.len() implies #[trigger] out@[i] == all[p2[i]] by {
                if i < j {
                    assert(out@[i] == old_out[i]);
                } else if i > j {
                    assert(out@[i] == old_out[i - 1]);
                }
            }
            p = p2;
            assert(rest@ =~= all.skip(m + 1));
        }
        m += 1;
    }
    assert(all.take(m as int) =~= all);
    out
}

/// What probing an uploaded source finds: its kind, frame count, width, height and
/// frame rate.
pub type SourceProbe = (String, u32, u32, u32, Option<u32>);

/// `r` holds the probe of an image sequence that found `out` (its first frame's width
/// and height, and its frame count).
pub open spec fn sequence_probe_is(r: Result<Option<SourceProbe>, String>, out: Result<(u32, u32, u32), Seq<char>>) -> bool {
    match out {
        Ok((w, h, n)) => r matches Ok(Some((k, fc, rw, rh, fps))) && k@ == "equirectangular-image-sequence"@
            && fc == n && rw == w && rh == h && fps is None,
        Err(e) => r matches Err(m) && m@ == e,
    }
}

/// What probing a single uploaded image finds.
pub open spec fn spec_probe_image(bytes: Seq<u8>) -> Result<(u32, u32), Seq<char>> {
    match decoded_rgba(bytes) {
        None => Err("decode image"@),
        Some((w, h, _)) => if w == 0 || h == 0 {
            Err("image has zero size"@)
        } else {
            Ok((w, h))
        },
    }
}

/// Probes an uploaded source named `file_name` with contents `bytes`. A ZIP archive
/// (by extension or signature) is an image sequence, probed by its first frame; a
/// video (by extension) is left to the video tool (`Ok(None)`); anything else is a
/// single image, which must decode and must not be empty.
pub fn probe_source_bytes(file_name: &str, bytes: &[u8]) -> (r: Result<Option<SourceProbe>, String>)
    ensures
        (lower_ext(file_name@) == Some("zip"@) || is_zip_signature(bytes@)) ==> match zip_archive_entries(bytes@) {
            None => r matches Err(m) && m@ == "open zip archive"@,
            Some(ents) => exists|q: Seq<int>|
                #![trigger is_zip_play_order(ents, q)]
                is_zip_play_order(ents, q) && sequence_probe_is(r, spec_probe_zip(ents, q)),
        },
        !(lower_ext(file_name@) == Some("zip"@) || is_zip_signature(bytes@)) && spec_is_video_file(file_name@)
            ==> r == Ok::<Option<SourceProbe>, String>(None),
        !(lower_ext(file_name@) == Some("zip"@) || is_zip_signature(bytes@)) && !spec_is_video_file(file_name@)
            ==> match spec_probe_image(bytes@) {
            Ok((w, h)) => r matches Ok(Some((k, fc, rw, rh, fps))) && k@ == "equirectangular-image"@ && fc == 1
                && rw == w && rh == h && fps is None,
            Err(e) => r matches Err(m) && m@ == e,
        },
{
    if is_zip_file_public(file_name, bytes) {
        let p = probe_zip_image_sequence(bytes);
        let r: Result<Option<SourceProbe>, String> = match p {
            Ok((w, h, n)) => Ok(Some((String::from_str("equirectangular-image-sequence"), n, w, h, None))),
            Err(e) => Err(e),
        };
        proof {
            match zip_archive_entries(bytes@) {
                Some(ents) => {
                    let q = choose|q: Seq<int>|
                        #![trigger is_zip_play_order(ents, q)]
                        is_zip_play_order(ents, q) && probe_result_is(p, spec_probe_zip(ents, q));
                    assert(is_zip_play_order(ents, q) && sequence_probe_is(r, spec_probe_zip(ents, q)));
                },
                None => {},
            }
        }
        return r;
    }
    if is_video_file_public(file_name) {
        return Ok(None);
    }
    match decode_rgba(bytes) {
        None => Err(String::from_str("decode image")),
        Some((w, h, _)) => {
            if w == 0 || h == 0 {
                Err(String::from_str("image has zero size"))
            } else {
                Ok(Some((String::from_str("equirectangular-image"), 1, w, h, None)))
            }
        },
    }
}

} // verus!
