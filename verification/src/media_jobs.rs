//! Conversion jobs of uploads and clips: identifiers, settings and phase changes.

use vstd::prelude::*;
use std::sync::atomic::AtomicU8;
use std::sync::Arc;
use crate::api::ApiError;
use crate::devices::{parse_uuid_bits, uuid_from_str, uuid_version};
use crate::media::{sanitize_display_name, spec_sanitize_display_name};
use crate::state::{ClipJobPhase, MediaUploadEntry, MediaUploadPhase};
use crate::strs::{chars_vec, digit_char, push_char, string_from_chars, trim_bounds, trim_ws};

verus! {

/// Equirectangular clip size when a request states none.
pub const DEFAULT_WIDTH: u32 = 256;
pub const DEFAULT_HEIGHT: u32 = 128;

/// Lowest and highest frame rate a conversion accepts.
pub const MIN_CONVERT_FPS: u32 = 1;
pub const MAX_CONVERT_FPS: u32 = 120;

/// Lower-case hexadecimal digit of `d` (`0 <= d < 16`).
pub open spec fn hex_lower(d: int) -> char {
    if d < 10 {
        digit_char(d)
    } else if d == 10 {
        'a'
    } else if d == 11 {
        'b'
    } else if d == 12 {
        'c'
    } else if d == 13 {
        'd'
    } else if d == 14 {
        'e'
    } else {
        'f'
    }
}

/// The `n` lowest hexadecimal digits of `bits`, most significant first.
pub open spec fn hex_digits(bits: nat, n: nat) -> Seq<char>
    decreases n,
{
    if n == 0 {
        Seq::empty()
    } else {
        hex_digits(bits / 16, (n - 1) as nat).push(hex_lower((bits % 16) as int))
    }
}

/// Hyphenated lower-case form of a UUID value (8-4-4-4-12 hexadecimal digits), as
/// `uuid::Uuid::hyphenated` prints it.
pub open spec fn uuid_hyphenated(bits: u128) -> Seq<char> {
    let h = hex_digits(bits as nat, 32);
    h.subrange(0, 8) + "-"@ + h.subrange(8, 12) + "-"@ + h.subrange(12, 16) + "-"@ + h.subrange(16, 20)
        + "-"@ + h.subrange(20, 32)
}

/// `s` is the hyphenated form of some version-4 UUID.
pub open spec fn is_v4_hyphenated(s: Seq<char>) -> bool {
    exists|b: u128| uuid_version(b) == 4 && #[trigger] uuid_hyphenated(b) == s
}

proof fn lemma_hex_digits_len(bits: nat, n: nat)
    ensures
        hex_digits(bits, n).len() == n,
    decreases n,
{
    if n > 0 {
        lemma_hex_digits_len(bits / 16, (n - 1) as nat);
    }
}

fn hex_char(d: u128) -> (c: char)
    requires
        d < 16,
    ensures
        c == hex_lower(d as int),
{
    match d {
        0 => '0',
        1 => '1',
        2 => '2',
        3 => '3',
        4 => '4',
        5 => '5',
        6 => '6',
        7 => '7',
        8 => '8',
        9 => '9',
        10 => 'a',
        11 => 'b',
        12 => 'c',
        13 => 'd',
        14 => 'e',
        _ => 'f',
    }
}

fn push_hex_digits(v: &mut Vec<char>, bits: u128, n: usize)
    ensures
        final(v)@ == old(v)@ + hex_digits(bits as nat, n as nat),
    decreases n,
{
    if n > 0 {
        push_hex_digits(v, bits / 16, n - 1);
        v.push(hex_char(bits % 16));
    }
}

/// The hyphenated form of a UUID value.
pub fn hyphenated_uuid(bits: u128) -> (r: String)
    ensures
        r@ == uuid_hyphenated(bits),
{
    let mut h: Vec<char> = Vec::new();
    push_hex_digits(&mut h, bits, 32);
    proof {
        lemma_hex_digits_len(bits as nat, 32);
        assert(h@ =~= hex_digits(bits as nat, 32));
    }
    let mut s = String::new();
    let mut i: usize = 0;
    while i < 32
        invariant
            h@ == hex_digits(bits as nat, 32),
            h@.len() == 32,
            i <= 32,
            s@ == (if i <= 8 {
                h@.subrange(0, i as int)
            } else if i <= 12 {
                h@.subrange(0, 8) + "-"@ + h@.subrange(8, i as int)
            } else if i <= 16 {
                h@.subrange(0, 8) + "-"@ + h@.subrange(8, 12) + "-"@ + h@.subrange(12, i as int)
            } else if i <= 20 {
                h@.subrange(0, 8) + "-"@ + h@.subrange(8, 12) + "-"@ + h@.subrange(12, 16) + "-"@
                    + h@.subrange(16, i as int)
            } else {
                h@.subrange(0, 8) + "-"@ + h@.subrange(8, 12) + "-"@ + h@.subrange(12, 16) + "-"@
                    + h@.subrange(16, 20) + "-"@ + h@.subrange(20, i as int)
            }),
        decreases 32 - i,
    {
        proof {
            reveal_strlit("-");
        }
        if i == 8 || i == 12 || i == 16 || i == 20 {
            push_char(&mut s, '-');
        }
        push_char(&mut s, h[i]);
        proof {
            assert(h@.subrange(0, i + 1) =~= h@.subrange(0, i as int).push(h@[i as int]));
            if i >= 8 {
                assert(h@.subrange(8, i + 1) =~= h@.subrange(8, i as int).push(h@[i as int]));
            }
            if i >= 12 {
                assert(h@.subrange(12, i + 1) =~= h@.subrange(12, i as int).push(h@[i as int]));
            }
            if i >= 16 {
                assert(h@.subrange(16, i + 1) =~= h@.subrange(16, i as int).push(h@[i as int]));
            }
            if i >= 20 {
                assert(h@.subrange(20, i + 1) =~= h@.subrange(20, i as int).push(h@[i as int]));
            }
            assert(h@.subrange(8, 8) =~= Seq::<char>::empty());
            assert(h@.subrange(12, 12) =~= Seq::<char>::empty());
            assert(h@.subrange(16, 16) =~= Seq::<char>::empty());
            assert(h@.subrange(20, 20) =~= Seq::<char>::empty());
        }
        i += 1;
    }
    s
}

/// A fresh random UUID (`uuid::Uuid::new_v4()`) in hyphenated form. Which one comes
/// out is chance; what holds of every outcome is that it is the hyphenated form of a
/// version-4 UUID.
#[verifier::external_body]
fn new_uuid_v4_string() -> (r: String)
    ensures
        is_v4_hyphenated(r@),
{
    uuid::Uuid::new_v4().hyphenated().to_string()
}

/// The canonical id of an upload named by `raw`: the hyphenated form of the UUID that
/// `raw`, trimmed, spells; `None` (404 "unknown upload") when it spells none.
pub fn normalize_upload_id(raw: &str) -> (r: Option<String>)
    ensures
        match uuid_from_str(trim_ws(raw@)) {
            Some(b) => r matches Some(s) && s@ == uuid_hyphenated(b),
            None => r is None,
        },
{
    let v = chars_vec(raw);
    let (a, b) = trim_bounds(&v, 0, v.len());
    assert(v@.subrange(0, v.len() as int) =~= raw@);
    let t = string_from_chars(&v, a, b);
    match parse_uuid_bits(t.as_str()) {
        Some(bits) => Some(hyphenated_uuid(bits)),
        None => None,
    }
}

/// Error of a request naming an upload that is not known.
pub fn unknown_upload_error() -> (r: ApiError)
    ensures
        r.status == 404,
        r.error@ == "unknown upload"@,
{
    ApiError { status: 404, error: String::from_str("unknown upload") }
}

/// Clip id of the clip converted from upload `upload_id`.
pub fn upload_clip_id(upload_id: &str) -> (r: String)
    ensures
        r@ == "up-"@ + upload_id@,
{
    let mut s = String::from_str("up-");
    s.append(upload_id);
    s
}

/// A fresh clip id for a clip cut from a source: `clip-` and a random UUID.
pub fn new_source_clip_id() -> (r: String)
    ensures
        exists|u: Seq<char>| is_v4_hyphenated(u) && r@ == "clip-"@ + u,
{
    let u = new_uuid_v4_string();
    let mut s = String::from_str("clip-");
    s.append(u.as_str());
    s
}

/// A fresh job id: a random UUID.
pub fn new_job_id() -> (r: String)
    ensures
        is_v4_hyphenated(r@),
{
    new_uuid_v4_string()
}

/// What a conversion request asks for, with its limits applied.
#[derive(Debug, Clone)]
pub struct ConvertSettings {
    pub fps: u32,
    pub display_name: Option<String>,
    pub width: u32,
    pub height: u32,
}

/// Settings of a conversion: the frame rate clamped to 1..=120, the display name
/// sanitized, and the requested resolution with each side at least 1 (256×128 when
/// none is requested).
pub fn convert_settings(fps: u32, display_name: Option<&str>, resolution: Option<(u32, u32)>) -> (r: ConvertSettings)
    ensures
        r.fps == (if fps < MIN_CONVERT_FPS {
            MIN_CONVERT_FPS
        } else if fps > MAX_CONVERT_FPS {
            MAX_CONVERT_FPS
        } else {
            fps
        }),
        (match r.display_name {
            Some(s) => Some(s@),
            None => None::<Seq<char>>,
        }) == spec_sanitize_display_name(
            match display_name {
                Some(s) => Some(s@),
                None => None,
            },
        ),
        match resolution {
            Some((w, h)) => r.width == (if w < 1 { 1 } else { w }) && r.height == (if h < 1 { 1 } else { h }),
            None => r.width == DEFAULT_WIDTH && r.height == DEFAULT_HEIGHT,
        },
{
    let f = if fps < MIN_CONVERT_FPS {
        MIN_CONVERT_FPS
    } else if fps > MAX_CONVERT_FPS {
        MAX_CONVERT_FPS
    } else {
        fps
    };
    let (width, height) = match resolution {
        Some((w, h)) => (if w < 1 { 1 } else { w }, if h < 1 { 1 } else { h }),
        None => (DEFAULT_WIDTH, DEFAULT_HEIGHT),
    };
    ConvertSettings { fps: f, display_name: sanitize_display_name(display_name), width, height }
}

/// Starts converting an upload. Only a stored upload, or one whose last conversion
/// failed, can start; it then becomes `Converting` under a fresh job id, which is
/// returned. Any other upload is refused with 409 and left as it was.
pub fn begin_media_convert(entry: &mut MediaUploadEntry, progress: Arc<AtomicU8>) -> (r: Result<String, ApiError>)
    ensures
        (old(entry).phase is Stored || old(entry).phase is Failed) ==> (r matches Ok(j) && is_v4_hyphenated(j@)
            && final(entry).phase == (MediaUploadPhase::Converting { job_id: j, progress })
            && final(entry).source_path == old(entry).source_path),
        !(old(entry).phase is Stored || old(entry).phase is Failed) ==> (r matches Err(e) && e.status == 409
            && e.error@ == "upload is already converting or already converted"@ && *final(entry) == *old(entry)),
{
    let allowed = match &entry.phase {
        MediaUploadPhase::Stored => true,
        MediaUploadPhase::Failed { .. } => true,
        _ => false,
    };
    if !allowed {
        return Err(ApiError {
            status: 409,
            error: String::from_str("upload is already converting or already converted"),
        });
    }
    let job_id = new_job_id();
    entry.phase = MediaUploadPhase::Converting { job_id: job_id.clone(), progress };
    Ok(job_id)
}

/// Records how the conversion of job `job_id` ended: `Done` with the clip on
/// success, `Failed` with the message otherwise.
pub fn finish_media_convert(entry: &mut MediaUploadEntry, job_id: String, clip_id: String, outcome: Result<(), String>)
    ensures
        final(entry).source_path == old(entry).source_path,
        match outcome {
            Ok(()) => final(entry).phase == (MediaUploadPhase::Done { job_id, clip_id }),
            Err(m) => final(entry).phase == (MediaUploadPhase::Failed { job_id: Some(job_id), message: m }),
        },
{
    entry.phase = match outcome {
        Ok(()) => MediaUploadPhase::Done { job_id, clip_id },
        Err(message) => MediaUploadPhase::Failed { job_id: Some(job_id), message },
    };
}

/// Phase of a clip job once its conversion ended: `Done` with the clip on success,
/// `Failed` with the message otherwise.
pub fn clip_job_finished(clip_id: String, outcome: Result<(), String>) -> (r: ClipJobPhase)
    ensures
        match outcome {
            Ok(()) => r == (ClipJobPhase::Done { clip_id }),
            Err(m) => r == (ClipJobPhase::Failed { message: m }),
        },
{
    match outcome {
        Ok(()) => ClipJobPhase::Done { clip_id },
        Err(message) => ClipJobPhase::Failed { message },
    }
}

} // verus!
