//! Request-level helpers of the HTTP API: upload file kinds, upload status, defaults.

use vstd::prelude::*;
use crate::media::lower_ext;
use crate::strs::{ascii_lower_seq, path_extension_of};
use crate::mate::DEFAULT_TRANSITION_MS;
use crate::state::{ClipJobPhase, MediaUploadEntry, MediaUploadPhase, OutputMode};
use crate::clip::is_demo_id;
use crate::demos::DemoId;
use crate::strs::{
    ascii_lowercase_chars, chars_contains, chars_range_eq, chars_vec, contains_char, has_infix, path_extension,
    str_contains, string_from_chars, trim_bounds, trim_ws,
};

verus! {

/// A refused request: the HTTP status to answer with and the error text.
#[derive(Debug, Clone)]
pub struct ApiError {
    pub status: u16,
    pub error: String,
}

/// Default frame rate for media conversion.
pub fn default_media_fps() -> (r: u32)
    ensures
        r == 30,
{
    30
}

/// Breathing is on unless a request says otherwise.
pub fn default_breathing_enabled() -> (r: bool)
    ensures
        r,
{
    true
}

pub const UNSUPPORTED_UPLOAD_MESSAGE: &'static str = "only .png, .jpg/.jpeg, .zip, or video (.mp4/.webm/.mov/.mkv) are supported";

/// On-disk extension for an uploaded file: the lower-cased extension of its name
/// (`png` when there is none), with `jpeg` stored as `jpg`; other kinds are refused.
pub open spec fn spec_safe_disk_ext(file_name: Option<Seq<char>>) -> Result<Seq<char>, Seq<char>> {
    let e = match file_name {
        Some(n) => match lower_ext(n) {
            Some(x) => x,
            None => "png"@,
        },
        None => "png"@,
    };
    if e == "jpg"@ || e == "jpeg"@ {
        Ok("jpg"@)
    } else if e == "png"@ || e == "zip"@ || e == "mp4"@ || e == "webm"@ || e == "mov"@ || e == "mkv"@ {
        Ok(e)
    } else {
        Err(UNSUPPORTED_UPLOAD_MESSAGE@)
    }
}

/// Upload law: every kind the refusal message names is accepted, in any letter case.
/// A file whose extension lower-cases to `png`, `jpg`, `jpeg`, `zip`, `mp4`, `webm`, `mov`
/// or `mkv` is stored under that extension (`jpeg` as `jpg`); a file without an
/// extension, or no file name at all, is stored as `png`.
pub proof fn lemma_named_upload_kinds_accepted(name: Seq<char>, ext: Seq<char>)
    ensures
        spec_safe_disk_ext(None) == Ok::<Seq<char>, Seq<char>>("png"@),
        path_extension_of(name) is None ==> spec_safe_disk_ext(Some(name)) == Ok::<Seq<char>, Seq<char>>("png"@),
        path_extension_of(name) == Some(ext) ==> {
            let e = ascii_lower_seq(ext);
            &&& e == "png"@ ==> spec_safe_disk_ext(Some(name)) == Ok::<Seq<char>, Seq<char>>("png"@)
            &&& e == "jpg"@ ==> spec_safe_disk_ext(Some(name)) == Ok::<Seq<char>, Seq<char>>("jpg"@)
            &&& e == "jpeg"@ ==> spec_safe_disk_ext(Some(name)) == Ok::<Seq<char>, Seq<char>>("jpg"@)
            &&& e == "zip"@ ==> spec_safe_disk_ext(Some(name)) == Ok::<Seq<char>, Seq<char>>("zip"@)
            &&& e == "mp4"@ ==> spec_safe_disk_ext(Some(name)) == Ok::<Seq<char>, Seq<char>>("mp4"@)
            &&& e == "webm"@ ==> spec_safe_disk_ext(Some(name)) == Ok::<Seq<char>, Seq<char>>("webm"@)
            &&& e == "mov"@ ==> spec_safe_disk_ext(Some(name)) == Ok::<Seq<char>, Seq<char>>("mov"@)
            &&& e == "mkv"@ ==> spec_safe_disk_ext(Some(name)) == Ok::<Seq<char>, Seq<char>>("mkv"@)
        },
{
    reveal_strlit("png");
    reveal_strlit("jpg");
    reveal_strlit("jpeg");
    reveal_strlit("zip");
    reveal_strlit("mp4");
    reveal_strlit("webm");
    reveal_strlit("mov");
    reveal_strlit("mkv");
    assert("png"@[0] != "jpg"@[0] && "png"@.len() != "jpeg"@.len());
    assert("zip"@[0] != "jpg"@[0] && "zip"@.len() != "jpeg"@.len() && "zip"@[0] != "png"@[0]);
    assert("mp4"@[0] != "jpg"@[0] && "mp4"@.len() != "jpeg"@.len() && "mp4"@[0] != "png"@[0] && "mp4"@[0] != "zip"@[0]);
    assert("webm"@.len() != "jpg"@.len() && "webm"@[0] != "jpeg"@[0]);
    assert("mov"@[0] != "jpg"@[0] && "mov"@.len() != "jpeg"@.len() && "mov"@[0] != "png"@[0] && "mov"@[0] != "zip"@[0]);
    assert("mov"@[1] != "mp4"@[1]);
    assert("mkv"@[0] != "jpg"@[0] && "mkv"@.len() != "jpeg"@.len() && "mkv"@[0] != "png"@[0] && "mkv"@[0] != "zip"@[0]);
    assert("mkv"@[1] != "mp4"@[1] && "mkv"@[1] != "mov"@[1]);
}

/// Upload law: a refused upload is answered with the refusal message, and only a file
/// whose extension is none of the accepted kinds is refused.
pub proof fn lemma_upload_refusal(name: Seq<char>)
    ensures
        spec_safe_disk_ext(Some(name)) is Err ==> spec_safe_disk_ext(Some(name)) == Err::<Seq<char>, Seq<char>>(
            UNSUPPORTED_UPLOAD_MESSAGE@,
        ) && path_extension_of(name) is Some,
{
    reveal_strlit("png");
    reveal_strlit("jpg");
    reveal_strlit("jpeg");
}

pub fn safe_disk_ext(file_name: Option<&str>) -> (r: Result<&'static str, &'static str>)
    ensures
        match spec_safe_disk_ext(
            match file_name {
                Some(n) => Some(n@),
                None => None,
            },
        ) {
            Ok(x) => r matches Ok(y) && y@ == x,
            Err(m) => r matches Err(y) && y@ == m,
        },
{
    proof {
        reveal_strlit("png");
    }
    let ext: Vec<char> = match file_name {
        Some(n) => match path_extension(n) {
            Some(e) => ascii_lowercase_chars(e.as_str()),
            None => crate::strs::chars_vec("png"),
        },
        None => crate::strs::chars_vec("png"),
    };
    let k = ext.len();
    assert(ext@.subrange(0, k as int) =~= ext@);
    if chars_range_eq(&ext, 0, k, "jpg") || chars_range_eq(&ext, 0, k, "jpeg") {
        Ok("jpg")
    } else if chars_range_eq(&ext, 0, k, "png") {
        Ok("png")
    } else if chars_range_eq(&ext, 0, k, "zip") {
        Ok("zip")
    } else if chars_range_eq(&ext, 0, k, "mp4") {
        Ok("mp4")
    } else if chars_range_eq(&ext, 0, k, "webm") {
        Ok("webm")
    } else if chars_range_eq(&ext, 0, k, "mov") {
        Ok("mov")
    } else if chars_range_eq(&ext, 0, k, "mkv") {
        Ok("mkv")
    } else {
        Err(UNSUPPORTED_UPLOAD_MESSAGE)
    }
}

/// Status of an upload as the API reports it.
#[derive(Debug)]
pub struct MediaUploadStatusResponse {
    pub upload_id: String,
    pub status: &'static str,
    pub job_id: Option<String>,
    pub clip_id: Option<String>,
    pub error: Option<String>,
    pub progress: Option<u8>,
}

/// The status report of an upload in the given phase. The progress of a running
/// conversion is read from its shared counter at the time of the call.
pub fn media_status_json(upload_id: &str, entry: &MediaUploadEntry) -> (r: MediaUploadStatusResponse)
    ensures
        r.upload_id@ == upload_id@,
        match entry.phase {
            MediaUploadPhase::Stored => r.status@ == "stored"@ && r.job_id is None && r.clip_id is None
                && r.error is None && r.progress is None,
            MediaUploadPhase::Converting { job_id, progress } => r.status@ == "running"@ && r.job_id == Some(job_id)
                && r.clip_id is None && r.error is None && r.progress is Some,
            MediaUploadPhase::Done { job_id, clip_id } => r.status@ == "done"@ && r.job_id == Some(job_id)
                && r.clip_id == Some(clip_id) && r.error is None && r.progress == Some(100u8),
            MediaUploadPhase::Failed { job_id, message } => r.status@ == "failed"@ && r.job_id == job_id
                && r.clip_id is None && r.error == Some(message) && r.progress is None,
        },
{
    match &entry.phase {
        MediaUploadPhase::Stored => MediaUploadStatusResponse {
            upload_id: String::from_str(upload_id),
            status: "stored",
            job_id: None,
            clip_id: None,
            error: None,
            progress: None,
        },
        MediaUploadPhase::Converting { job_id, progress } => MediaUploadStatusResponse {
            upload_id: String::from_str(upload_id),
            status: "running",
            job_id: Some(job_id.clone()),
            clip_id: None,
            error: None,
            progress: Some(progress.load(std::sync::atomic::Ordering::Relaxed)),
        },
        MediaUploadPhase::Done { job_id, clip_id } => MediaUploadStatusResponse {
            upload_id: String::from_str(upload_id),
            status: "done",
            job_id: Some(job_id.clone()),
            clip_id: Some(clip_id.clone()),
            error: None,
            progress: Some(100),
        },
        MediaUploadPhase::Failed { job_id, message } => MediaUploadStatusResponse {
            upload_id: String::from_str(upload_id),
            status: "failed",
            job_id: match job_id {
                Some(j) => Some(j.clone()),
                None => None,
            },
            clip_id: None,
            error: Some(message.clone()),
            progress: None,
        },
    }
}

/// The 64-bit finalizer of MurmurHash3 (`fmix64`), used to spread seeds.
pub open spec fn spec_mix64(x: u64) -> u64 {
    let a = x ^ (x >> 33);
    let b = vstd::wrapping::u64_specs::wrapping_mul(a, 0xff51afd7ed558ccd);
    let c = b ^ (b >> 33);
    let d = vstd::wrapping::u64_specs::wrapping_mul(c, 0xc4ceb9fe1a85ec53);
    d ^ (d >> 33)
}

pub fn mix64(x: u64) -> (r: u64)
    ensures
        r == spec_mix64(x),
{
    let mut x = x;
    x ^= x >> 33;
    x = x.wrapping_mul(0xff51afd7ed558ccd);
    x ^= x >> 33;
    x = x.wrapping_mul(0xc4ceb9fe1a85ec53);
    x ^= x >> 33;
    x
}

/// The output mode a mode request names, or 400 "unsupported mode: {mode}".
pub fn parse_mode_request(mode: &str) -> (r: Result<OutputMode, ApiError>)
    ensures
        match OutputMode::spec_parse(mode@) {
            Some(m) => r matches Ok(x) && x == m,
            None => r matches Err(e) && e.status == 400 && e.error@ == "unsupported mode: "@ + mode@,
        },
{
    match OutputMode::parse(mode) {
        Some(m) => Ok(m),
        None => {
            let mut error = String::from_str("unsupported mode: ");
            error.append(mode);
            Err(ApiError { status: 400, error })
        },
    }
}


/// What a request wants to do with a clip.
#[derive(Debug, Clone, Copy, PartialEq, Eq)]
pub enum ClipChange {
    Edit,
    Delete,
}

/// A clip id may be edited or deleted when it is a non-empty single path segment and
/// not a built-in demo; both refusals are 400.
pub fn check_clip_changeable(clip_id: &str, change: ClipChange) -> (r: Result<(), ApiError>)
    ensures
        !(clip_id@.len() > 0 && !contains_char(clip_id@, '/') && !contains_char(clip_id@, '\\')) ==> (r matches Err(
            e,
        ) && e.status == 400 && e.error@ == "clipId must be non-empty and path-safe"@),
        (clip_id@.len() > 0 && !contains_char(clip_id@, '/') && !contains_char(clip_id@, '\\')) && DemoId::spec_parse(
            clip_id@,
        ) is Some ==> (r matches Err(e) && e.status == 400 && e.error@ == (match change {
            ClipChange::Edit => "built-in demo clips cannot be edited"@,
            ClipChange::Delete => "built-in demo clips cannot be deleted"@,
        })),
        (clip_id@.len() > 0 && !contains_char(clip_id@, '/') && !contains_char(clip_id@, '\\')) && DemoId::spec_parse(
            clip_id@,
        ) is None ==> r is Ok,
{
    let v = chars_vec(clip_id);
    if v.len() == 0 || chars_contains(&v, '/') || chars_contains(&v, '\\') {
        return Err(ApiError { status: 400, error: String::from_str("clipId must be non-empty and path-safe") });
    }
    if is_demo_id(clip_id) {
        let error = match change {
            ClipChange::Edit => String::from_str("built-in demo clips cannot be edited"),
            ClipChange::Delete => String::from_str("built-in demo clips cannot be deleted"),
        };
        return Err(ApiError { status: 400, error });
    }
    Ok(())
}

/// A clip patch must change at least one of its display name, thumbnail frame or gamma.
pub fn check_clip_patch_fields(display_name: bool, thumb_frame_index: bool, gamma: bool) -> (r: Result<(), ApiError>)
    ensures
        (display_name || thumb_frame_index || gamma) ==> r is Ok,
        !(display_name || thumb_frame_index || gamma) ==> (r matches Err(e) && e.status == 400 && e.error@
            == "at least one of displayName, thumbFrameIndex, or gamma is required"@),
{
    if display_name || thumb_frame_index || gamma {
        Ok(())
    } else {
        Err(ApiError {
            status: 400,
            error: String::from_str("at least one of displayName, thumbFrameIndex, or gamma is required"),
        })
    }
}

/// HTTP status for a failed clip deletion with error text `msg`: 404 when it says
/// "not found", 400 otherwise.
pub fn clip_delete_error_status(msg: &str) -> (r: u16)
    ensures
        r == (if has_infix(msg@, "not found"@) { 404u16 } else { 400u16 }),
{
    if str_contains(msg, "not found") {
        404
    } else {
        400
    }
}

/// HTTP status for a failed source deletion with error text `msg`: 409 when clips
/// still use it, 404 when it says "not found", 400 otherwise.
pub fn source_delete_error_status(msg: &str) -> (r: u16)
    ensures
        r == (if has_infix(msg@, "referenced by clips"@) {
            409u16
        } else if has_infix(msg@, "not found"@) {
            404u16
        } else {
            400u16
        }),
{
    if str_contains(msg, "referenced by clips") {
        409
    } else if str_contains(msg, "not found") {
        404
    } else {
        400
    }
}


/// Status of a clip job as the API reports it.
#[derive(Debug)]
pub struct ClipJobStatusResponse {
    pub job_id: String,
    pub status: &'static str,
    pub clip_id: Option<String>,
    pub error: Option<String>,
    pub progress: Option<u8>,
}

/// The status report of clip job `job_id` in the given phase. The progress of a
/// running job is read from its shared counter at the time of the call.
pub fn clip_job_status(job_id: &str, phase: &ClipJobPhase) -> (r: ClipJobStatusResponse)
    ensures
        r.job_id@ == job_id@,
        match *phase {
            ClipJobPhase::Running { progress } => r.status@ == "running"@ && r.clip_id is None && r.error is None
                && r.progress is Some,
            ClipJobPhase::Done { clip_id } => r.status@ == "done"@ && r.clip_id == Some(clip_id) && r.error is None
                && r.progress == Some(100u8),
            ClipJobPhase::Failed { message } => r.status@ == "failed"@ && r.clip_id is None && r.error == Some(message)
                && r.progress is None,
        },
{
    match phase {
        ClipJobPhase::Running { progress } => ClipJobStatusResponse {
            job_id: String::from_str(job_id),
            status: "running",
            clip_id: None,
            error: None,
            progress: Some(progress.load(std::sync::atomic::Ordering::Relaxed)),
        },
        ClipJobPhase::Done { clip_id } => ClipJobStatusResponse {
            job_id: String::from_str(job_id),
            status: "done",
            clip_id: Some(clip_id.clone()),
            error: None,
            progress: Some(100),
        },
        ClipJobPhase::Failed { message } => ClipJobStatusResponse {
            job_id: String::from_str(job_id),
            status: "failed",
            clip_id: None,
            error: Some(message.clone()),
            progress: None,
        },
    }
}

/// A mate expression request: the trimmed preset id (400 "preset must be non-empty"
/// when blank) and the transition, 480 ms unless given.
pub fn mate_expression_request(preset: &str, transition_ms: Option<u32>) -> (r: Result<(String, u32), ApiError>)
    ensures
        trim_ws(preset@).len() == 0 ==> (r matches Err(e) && e.status == 400 && e.error@ == "preset must be non-empty"@),
        trim_ws(preset@).len() > 0 ==> (r matches Ok((p, t)) && p@ == trim_ws(preset@) && t == (match transition_ms {
            Some(x) => x,
            None => DEFAULT_TRANSITION_MS,
        })),
{
    let v = chars_vec(preset);
    let (a, b) = trim_bounds(&v, 0, v.len());
    assert(v@.subrange(0, v.len() as int) =~= preset@);
    if a == b {
        return Err(ApiError { status: 400, error: String::from_str("preset must be non-empty") });
    }
    let t = match transition_ms {
        Some(x) => x,
        None => DEFAULT_TRANSITION_MS,
    };
    Ok((string_from_chars(&v, a, b), t))
}

/// HTTP status when applying a mate expression failed with `reason`: 400 for an
/// unknown preset, 500 otherwise.
pub fn mate_expression_error_status(reason: &str) -> (r: u16)
    ensures
        r == (if has_infix(reason@, "unknown mate preset"@) { 400u16 } else { 500u16 }),
{
    if str_contains(reason, "unknown mate preset") {
        400
    } else {
        500
    }
}


/// A frame loop stopped for this long or longer is stale.
pub const HEALTH_STALE_MS: u64 = 1000;

/// Health of the runtime given each device's time since its last frame-loop tick:
/// 503 "stale: output loop tick too old" when there are devices and every one of
/// them has stopped for `HEALTH_STALE_MS` (1 s) or more, 200 "ok" otherwise.
pub fn health(stale_ms: &Vec<u64>) -> (r: (u16, &'static str))
    ensures
        (stale_ms.len() > 0 && forall|i: int| 0 <= i < stale_ms.len() ==> #[trigger] stale_ms@[i] >= HEALTH_STALE_MS)
            ==> r.0 == 503 && r.1@ == "stale: output loop tick too old"@,
        !(stale_ms.len() > 0 && forall|i: int| 0 <= i < stale_ms.len() ==> #[trigger] stale_ms@[i] >= HEALTH_STALE_MS)
            ==> r.0 == 200 && r.1@ == "ok"@,
{
    let mut i: usize = 0;
    while i < stale_ms.len()
        invariant
            i <= stale_ms.len(),
            forall|k: int| 0 <= k < i ==> #[trigger] stale_ms@[k] >= HEALTH_STALE_MS,
        decreases stale_ms.len() - i,
    {
        if stale_ms[i] < HEALTH_STALE_MS {
            return (200, "ok");
        }
        i += 1;
    }
    if stale_ms.len() > 0 {
        (503, "stale: output loop tick too old")
    } else {
        (200, "ok")
    }
}

} // verus!
