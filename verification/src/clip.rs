//! Loop clip identifiers: built-in `demo/...` ids or a single on-disk path segment.

use vstd::prelude::*;
use crate::demos::DemoId;
use crate::strs::{chars_contains, chars_vec, contains_char, str_eq};

verus! {

/// Why a clip id was refused.
#[derive(Debug, Clone, Copy, PartialEq, Eq)]
pub enum ClipIdError {
    /// "clip id must be non-empty"
    Empty,
    /// "clip id must not contain path separators"
    PathSeparator,
    /// "clip id must not be . or .."
    DotSegment,
}

impl ClipIdError {
    /// The human-readable error text.
    pub open spec fn spec_message(self) -> Seq<char> {
        match self {
            ClipIdError::Empty => "clip id must be non-empty"@,
            ClipIdError::PathSeparator => "clip id must not contain path separators"@,
            ClipIdError::DotSegment => "clip id must not be . or .."@,
        }
    }

    pub fn message(&self) -> (r: &'static str)
        ensures
            r@ == self.spec_message(),
            r@ == (match self {
                ClipIdError::Empty => "clip id must be non-empty"@,
                ClipIdError::PathSeparator => "clip id must not contain path separators"@,
                ClipIdError::DotSegment => "clip id must not be . or .."@,
            }),
    {
        match self {
            ClipIdError::Empty => "clip id must be non-empty",
            ClipIdError::PathSeparator => "clip id must not contain path separators",
            ClipIdError::DotSegment => "clip id must not be . or ..",
        }
    }
}

pub fn is_demo_id(id: &str) -> (r: bool)
    ensures
        r == DemoId::spec_parse(id@) is Some,
{
    DemoId::parse(id).is_some()
}

/// The verdict on a clip id: empty ids are refused, built-in demo ids accepted, and any
/// other id must be a single path segment other than `.` and `..`.
pub open spec fn spec_validate_clip_id(id: Seq<char>) -> Result<(), ClipIdError> {
    if id.len() == 0 {
        Err(ClipIdError::Empty)
    } else if DemoId::spec_parse(id) is Some {
        Ok(())
    } else if contains_char(id, '/') || contains_char(id, '\\') {
        Err(ClipIdError::PathSeparator)
    } else if id == "."@ || id == ".."@ {
        Err(ClipIdError::DotSegment)
    } else {
        Ok(())
    }
}

/// A built-in `demo/...` id, or a single path segment for an on-disk clip.
pub fn validate_clip_id(id: &str) -> (r: Result<(), ClipIdError>)
    ensures
        r == spec_validate_clip_id(id@),
{
    let v = chars_vec(id);
    if v.len() == 0 {
        return Err(ClipIdError::Empty);
    }
    if DemoId::parse(id).is_some() {
        return Ok(());
    }
    if chars_contains(&v, '/') || chars_contains(&v, '\\') {
        return Err(ClipIdError::PathSeparator);
    }
    if str_eq(id, ".") || str_eq(id, "..") {
        return Err(ClipIdError::DotSegment);
    }
    Ok(())
}

} // verus!
