//! Output modes, interactive effects, loop-playback timeline and job phases.

use vstd::prelude::*;
use crate::strs::{chars_vec, str_eq};

verus! {

/// Interactive (black base + WebSocket compositing) effect kinds.
#[derive(Debug, Clone, Copy, PartialEq, Eq)]
pub enum InteractiveEffectKind {
    /// Soft gaussian spot on the sphere.
    SphereGaussian,
    /// Wavefront growing isotropically (great-circle distance) from the tap centre, with a trail.
    ExpandingRingDiagonal,
}

impl InteractiveEffectKind {
    pub open spec fn spec_name(self) -> Seq<char> {
        match self {
            InteractiveEffectKind::SphereGaussian => "sphereGaussian"@,
            InteractiveEffectKind::ExpandingRingDiagonal => "expandingRingDiagonal"@,
        }
    }

    pub open spec fn spec_parse(s: Seq<char>) -> Option<InteractiveEffectKind> {
        if s == "sphereGaussian"@ {
            Some(InteractiveEffectKind::SphereGaussian)
        } else if s == "expandingRingDiagonal"@ {
            Some(InteractiveEffectKind::ExpandingRingDiagonal)
        } else {
            None
        }
    }

    pub open spec fn spec_code(self) -> u8 {
        match self {
            InteractiveEffectKind::SphereGaussian => 0,
            InteractiveEffectKind::ExpandingRingDiagonal => 1,
        }
    }

    pub fn parse(s: &str) -> (r: Option<Self>)
        ensures
            r == InteractiveEffectKind::spec_parse(s@),
    {
        if str_eq(s, "sphereGaussian") {
            Some(Self::SphereGaussian)
        } else if str_eq(s, "expandingRingDiagonal") {
            Some(Self::ExpandingRingDiagonal)
        } else {
            None
        }
    }

    /// Decodes a stored code; unknown codes fall back to `SphereGaussian`.
    pub fn from_code(c: u8) -> (r: Self)
        ensures
            r == (if c == 1 {
                InteractiveEffectKind::ExpandingRingDiagonal
            } else {
                InteractiveEffectKind::SphereGaussian
            }),
    {
        match c {
            1 => Self::ExpandingRingDiagonal,
            _ => Self::SphereGaussian,
        }
    }

    pub fn code(self) -> (r: u8)
        ensures
            r == self.spec_code(),
    {
        match self {
            Self::SphereGaussian => 0,
            Self::ExpandingRingDiagonal => 1,
        }
    }

    pub fn as_str(self) -> (r: &'static str)
        ensures
            r@ == self.spec_name(),
    {
        match self {
            Self::SphereGaussian => "sphereGaussian",
            Self::ExpandingRingDiagonal => "expandingRingDiagonal",
        }
    }
}

/// Coding law: every effect kind survives `code` → `from_code`, and its name survives
/// `as_str` → `parse`.
pub proof fn lemma_effect_kind_roundtrip(e: InteractiveEffectKind)
    ensures
        (if e.spec_code() == 1 {
            InteractiveEffectKind::ExpandingRingDiagonal
        } else {
            InteractiveEffectKind::SphereGaussian
        }) == e,
        InteractiveEffectKind::spec_parse(e.spec_name()) == Some(e),
{
    reveal_strlit("sphereGaussian");
    reveal_strlit("expandingRingDiagonal");
    match e {
        InteractiveEffectKind::SphereGaussian => {},
        InteractiveEffectKind::ExpandingRingDiagonal => {
            assert("expandingRingDiagonal"@[0] != "sphereGaussian"@[0]);
        },
    }
}

/// Upper bound on simultaneously composited interactive pulses (oldest are dropped first).
pub const MAX_INTERACTIVE_PULSES: usize = 32;

#[derive(Debug, Clone, Copy, PartialEq, Eq)]
pub enum OutputMode {
    /// Black frames only (no WS interactive compositing).
    Idle,
    /// Sequence or test pattern.
    Loop,
    /// Black base; only WebSocket interactive pulses are composited into UDP.
    Interactive,
    /// Face-part SDF compositing (product layouts).
    Mate,
    /// Free text scrolling around the sphere.
    Text,
}

impl OutputMode {
    pub open spec fn spec_name(self) -> Seq<char> {
        match self {
            OutputMode::Idle => "idle"@,
            OutputMode::Loop => "loop"@,
            OutputMode::Interactive => "interactive"@,
            OutputMode::Mate => "mate"@,
            OutputMode::Text => "text"@,
        }
    }

    pub open spec fn spec_parse(s: Seq<char>) -> Option<OutputMode> {
        if s == "idle"@ {
            Some(OutputMode::Idle)
        } else if s == "loop"@ {
            Some(OutputMode::Loop)
        } else if s == "interactive"@ {
            Some(OutputMode::Interactive)
        } else if s == "mate"@ {
            Some(OutputMode::Mate)
        } else if s == "text"@ {
            Some(OutputMode::Text)
        } else {
            None
        }
    }

    pub open spec fn spec_code(self) -> u8 {
        match self {
            OutputMode::Idle => 0,
            OutputMode::Loop => 1,
            OutputMode::Interactive => 2,
            OutputMode::Mate => 3,
            OutputMode::Text => 4,
        }
    }

    pub open spec fn spec_from_code(code: u8) -> OutputMode {
        if code == 0 {
            OutputMode::Idle
        } else if code == 2 {
            OutputMode::Interactive
        } else if code == 3 {
            OutputMode::Mate
        } else if code == 4 {
            OutputMode::Text
        } else {
            OutputMode::Loop
        }
    }

    pub fn parse(id: &str) -> (r: Option<Self>)
        ensures
            r == OutputMode::spec_parse(id@),
    {
        if str_eq(id, "idle") {
            Some(Self::Idle)
        } else if str_eq(id, "loop") {
            Some(Self::Loop)
        } else if str_eq(id, "interactive") {
            Some(Self::Interactive)
        } else if str_eq(id, "mate") {
            Some(Self::Mate)
        } else if str_eq(id, "text") {
            Some(Self::Text)
        } else {
            None
        }
    }

    pub fn as_str(self) -> (r: &'static str)
        ensures
            r@ == self.spec_name(),
    {
        match self {
            Self::Idle => "idle",
            Self::Loop => "loop",
            Self::Interactive => "interactive",
            Self::Mate => "mate",
            Self::Text => "text",
        }
    }

    pub fn code(self) -> (r: u8)
        ensures
            r == self.spec_code(),
    {
        match self {
            Self::Idle => 0,
            Self::Loop => 1,
            Self::Interactive => 2,
            Self::Mate => 3,
            Self::Text => 4,
        }
    }

    /// Decodes a stored mode code; unknown codes fall back to `Loop`.
    pub fn from_code(code: u8) -> (r: Self)
        ensures
            r == OutputMode::spec_from_code(code),
    {
        match code {
            0 => Self::Idle,
            1 => Self::Loop,
            2 => Self::Interactive,
            3 => Self::Mate,
            4 => Self::Text,
            _ => Self::Loop,
        }
    }
}

/// Coding law: every output mode survives `code` → `from_code`, and its name survives
/// `as_str` → `parse`.
pub proof fn lemma_output_mode_roundtrip(m: OutputMode)
    ensures
        OutputMode::spec_from_code(m.spec_code()) == m,
        OutputMode::spec_parse(m.spec_name()) == Some(m),
{
    reveal_strlit("idle");
    reveal_strlit("loop");
    reveal_strlit("interactive");
    reveal_strlit("mate");
    reveal_strlit("text");
    assert("loop"@[0] != "idle"@[0]);
    assert("mate"@[0] != "idle"@[0]);
    assert("mate"@[0] != "loop"@[0]);
    assert("text"@[0] != "idle"@[0]);
    assert("text"@[0] != "loop"@[0]);
    assert("text"@[0] != "mate"@[0]);
    match m {
        OutputMode::Idle => {},
        OutputMode::Loop => {
            assert("loop"@ != "idle"@);
        },
        OutputMode::Interactive => {
            assert("interactive"@[1] != "idle"@[1]);
            assert("interactive"@[0] != "loop"@[0]);
        },
        OutputMode::Mate => {
            assert("mate"@ != "idle"@);
            assert("mate"@ != "loop"@);
            assert("mate"@[0] != "interactive"@[0]);
        },
        OutputMode::Text => {
            assert("text"@ != "idle"@);
            assert("text"@ != "loop"@);
            assert("text"@[0] != "interactive"@[0]);
            assert("text"@ != "mate"@);
        },
    }
}

/// Loop-sequence timeline. `skew` is the raw time at which playback (re)started, so that
/// `clip_elapsed = raw - skew` runs from 0; pausing freezes `frozen_effective`, resuming
/// moves `skew` so playback continues where it stopped. Times are in nanoseconds.
#[derive(Debug, Clone, Copy, Default)]
pub struct LoopPlaybackTiming {
    pub paused: bool,
    pub skew: u128,
    pub frozen_effective: u128,
}

/// `a.saturating_sub(b)` on durations.
pub open spec fn sat_sub(a: u128, b: u128) -> u128 {
    if a >= b {
        (a - b) as u128
    } else {
        0
    }
}

impl LoopPlaybackTiming {
    /// Position in the clip at raw time `raw`.
    pub open spec fn spec_elapsed(self, raw: u128) -> u128 {
        if self.paused {
            self.frozen_effective
        } else {
            sat_sub(raw, self.skew)
        }
    }

    /// Restart the timeline at raw time `raw`: the clip plays again from its start.
    pub fn reset_loop_playback_timing(&mut self, raw: u128)
        ensures
            *final(self) == (LoopPlaybackTiming { paused: false, skew: raw, frozen_effective: 0 }),
    {
        *self = LoopPlaybackTiming { paused: false, skew: raw, frozen_effective: 0 };
    }

    /// Position in the clip at raw time `raw`.
    pub fn clip_elapsed_for_loop(&self, raw: u128) -> (r: u128)
        ensures
            r == self.spec_elapsed(raw),
    {
        if self.paused {
            self.frozen_effective
        } else {
            raw.saturating_sub(self.skew)
        }
    }

    /// Freeze the clip at its position at raw time `raw`.
    pub fn pause_loop_playback(&mut self, raw: u128)
        ensures
            *final(self) == (LoopPlaybackTiming {
                paused: true,
                skew: old(self).skew,
                frozen_effective: sat_sub(raw, old(self).skew),
            }),
    {
        let eff = raw.saturating_sub(self.skew);
        self.frozen_effective = eff;
        self.paused = true;
    }

    /// Continue a paused clip from where it froze; no effect when not paused.
    pub fn resume_loop_playback(&mut self, raw: u128)
        ensures
            old(self).paused ==> *final(self) == (LoopPlaybackTiming {
                paused: false,
                skew: sat_sub(raw, old(self).frozen_effective),
                frozen_effective: old(self).frozen_effective,
            }),
            !old(self).paused ==> *final(self) == *old(self),
    {
        if !self.paused {
            return;
        }
        self.skew = raw.saturating_sub(self.frozen_effective);
        self.paused = false;
    }

    pub fn loop_playback_paused(&self) -> (r: bool)
        ensures
            r == self.paused,
    {
        self.paused
    }
}

/// Restart law: right after a reset at raw time `r`, the clip is at its start and then
/// advances one for one with raw time.
pub proof fn lemma_reset_starts_at_zero(r: u128, later: u128)
    requires
        r <= later,
    ensures
        (LoopPlaybackTiming { paused: false, skew: r, frozen_effective: 0 }).spec_elapsed(r) == 0,
        (LoopPlaybackTiming { paused: false, skew: r, frozen_effective: 0 }).spec_elapsed(later) == later - r,
{
}

/// Pause/resume law: pausing at raw time `p` and resuming at a later raw time `q`
/// continues the clip exactly where it was at `p`; while paused the position stays put.
pub proof fn lemma_pause_resume_continues(t: LoopPlaybackTiming, p: u128, mid: u128, q: u128, later: u128)
    requires
        !t.paused,
        t.skew <= p,
        p <= q,
        q <= later,
    ensures
        ({
            let paused = LoopPlaybackTiming { paused: true, skew: t.skew, frozen_effective: sat_sub(p, t.skew) };
            let resumed = LoopPlaybackTiming {
                paused: false,
                skew: sat_sub(q, paused.frozen_effective),
                frozen_effective: paused.frozen_effective,
            };
            &&& paused.spec_elapsed(mid) == t.spec_elapsed(p)
            &&& resumed.spec_elapsed(q) == t.spec_elapsed(p)
            &&& resumed.spec_elapsed(later) == t.spec_elapsed(p) + (later - q)
        }),
{
}

/// The host part of an `ip:port` address: everything before the first `:`.
pub open spec fn spec_extract_ip(addr: Seq<char>) -> Seq<char> {
    if exists|i: int| 0 <= i < addr.len() && addr[i] == ':' {
        addr.take(choose|i: int| 0 <= i < addr.len() && addr[i] == ':' && forall|j: int| 0 <= j < i ==> addr[j] != ':')
    } else {
        addr
    }
}

/// The host part of an `ip:port` address (everything before the first `:`).
pub fn extract_ip(addr: &str) -> (r: String)
    ensures
        r@ == spec_extract_ip(addr@),
{
    let v = chars_vec(addr);
    let mut i: usize = 0;
    while i < v.len() && v[i] != ':'
        invariant
            v@ == addr@,
            i <= v.len(),
            forall|j: int| 0 <= j < i ==> v@[j] != ':',
        decreases v.len() - i,
    {
        i += 1;
    }
    let r = crate::strs::string_from_chars(&v, 0, i);
    proof {
        if exists|k: int| 0 <= k < addr@.len() && addr@[k] == ':' {
            let c = choose|k: int| 0 <= k < addr@.len() && addr@[k] == ':' && forall|j: int| 0 <= j < k ==> addr@[j] != ':';
            assert(0 <= i < addr@.len() && addr@[i as int] == ':' && forall|j: int| 0 <= j < i ==> addr@[j] != ':');
            if c < i {
                assert(addr@[c] != ':');
            } else if c > i {
                assert(addr@[i as int] != ':');
            }
            assert(v@.subrange(0, i as int) =~= addr@.take(c));
        } else {
            assert(i == v.len());
            assert(v@.subrange(0, i as int) =~= addr@);
        }
    }
    r
}


/// Where a device's STATUS datagrams may come from: its configured ESP IP, the
/// address frames are sent to, and the address its last STATUS came from.
#[derive(Debug, Clone)]
pub struct StatusRoute {
    pub esp_ip: Option<String>,
    pub output_target_addr: Option<String>,
    pub esp_status_addr: Option<String>,
}

/// Device `r` is configured with ESP IP `ip`.
pub open spec fn route_by_config(r: StatusRoute, ip: Seq<char>) -> bool {
    crate::devices::trimmed_host(r.esp_ip) == Some(ip)
}

/// Device `r` sends to, or last heard from, host `ip`.
pub open spec fn route_by_addr(r: StatusRoute, ip: Seq<char>) -> bool {
    (r.output_target_addr matches Some(a) && spec_extract_ip(a@) == ip) || (r.esp_status_addr matches Some(a)
        && spec_extract_ip(a@) == ip)
}

fn matches_addr(a: &Option<String>, ip: &str) -> (r: bool)
    ensures
        r == (*a matches Some(x) && spec_extract_ip(x@) == ip@),
{
    match a {
        Some(x) => {
            let h = extract_ip(x.as_str());
            crate::strs::str_eq(h.as_str(), ip)
        },
        None => false,
    }
}

/// The device a STATUS datagram from host `ip` belongs to: the first whose configured
/// ESP IP is `ip`; failing that, the first that sends to or last heard from `ip`.
pub fn find_device_by_status_ip(routes: &Vec<StatusRoute>, ip: &str) -> (r: Option<usize>)
    ensures
        match r {
            Some(i) => i < routes.len() && (route_by_config(routes@[i as int], ip@) && (forall|j: int|
                0 <= j < i ==> !route_by_config(#[trigger] routes@[j], ip@)) || (forall|j: int|
                0 <= j < routes.len() ==> !route_by_config(#[trigger] routes@[j], ip@)) && route_by_addr(
                routes@[i as int],
                ip@,
            ) && (forall|j: int| 0 <= j < i ==> !route_by_addr(#[trigger] routes@[j], ip@))),
            None => forall|j: int|
                0 <= j < routes.len() ==> !route_by_config(#[trigger] routes@[j], ip@) && !route_by_addr(routes@[j], ip@),
        },
{
    let mut i: usize = 0;
    while i < routes.len()
        invariant
            i <= routes.len(),
            forall|j: int| 0 <= j < i ==> !route_by_config(#[trigger] routes@[j], ip@),
        decreases routes.len() - i,
    {
        let h = crate::devices::trimmed_host_of(&routes[i].esp_ip);
        let hit = match h {
            Some(x) => crate::strs::str_eq(x, ip),
            None => false,
        };
        if hit {
            return Some(i);
        }
        i += 1;
    }
    let mut k: usize = 0;
    while k < routes.len()
        invariant
            k <= routes.len(),
            forall|j: int| 0 <= j < routes.len() ==> !route_by_config(#[trigger] routes@[j], ip@),
            forall|j: int| 0 <= j < k ==> !route_by_addr(#[trigger] routes@[j], ip@),
        decreases routes.len() - k,
    {
        if matches_addr(&routes[k].output_target_addr, ip) || matches_addr(&routes[k].esp_status_addr, ip) {
            return Some(k);
        }
        k += 1;
    }
    None
}

} // verus!

verus! {

#[verifier::external_type_specification]
#[verifier::external_body]
pub struct ExPathBuf(std::path::PathBuf);

/// A file stored by `POST /api/v1/media/upload`, and the state of its conversion.
#[derive(Debug)]
pub struct MediaUploadEntry {
    pub source_path: std::path::PathBuf,
    pub phase: MediaUploadPhase,
}

#[derive(Debug)]
pub enum MediaUploadPhase {
    Stored,
    Converting { job_id: String, progress: std::sync::Arc<std::sync::atomic::AtomicU8> },
    Done { job_id: String, clip_id: String },
    Failed { job_id: Option<String>, message: String },
}

/// Asynchronous conversion job of `POST /api/v1/clips/create`.
#[derive(Debug)]
pub enum ClipJobPhase {
    Running { progress: std::sync::Arc<std::sync::atomic::AtomicU8> },
    Done { clip_id: String },
    Failed { message: String },
}

} // verus!
