//! Output-loop decisions: frame-id ordering on the wire and when a frame is sent.

use vstd::prelude::*;

verus! {

/// Frame id `a` precedes `b` in wrapping (serial-number) order: they differ and
/// `a - b` taken modulo 2^32 is negative as a 32-bit signed value.
pub open spec fn spec_frame_id_before(a: u32, b: u32) -> bool {
    a != b && vstd::wrapping::u32_specs::wrapping_sub(a, b) >= 0x8000_0000
}

pub fn frame_id_before(a: u32, b: u32) -> (r: bool)
    ensures
        r == spec_frame_id_before(a, b),
{
    a != b && a.wrapping_sub(b) >= 0x8000_0000
}

/// Ordering law: an id is before every id up to 2^31 - 1 steps ahead of it (across
/// wrap-around), and an id is never before itself.
pub proof fn lemma_frame_id_before_ahead(a: u32, k: u32)
    requires
        0 < k < 0x8000_0000,
    ensures
        spec_frame_id_before(a, vstd::wrapping::u32_specs::wrapping_add(a, k)),
        !spec_frame_id_before(vstd::wrapping::u32_specs::wrapping_add(a, k), a),
        !spec_frame_id_before(a, a),
{
}

/// Frames sent unconditionally after the output target, layout, rate or send epoch changed.
pub const FORCED_SENDS_AFTER_CHANGE: u8 = 4;

/// Consecutive failed frame sends after which the session reconnects.
pub const MAX_CONSECUTIVE_SEND_FAILURES: u32 = 60;

/// Frame id a (re)connected session sends next: the ESP's baseline on the first
/// connection, or when the id kept so far is behind it; otherwise the id kept so far.
pub fn session_frame_id(seeded: bool, current: u32, baseline: u32) -> (r: u32)
    ensures
        r == (if !seeded || spec_frame_id_before(current, baseline) { baseline } else { current }),
{
    if !seeded || frame_id_before(current, baseline) {
        baseline
    } else {
        current
    }
}

/// What the frame loop does with the frame it just rendered.
#[derive(Debug, Clone, Copy, PartialEq, Eq)]
pub enum SendAction {
    /// Send the frame.
    Frame,
    /// Nothing changed while idle: tell the ESP once that it may economise.
    LinkEconomy,
    /// Nothing to send.
    Nothing,
}

/// Send bookkeeping of one output session.
#[derive(Debug, Clone, Copy, PartialEq, Eq)]
pub struct SendState {
    /// Id of the next frame to send.
    pub frame_id: u32,
    /// Frames still to send even if unchanged.
    pub force_sends: u8,
    /// Failed sends in a row.
    pub consecutive_failures: u32,
    /// The idle economy notice was sent since the last activity.
    pub idle_link_sent: bool,
}

/// The session after a change of target, layout, rate or send epoch.
pub open spec fn spec_restart_sends(s: SendState) -> SendState {
    SendState { force_sends: FORCED_SENDS_AFTER_CHANGE, idle_link_sent: false, ..s }
}

/// The session after every datagram of a frame went out.
pub open spec fn spec_frame_sent(s: SendState) -> SendState {
    SendState {
        frame_id: vstd::wrapping::u32_specs::wrapping_add(s.frame_id, 1),
        force_sends: if s.force_sends > 0 { (s.force_sends - 1) as u8 } else { 0 },
        consecutive_failures: 0,
        ..s
    }
}

/// What to do with a rendered frame in session state `s`.
pub open spec fn spec_decide(s: SendState, unchanged: bool, idle: bool) -> SendAction {
    if !unchanged || s.force_sends > 0 {
        SendAction::Frame
    } else if idle && !s.idle_link_sent {
        SendAction::LinkEconomy
    } else {
        SendAction::Nothing
    }
}

/// The session after `n` successful sends.
pub open spec fn frames_sent(s: SendState, n: nat) -> SendState
    decreases n,
{
    if n == 0 {
        s
    } else {
        spec_frame_sent(frames_sent(s, (n - 1) as nat))
    }
}

impl SendState {
    /// A session that starts sending at `frame_id`.
    pub fn new(frame_id: u32) -> (r: Self)
        ensures
            r == (SendState { frame_id, force_sends: 0, consecutive_failures: 0, idle_link_sent: false }),
    {
        SendState { frame_id, force_sends: 0, consecutive_failures: 0, idle_link_sent: false }
    }

    /// The target, layout, rate or send epoch changed: the next frames are sent even if
    /// unchanged, and idle economy may be announced again.
    pub fn restart_sends(&mut self)
        ensures
            *final(self) == spec_restart_sends(*old(self)),
    {
        self.force_sends = FORCED_SENDS_AFTER_CHANGE;
        self.idle_link_sent = false;
    }

    /// The device left idle mode: idle economy may be announced again later.
    pub fn mark_active(&mut self)
        ensures
            *final(self) == (SendState { idle_link_sent: false, ..*old(self) }),
    {
        self.idle_link_sent = false;
    }

    /// A frame is sent when it differs from the last one sent or sends are forced;
    /// otherwise, while idle, the economy notice goes out once.
    pub fn decide(&self, unchanged: bool, idle: bool) -> (r: SendAction)
        ensures
            r == spec_decide(*self, unchanged, idle),
    {
        if !unchanged || self.force_sends > 0 {
            SendAction::Frame
        } else if idle && !self.idle_link_sent {
            SendAction::LinkEconomy
        } else {
            SendAction::Nothing
        }
    }

    /// Every datagram of the frame went out: the next frame gets the next id, one
    /// forced send is used up, and the failure streak ends.
    pub fn frame_sent(&mut self)
        ensures
            *final(self) == spec_frame_sent(*old(self)),
    {
        self.consecutive_failures = 0;
        self.frame_id = self.frame_id.wrapping_add(1);
        if self.force_sends > 0 {
            self.force_sends = self.force_sends - 1;
        }
    }

    /// A datagram of the frame could not be sent; the result tells whether the
    /// session must reconnect (the streak reached `MAX_CONSECUTIVE_SEND_FAILURES`).
    pub fn frame_failed(&mut self) -> (reconnect: bool)
        requires
            old(self).consecutive_failures < MAX_CONSECUTIVE_SEND_FAILURES,
        ensures
            *final(self) == (SendState { consecutive_failures: (old(self).consecutive_failures + 1) as u32, ..*old(self) }),
            reconnect == (final(self).consecutive_failures >= MAX_CONSECUTIVE_SEND_FAILURES),
    {
        self.consecutive_failures = self.consecutive_failures + 1;
        self.consecutive_failures >= MAX_CONSECUTIVE_SEND_FAILURES
    }

    /// The idle economy notice was sent.
    pub fn link_economy_sent(&mut self)
        ensures
            *final(self) == (SendState { idle_link_sent: true, ..*old(self) }),
    {
        self.idle_link_sent = true;
    }

    /// Once-a-second resync with the ESP: when the ESP reports `esp_frames_complete`
    /// frames and the next id is behind the id after that, jump to it (the ESP drops
    /// frames whose id is not ahead of the last it completed).
    pub fn resync(&mut self, esp_frames_complete: Option<u32>)
        ensures
            *final(self) == (match esp_frames_complete {
                Some(fc) => {
                    let baseline = vstd::wrapping::u32_specs::wrapping_add(fc, 1u32);
                    if spec_frame_id_before(old(self).frame_id, baseline) {
                        SendState { frame_id: baseline, ..*old(self) }
                    } else {
                        *old(self)
                    }
                },
                None => *old(self),
            }),
    {
        if let Some(fc) = esp_frames_complete {
            let baseline = fc.wrapping_add(1);
            if frame_id_before(self.frame_id, baseline) {
                self.frame_id = baseline;
            }
        }
    }
}

/// Forced-send law: after a change, each of the next `FORCED_SENDS_AFTER_CHANGE`
/// frames is sent even if nothing changed, and each of those sends advances the frame
/// id by one (modulo 2^32).
pub proof fn lemma_forced_sends_after_change(s: SendState, k: nat, idle: bool)
    requires
        k < FORCED_SENDS_AFTER_CHANGE,
    ensures
        spec_decide(frames_sent(spec_restart_sends(s), k), true, idle) == SendAction::Frame,
        frames_sent(spec_restart_sends(s), k).frame_id == (s.frame_id + k) % 0x1_0000_0000,
        frames_sent(spec_restart_sends(s), k).force_sends == FORCED_SENDS_AFTER_CHANGE - k,
    decreases k,
{
    if k > 0 {
        lemma_forced_sends_after_change(s, (k - 1) as nat, idle);
        let prev = frames_sent(spec_restart_sends(s), (k - 1) as nat);
        assert(vstd::wrapping::u32_specs::wrapping_add(prev.frame_id, 1) == (prev.frame_id + 1) % 0x1_0000_0000);
    }
}

/// How a STATUS datagram's layout fingerprint compares with the compiled layout's.
#[derive(Debug, Clone, Copy, PartialEq, Eq)]
pub enum LayoutHashCheck {
    /// Both known and equal.
    Match,
    /// Both known and different: the ESP runs firmware for another layout.
    Mismatch,
    /// Expected a fingerprint, the ESP sent none: cannot verify.
    Unreported,
    /// The ESP sent one, the compiled layout states none: nothing to check against.
    Unexpected,
    /// Neither is known.
    Unknown,
}

/// Compares the compiled layout's fingerprint `expected` with the one the ESP `reported`.
pub fn check_layout_hash(expected: Option<u32>, reported: Option<u32>) -> (r: LayoutHashCheck)
    ensures
        r == (match (expected, reported) {
            (Some(e), Some(h)) => if e == h { LayoutHashCheck::Match } else { LayoutHashCheck::Mismatch },
            (Some(_), None) => LayoutHashCheck::Unreported,
            (None, Some(_)) => LayoutHashCheck::Unexpected,
            (None, None) => LayoutHashCheck::Unknown,
        }),
{
    match (expected, reported) {
        (Some(e), Some(h)) => if e == h {
            LayoutHashCheck::Match
        } else {
            LayoutHashCheck::Mismatch
        },
        (Some(_), None) => LayoutHashCheck::Unreported,
        (None, Some(_)) => LayoutHashCheck::Unexpected,
        (None, None) => LayoutHashCheck::Unknown,
    }
}

/// Delay before the first reconnect attempt of a device's output loop.
pub const RECONNECT_BACKOFF_MIN_MS: u64 = 500;
/// Longest delay between reconnect attempts.
pub const RECONNECT_BACKOFF_MAX_MS: u64 = 5000;

/// Delay before the next reconnect attempt after waiting `ms`: doubled, at most 5 s.
pub fn next_reconnect_backoff_ms(ms: u64) -> (r: u64)
    ensures
        r == (if 2 * ms > RECONNECT_BACKOFF_MAX_MS { RECONNECT_BACKOFF_MAX_MS as int } else { 2 * ms }),
{
    if ms > RECONNECT_BACKOFF_MAX_MS / 2 {
        RECONNECT_BACKOFF_MAX_MS
    } else {
        2 * ms
    }
}
} // verus!
