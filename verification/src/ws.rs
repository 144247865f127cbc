//! Decisions of the per-device WebSocket channel: which command a text message is,
//! given the device's output mode.

use vstd::prelude::*;
use crate::mate::DEFAULT_TRANSITION_MS;
use crate::state::{InteractiveEffectKind, OutputMode};
use crate::strs::{chars_vec, str_eq, string_from_chars, trim_bounds, trim_ws};

verus! {

/// Pulse length when a message states none (ms).
pub const DEFAULT_PULSE_DURATION_MS: u64 = 450;

/// Shortest and longest pulse (ms).
pub const MIN_PULSE_DURATION_MS: u64 = 100;
pub const MAX_PULSE_DURATION_MS: u64 = 5000;

/// Longest expression cross-fade a message may ask for (ms).
pub const MAX_TRANSITION_MS: u64 = 10000;

/// The fields of a WebSocket text message that decide its command, each present
/// only when the JSON value has it with the right type.
#[derive(Debug, Clone)]
pub struct WsMessage {
    /// `"type"`.
    pub kind: Option<String>,
    /// `"action"`.
    pub action: Option<String>,
    /// `"effect"`.
    pub effect: Option<String>,
    /// `"enable"` (preview subscription).
    pub enable: Option<bool>,
    /// `"enabled"` (solid colour, breathing).
    pub enabled: Option<bool>,
    /// `"rotate"`.
    pub rotate: Option<bool>,
    /// `"preset"`.
    pub preset: Option<String>,
    /// `"transitionMs"` as an unsigned integer.
    pub transition_ms: Option<u64>,
    /// `"durationMs"` as an unsigned integer.
    pub duration_ms: Option<u64>,
    /// Length of `"colorRgb"` when it is an array.
    pub color_rgb_len: Option<usize>,
}

/// What a WebSocket text message asks of the device.
#[derive(Debug, Clone, PartialEq, Eq)]
pub enum WsCommand {
    /// Send the layout's UV table.
    GetLayoutUv,
    /// Answer `pong`.
    Pong,
    /// Turn preview frames on or off.
    PreviewSubscribe { enable: bool },
    /// Set the master brightness (its value is read by the caller).
    MasterSettings,
    /// An `interactive` message outside interactive mode.
    InteractiveWrongMode,
    /// Make `effect` the default pulse effect.
    SetEffect { effect: InteractiveEffectKind },
    /// `setEffect` without a known effect name.
    SetEffectMissing,
    /// Turn the solid base colour off.
    SolidOff,
    /// `setSolid` with a `colorRgb` array that is not three long.
    SolidBadColor,
    /// Turn the solid base colour on; its channels come from `colorRgb` when
    /// `from_array`, else from `r`, `g`, `b`.
    SolidOn { from_array: bool },
    /// An interactive action other than `setEffect`, `setSolid` or `pulse`.
    UnknownInteractiveAction { action: String },
    /// Add a pulse lasting `duration_ms`, with `effect` or, when `None`, the device default.
    Pulse { duration_ms: u32, effect: Option<InteractiveEffectKind> },
    /// A `mate` message outside mate mode.
    MateWrongMode,
    /// Blink now.
    MateBlink,
    /// Set breathing; `None` keeps the current switch.
    MateSetBreathing { enabled: Option<bool> },
    /// Set whether transitions rotate; `None` keeps the current setting.
    MateSetTransitionRotate { rotate: Option<bool> },
    /// `setExpression` with an empty or blank preset.
    MateExpressionMissing,
    /// Switch to `preset` over `transition_ms`.
    MateSetExpression { preset: String, transition_ms: u32 },
    /// A mate action that is not known.
    MateUnsupported { action: String },
    /// A message type that is not known (`""` when it has none).
    Unsupported { kind: String },
}

pub open spec fn opt_view(o: Option<String>) -> Option<Seq<char>> {
    match o {
        Some(s) => Some(s@),
        None => None,
    }
}

pub open spec fn view_or_empty(o: Option<String>) -> Seq<char> {
    match o {
        Some(s) => s@,
        None => Seq::empty(),
    }
}

pub open spec fn clamp_int(x: int, lo: int, hi: int) -> int {
    if x < lo {
        lo
    } else if x > hi {
        hi
    } else {
        x
    }
}

pub open spec fn spec_effect_of(o: Option<String>) -> Option<InteractiveEffectKind> {
    match o {
        Some(s) => InteractiveEffectKind::spec_parse(s@),
        None => None,
    }
}

/// The command of an `interactive` message.
pub open spec fn spec_interactive_command(m: WsMessage, mode: OutputMode, r: WsCommand) -> bool {
    if mode != OutputMode::Interactive {
        r == WsCommand::InteractiveWrongMode
    } else if opt_view(m.action) == Some("setEffect"@) {
        match spec_effect_of(m.effect) {
            Some(e) => r == (WsCommand::SetEffect { effect: e }),
            None => r == WsCommand::SetEffectMissing,
        }
    } else if opt_view(m.action) == Some("setSolid"@) {
        if !(m.enabled == Some(true)) {
            r == WsCommand::SolidOff
        } else {
            match m.color_rgb_len {
                Some(n) => if n != 3 {
                    r == WsCommand::SolidBadColor
                } else {
                    r == (WsCommand::SolidOn { from_array: true })
                },
                None => r == (WsCommand::SolidOn { from_array: false }),
            }
        }
    } else if m.action is Some && opt_view(m.action) != Some("pulse"@) {
        r matches WsCommand::UnknownInteractiveAction { action } && action@ == view_or_empty(m.action)
    } else {
        r == (WsCommand::Pulse {
            duration_ms: clamp_int(
                match m.duration_ms {
                    Some(d) => d as int,
                    None => DEFAULT_PULSE_DURATION_MS as int,
                },
                MIN_PULSE_DURATION_MS as int,
                MAX_PULSE_DURATION_MS as int,
            ) as u32,
            effect: spec_effect_of(m.effect),
        })
    }
}

/// The command of a `mate` message.
pub open spec fn spec_mate_command(m: WsMessage, mode: OutputMode, r: WsCommand) -> bool {
    let a = view_or_empty(m.action);
    if mode != OutputMode::Mate {
        r == WsCommand::MateWrongMode
    } else if a == "blink"@ {
        r == WsCommand::MateBlink
    } else if a == "setBreathing"@ {
        r == (WsCommand::MateSetBreathing { enabled: m.enabled })
    } else if a == "setTransitionRotate"@ {
        r == (WsCommand::MateSetTransitionRotate { rotate: m.rotate })
    } else if a == "setExpression"@ {
        let p = trim_ws(view_or_empty(m.preset));
        if p.len() == 0 {
            r == WsCommand::MateExpressionMissing
        } else {
            r matches WsCommand::MateSetExpression { preset, transition_ms } && preset@ == p
                && transition_ms == clamp_int(
                match m.transition_ms {
                    Some(t) => t as int,
                    None => DEFAULT_TRANSITION_MS as int,
                },
                0,
                MAX_TRANSITION_MS as int,
            )
        }
    } else {
        r matches WsCommand::MateUnsupported { action } && action@ == a
    }
}

/// The command of a WebSocket text message on a device in output mode `mode`.
pub open spec fn spec_ws_command(m: WsMessage, mode: OutputMode, r: WsCommand) -> bool {
    let kind = view_or_empty(m.kind);
    if kind == "getLayoutUv"@ {
        r == WsCommand::GetLayoutUv
    } else if kind == "ping"@ {
        r == WsCommand::Pong
    } else if kind == "previewSubscribe"@ {
        r == (WsCommand::PreviewSubscribe { enable: !(m.enable == Some(false)) })
    } else if kind == "masterSettings"@ {
        r == WsCommand::MasterSettings
    } else if kind == "interactive"@ {
        spec_interactive_command(m, mode, r)
    } else if kind == "mate"@ {
        spec_mate_command(m, mode, r)
    } else {
        r matches WsCommand::Unsupported { kind: k } && k@ == kind
    }
}

/// Channel law: on a device in mate mode, the switches of a `mate` message are passed
/// through as sent: `setTransitionRotate` carries the message's `rotate` and
/// `setBreathing` its `enabled` (absent stays absent, so the current setting is kept).
pub proof fn lemma_mate_switches_passed_through(m: WsMessage, r: WsCommand)
    requires
        opt_view(m.kind) == Some("mate"@),
        spec_ws_command(m, OutputMode::Mate, r),
    ensures
        opt_view(m.action) == Some("setTransitionRotate"@) ==> r == (WsCommand::MateSetTransitionRotate {
            rotate: m.rotate,
        }),
        opt_view(m.action) == Some("setBreathing"@) ==> r == (WsCommand::MateSetBreathing { enabled: m.enabled }),
{
    reveal_strlit("mate");
    reveal_strlit("getLayoutUv");
    reveal_strlit("ping");
    reveal_strlit("previewSubscribe");
    reveal_strlit("masterSettings");
    reveal_strlit("interactive");
    reveal_strlit("blink");
    reveal_strlit("setBreathing");
    reveal_strlit("setTransitionRotate");
    assert(view_or_empty(m.kind) == "mate"@);
    assert("mate"@ != "getLayoutUv"@ && "mate"@ != "previewSubscribe"@ && "mate"@ != "masterSettings"@);
    assert("mate"@ != "interactive"@);
    assert("mate"@ != "ping"@) by {
        assert("mate"@[0] != "ping"@[0]);
    }
    assert("setTransitionRotate"@.len() == 19 && "setBreathing"@.len() == 12 && "blink"@.len() == 5);
    assert("setTransitionRotate"@ != "blink"@ && "setTransitionRotate"@ != "setBreathing"@);
    assert("setBreathing"@ != "blink"@);
}

/// Channel law: a `mate` message on a device that is not in mate mode is answered as
/// sent in the wrong mode, whatever its action.
pub proof fn lemma_mate_outside_mate_mode(m: WsMessage, mode: OutputMode, r: WsCommand)
    requires
        opt_view(m.kind) == Some("mate"@),
        mode != OutputMode::Mate,
        spec_ws_command(m, mode, r),
    ensures
        r == WsCommand::MateWrongMode,
{
    reveal_strlit("mate");
    reveal_strlit("getLayoutUv");
    reveal_strlit("ping");
    reveal_strlit("previewSubscribe");
    reveal_strlit("masterSettings");
    reveal_strlit("interactive");
    assert(view_or_empty(m.kind) == "mate"@);
    assert("mate"@ != "getLayoutUv"@ && "mate"@ != "previewSubscribe"@ && "mate"@ != "masterSettings"@);
    assert("mate"@ != "interactive"@);
    assert("mate"@ != "ping"@) by {
        assert("mate"@[0] != "ping"@[0]);
    }
}

/// Channel law: every pulse a message asks for lasts between the shortest and the longest
/// pulse, the default length when the message states none, and every expression
/// cross-fade is at most the longest one.
pub proof fn lemma_ws_lengths_bounded(m: WsMessage, mode: OutputMode, r: WsCommand)
    requires
        spec_ws_command(m, mode, r),
    ensures
        r matches WsCommand::Pulse { duration_ms, .. } ==> MIN_PULSE_DURATION_MS <= duration_ms
            <= MAX_PULSE_DURATION_MS && (m.duration_ms is None ==> duration_ms == DEFAULT_PULSE_DURATION_MS),
        r matches WsCommand::MateSetExpression { transition_ms, .. } ==> transition_ms <= MAX_TRANSITION_MS,
{
}

fn is_opt(o: &Option<String>, lit: &str) -> (r: bool)
    ensures
        r == (opt_view(*o) == Some(lit@)),
{
    match o {
        Some(s) => str_eq(s.as_str(), lit),
        None => false,
    }
}

fn string_or_empty(o: &Option<String>) -> (r: String)
    ensures
        r@ == view_or_empty(*o),
{
    match o {
        Some(s) => s.clone(),
        None => String::new(),
    }
}

fn effect_of(o: &Option<String>) -> (r: Option<InteractiveEffectKind>)
    ensures
        r == spec_effect_of(*o),
{
    match o {
        Some(s) => InteractiveEffectKind::parse(s.as_str()),
        None => None,
    }
}

fn clamp_u64(x: u64, lo: u64, hi: u64) -> (r: u64)
    requires
        lo <= hi,
    ensures
        r == clamp_int(x as int, lo as int, hi as int),
{
    if x < lo {
        lo
    } else if x > hi {
        hi
    } else {
        x
    }
}

fn interactive_command(m: &WsMessage, mode: OutputMode) -> (r: WsCommand)
    ensures
        spec_interactive_command(*m, mode, r),
{
    match mode {
        OutputMode::Interactive => {},
        _ => return WsCommand::InteractiveWrongMode,
    }
    if is_opt(&m.action, "setEffect") {
        return match effect_of(&m.effect) {
            Some(e) => WsCommand::SetEffect { effect: e },
            None => WsCommand::SetEffectMissing,
        };
    }
    if is_opt(&m.action, "setSolid") {
        let on = match m.enabled {
            Some(b) => b,
            None => false,
        };
        if !on {
            return WsCommand::SolidOff;
        }
        return match m.color_rgb_len {
            Some(n) => if n != 3 {
                WsCommand::SolidBadColor
            } else {
                WsCommand::SolidOn { from_array: true }
            },
            None => WsCommand::SolidOn { from_array: false },
        };
    }
    if m.action.is_some() && !is_opt(&m.action, "pulse") {
        return WsCommand::UnknownInteractiveAction { action: string_or_empty(&m.action) };
    }
    let d = match m.duration_ms {
        Some(d) => d,
        None => DEFAULT_PULSE_DURATION_MS,
    };
    let d = clamp_u64(d, MIN_PULSE_DURATION_MS, MAX_PULSE_DURATION_MS);
    WsCommand::Pulse { duration_ms: d as u32, effect: effect_of(&m.effect) }
}

fn mate_command(m: &WsMessage, mode: OutputMode) -> (r: WsCommand)
    ensures
        spec_mate_command(*m, mode, r),
{
    match mode {
        OutputMode::Mate => {},
        _ => return WsCommand::MateWrongMode,
    }
    let action = string_or_empty(&m.action);
    if str_eq(action.as_str(), "blink") {
        WsCommand::MateBlink
    } else if str_eq(action.as_str(), "setBreathing") {
        WsCommand::MateSetBreathing { enabled: m.enabled }
    } else if str_eq(action.as_str(), "setTransitionRotate") {
        WsCommand::MateSetTransitionRotate { rotate: m.rotate }
    } else if str_eq(action.as_str(), "setExpression") {
        let raw = string_or_empty(&m.preset);
        let v = chars_vec(raw.as_str());
        let (a, b) = trim_bounds(&v, 0, v.len());
        assert(v@.subrange(0, v.len() as int) =~= raw@);
        if a == b {
            WsCommand::MateExpressionMissing
        } else {
            let t = match m.transition_ms {
                Some(t) => t,
                None => DEFAULT_TRANSITION_MS as u64,
            };
            let t = clamp_u64(t, 0, MAX_TRANSITION_MS);
            WsCommand::MateSetExpression { preset: string_from_chars(&v, a, b), transition_ms: t as u32 }
        }
    } else {
        WsCommand::MateUnsupported { action }
    }
}

/// Decides what a WebSocket text message asks of a device in output mode `mode`:
/// its `type` picks the family, and within `interactive` and `mate` the device's
/// mode and the `action` field pick the command.
pub fn ws_command(m: &WsMessage, mode: OutputMode) -> (r: WsCommand)
    ensures
        spec_ws_command(*m, mode, r),
{
    let kind = string_or_empty(&m.kind);
    if str_eq(kind.as_str(), "getLayoutUv") {
        WsCommand::GetLayoutUv
    } else if str_eq(kind.as_str(), "ping") {
        WsCommand::Pong
    } else if str_eq(kind.as_str(), "previewSubscribe") {
        let enable = match m.enable {
            Some(b) => b,
            None => true,
        };
        WsCommand::PreviewSubscribe { enable }
    } else if str_eq(kind.as_str(), "masterSettings") {
        WsCommand::MasterSettings
    } else if str_eq(kind.as_str(), "interactive") {
        interactive_command(m, mode)
    } else if str_eq(kind.as_str(), "mate") {
        mate_command(m, mode)
    } else {
        WsCommand::Unsupported { kind }
    }
}

} // verus!
