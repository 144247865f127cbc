//! Which audio input feeds the visualizer: a PipeWire capture or browser ingest, and
//! the bookkeeping of switching between them. Starting and stopping the capture
//! process is the caller's part; the decisions and the state are here.

use vstd::prelude::*;
use super::types::{AudioInputDevice, AudioInputKind, AudioPlatformInfo};
use crate::strs::str_eq;

verus! {

/// Error text while browser ingest blocks host input selection.
pub const INGEST_ACTIVE_MESSAGE: &'static str = "browser audio ingest is active; stop it before selecting a host input";

/// The input selection of the audio engine.
#[derive(Debug, Clone)]
pub struct InputSelection {
    /// The input shown as selected.
    pub selected: Option<AudioInputDevice>,
    /// The PipeWire input to restore when browser ingest ends.
    pub saved_pipewire: Option<AudioInputDevice>,
    /// Browser PCM is accepted instead of a capture.
    pub ingest_active: bool,
    /// A capture process runs.
    pub capturing: bool,
    /// The last selection error, shown in snapshots.
    pub last_error: Option<String>,
}

/// What `begin_ingest` asks of the caller.
#[derive(Debug, Clone, Copy, PartialEq, Eq)]
pub enum IngestStart {
    /// Ingest was already on; nothing changed.
    AlreadyActive,
    /// Ingest is on now: stop the capture when `stop_capture`, and clear the sample
    /// ring and the analyzer.
    Started { stop_capture: bool },
}

/// What the first half of an input selection decided.
#[derive(Debug, Clone, PartialEq, Eq)]
pub enum SelectStep {
    /// Refused without any change.
    Refused { error: String },
    /// The capture (if any) is to be stopped and the ring cleared; no input is selected.
    Deselected,
    /// The capture is to be stopped and the ring cleared; audio is unavailable here.
    Unavailable { error: String },
    /// The capture is to be stopped and the ring cleared; the input `id` is to be
    /// looked up among the host's inputs and captured.
    Capture { id: String },
}

/// The device record that stands for browser ingest.
pub open spec fn is_browser_ingest_device(d: AudioInputDevice) -> bool {
    d.id@ == "browser-ingest"@ && d.name@ == "Browser audio"@ && d.kind == AudioInputKind::Monitor
}

pub open spec fn opt_view(o: Option<String>) -> Option<Seq<char>> {
    match o {
        Some(s) => Some(s@),
        None => None,
    }
}

/// `new` is `old` after `begin_ingest` answered `r`: with ingest already on nothing
/// changes; otherwise the capture stops, the selected PipeWire input is remembered
/// and the browser stands as the selected input.
pub open spec fn begin_ingest_post(old: InputSelection, new: InputSelection, r: IngestStart) -> bool {
    if old.ingest_active {
        r == IngestStart::AlreadyActive && new == old
    } else {
        &&& r == (IngestStart::Started { stop_capture: old.capturing })
        &&& !new.capturing
        &&& new.ingest_active
        &&& new.saved_pipewire == (if old.selected is Some { old.selected } else { old.saved_pipewire })
        &&& new.selected matches Some(d) && is_browser_ingest_device(d)
        &&& new.last_error is None
    }
}

/// `new` is `old` after `end_ingest` returned `restore_id`: without ingest nothing
/// changes; otherwise ingest ends, nothing stays selected and the remembered PipeWire
/// input's id is handed back.
pub open spec fn end_ingest_post(old: InputSelection, new: InputSelection, restore_id: Option<String>) -> bool {
    if !old.ingest_active {
        restore_id is None && new == old
    } else {
        &&& !new.ingest_active
        &&& new.selected is None
        &&& new.saved_pipewire is None
        &&& new.capturing == old.capturing
        &&& new.last_error == old.last_error
        &&& opt_view(restore_id) == match old.saved_pipewire {
            Some(d) => Some(d.id@),
            None => None::<Seq<char>>,
        }
    }
}

impl InputSelection {
    /// Nothing selected, nothing running.
    pub fn new() -> (r: Self)
        ensures
            r.selected is None && r.saved_pipewire is None && !r.ingest_active && !r.capturing && r.last_error is None,
    {
        InputSelection { selected: None, saved_pipewire: None, ingest_active: false, capturing: false, last_error: None }
    }

    /// The selected host input; none while browser ingest is on.
    pub fn selected_input(&self) -> (r: Option<AudioInputDevice>)
        ensures
            self.ingest_active ==> r is None,
            !self.ingest_active ==> match (r, self.selected) {
                (Some(a), Some(b)) => a.id@ == b.id@ && a.name@ == b.name@ && a.kind == b.kind,
                (None, None) => true,
                _ => false,
            },
    {
        if self.ingest_active {
            return None;
        }
        match &self.selected {
            Some(d) => Some(AudioInputDevice { id: d.id.clone(), name: d.name.clone(), kind: d.kind }),
            None => None,
        }
    }

    /// A visualizer is fed: browser ingest is on, or a capture runs for a selected input.
    pub fn connected(&self) -> (r: bool)
        ensures
            r == (self.ingest_active || (self.capturing && self.selected is Some)),
    {
        self.ingest_active || (self.capturing && self.selected.is_some())
    }

    /// Switches to browser ingest: the capture stops, the selected PipeWire input is
    /// remembered, and the browser stands as the selected input.
    pub fn begin_ingest(&mut self) -> (r: IngestStart)
        ensures
            begin_ingest_post(*old(self), *final(self), r),
    {
        if self.ingest_active {
            return IngestStart::AlreadyActive;
        }
        let stop_capture = self.capturing;
        self.capturing = false;
        if self.selected.is_some() {
            self.saved_pipewire = self.selected.take();
        }
        self.ingest_active = true;
        self.selected = Some(AudioInputDevice {
            id: String::from_str("browser-ingest"),
            name: String::from_str("Browser audio"),
            kind: AudioInputKind::Monitor,
        });
        self.last_error = None;
        IngestStart::Started { stop_capture }
    }

    /// Leaves browser ingest; the result is the PipeWire input to select again, if
    /// one was remembered. Without ingest nothing changes.
    pub fn end_ingest(&mut self) -> (restore_id: Option<String>)
        ensures
            end_ingest_post(*old(self), *final(self), restore_id),
    {
        if !self.ingest_active {
            return None;
        }
        self.ingest_active = false;
        self.selected = None;
        match self.saved_pipewire.take() {
            Some(d) => Some(d.id),
            None => None,
        }
    }

    /// First half of selecting host input `id`: refused during ingest; otherwise the
    /// capture stops and, with no id (or an empty one), nothing stays selected; where
    /// audio is unavailable the platform's reason becomes the error; else the input is
    /// to be captured.
    pub fn select_input_begin(&mut self, id: Option<&str>, platform: &AudioPlatformInfo) -> (r: SelectStep)
        ensures
            old(self).ingest_active ==> (r matches SelectStep::Refused { error } && error@ == INGEST_ACTIVE_MESSAGE@
                && *final(self) == *old(self)),
            !old(self).ingest_active ==> !final(self).capturing && !final(self).ingest_active,
            !old(self).ingest_active && !(id matches Some(s) && s@.len() > 0) ==> (r == SelectStep::Deselected
                && final(self).selected is None && final(self).saved_pipewire is None && final(self).last_error is None),
            !old(self).ingest_active && (id matches Some(s) && s@.len() > 0) && !platform.available ==> (r matches SelectStep::Unavailable { error }
                && error@ == (match platform.reason {
                    Some(m) => m@,
                    None => "audio unavailable"@,
                }) && opt_view(final(self).last_error) == Some(error@) && final(self).selected == old(self).selected
                && final(self).saved_pipewire == old(self).saved_pipewire),
            !old(self).ingest_active && (id matches Some(s) && s@.len() > 0) && platform.available ==> (r matches SelectStep::Capture { id: x }
                && id matches Some(s) && x@ == s@ && final(self).selected == old(self).selected
                && final(self).saved_pipewire == old(self).saved_pipewire && final(self).last_error == old(self).last_error),
    {
        if self.ingest_active {
            return SelectStep::Refused { error: String::from_str(INGEST_ACTIVE_MESSAGE) };
        }
        self.capturing = false;
        let id = match id {
            Some(s) => if crate::strs::chars_vec(s).len() == 0 {
                None
            } else {
                Some(s)
            },
            None => None,
        };
        let id = match id {
            Some(s) => s,
            None => {
                self.selected = None;
                self.saved_pipewire = None;
                self.last_error = None;
                return SelectStep::Deselected;
            },
        };
        if !platform.available {
            let msg = match &platform.reason {
                Some(m) => m.clone(),
                None => String::from_str("audio unavailable"),
            };
            self.last_error = Some(msg.clone());
            return SelectStep::Unavailable { error: msg };
        }
        SelectStep::Capture { id: String::from_str(id) }
    }

    /// The capture of `device` started: it is the selected input now.
    pub fn capture_started(&mut self, device: AudioInputDevice)
        ensures
            final(self).capturing,
            final(self).selected == Some(device),
            final(self).last_error is None,
            final(self).ingest_active == old(self).ingest_active,
            final(self).saved_pipewire == old(self).saved_pipewire,
    {
        self.capturing = true;
        self.selected = Some(device);
        self.last_error = None;
    }

    /// The capture could not start: nothing is selected and `error` is shown.
    pub fn capture_failed(&mut self, error: String)
        ensures
            !final(self).capturing,
            final(self).selected is None,
            final(self).last_error == Some(error),
            final(self).ingest_active == old(self).ingest_active,
            final(self).saved_pipewire == old(self).saved_pipewire,
    {
        self.capturing = false;
        self.selected = None;
        self.last_error = Some(error);
    }
}

/// The host input named `id` among `devices`, or "unknown audio input: {id}".
pub fn find_input(devices: &Vec<AudioInputDevice>, id: &str) -> (r: Result<usize, String>)
    ensures
        match r {
            Ok(i) => i < devices.len() && devices@[i as int].id@ == id@ && forall|j: int|
                0 <= j < i ==> (#[trigger] devices@[j]).id@ != id@,
            Err(e) => e@ == "unknown audio input: "@ + id@ && forall|j: int|
                0 <= j < devices.len() ==> (#[trigger] devices@[j]).id@ != id@,
        },
{
    let mut i: usize = 0;
    while i < devices.len()
        invariant
            i <= devices.len(),
            forall|j: int| 0 <= j < i ==> (#[trigger] devices@[j]).id@ != id@,
        decreases devices.len() - i,
    {
        if str_eq(devices[i].id.as_str(), id) {
            return Ok(i);
        }
        i += 1;
    }
    let mut e = String::from_str("unknown audio input: ");
    e.append(id);
    Err(e)
}

/// Ingest law: switching to browser ingest and back ends with no input selected and
/// hands back the id of the PipeWire input that was selected before, to select again.
pub proof fn lemma_ingest_round_trip_restores(
    s0: InputSelection,
    s1: InputSelection,
    r1: IngestStart,
    s2: InputSelection,
    restore_id: Option<String>,
)
    requires
        !s0.ingest_active,
        s0.selected is Some,
        begin_ingest_post(s0, s1, r1),
        end_ingest_post(s1, s2, restore_id),
    ensures
        opt_view(restore_id) == Some(s0.selected->0.id@),
        !s2.ingest_active,
        s2.selected is None,
        s2.saved_pipewire is None,
{
}

} // verus!
