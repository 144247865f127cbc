//! Per-device runtime decisions: interactive pulse queue, base colour, wire frame ids.

use vstd::prelude::*;
use crate::state::MAX_INTERACTIVE_PULSES;

verus! {

/// The pulse queue after adding `x` to `q`: only the newest `MAX_INTERACTIVE_PULSES` are kept.
pub open spec fn capped_push<T>(q: Seq<T>, x: T) -> Seq<T> {
    let s = q.push(x);
    if s.len() > MAX_INTERACTIVE_PULSES {
        s.skip(s.len() - MAX_INTERACTIVE_PULSES)
    } else {
        s
    }
}

/// Adds a pulse; the oldest pulses are dropped beyond `MAX_INTERACTIVE_PULSES`.
pub fn push_interactive_pulse<T>(pulses: &mut Vec<T>, pulse: T)
    ensures
        final(pulses)@ == capped_push(old(pulses)@, pulse),
{
    pulses.push(pulse);
    let ghost full = pulses@;
    while pulses.len() > MAX_INTERACTIVE_PULSES
        invariant
            full == old(pulses)@.push(pulse),
            pulses.len() <= full.len(),
            full.len() > MAX_INTERACTIVE_PULSES ==> pulses.len() >= MAX_INTERACTIVE_PULSES,
            full.len() <= MAX_INTERACTIVE_PULSES ==> pulses.len() == full.len(),
            pulses@ == full.skip(full.len() - pulses.len()),
        decreases pulses.len(),
    {
        let ghost before = pulses@;
        pulses.remove(0);
        assert(pulses@ =~= full.skip(full.len() - pulses.len()));
    }
    proof {
        if full.len() <= MAX_INTERACTIVE_PULSES {
            assert(full.skip(0) =~= full);
        }
    }
}

/// `frame_id` to start sending with, given the ESP's last `frames_complete`: one past it
/// (wrapping), or 0 when the ESP has not reported yet.
pub fn wire_frame_id_from_status(esp_frames_complete: Option<u32>) -> (r: u32)
    ensures
        r == (match esp_frames_complete {
            Some(n) => vstd::wrapping::u32_specs::wrapping_add(n, 1),
            None => 0,
        }),
{
    match esp_frames_complete {
        Some(n) => n.wrapping_add(1),
        None => 0,
    }
}

/// Base frame of interactive mode: every whole RGB triple set to the solid colour,
/// or the whole buffer cleared to black when there is none.
pub fn fill_interactive_base(solid: Option<[u8; 3]>, rgb: &mut [u8])
    ensures
        final(rgb)@.len() == old(rgb)@.len(),
        match solid {
            Some(c) => forall|k: int|
                0 <= k < old(rgb)@.len() ==> #[trigger] final(rgb)@[k] == (if k < old(rgb)@.len() / 3 * 3 {
                    c[k % 3]
                } else {
                    old(rgb)@[k]
                }),
            None => forall|k: int| 0 <= k < old(rgb)@.len() ==> #[trigger] final(rgb)@[k] == 0,
        },
{
    let n = rgb.len();
    match solid {
        Some(c) => {
            let whole = n / 3;
            let mut p: usize = 0;
            while p < whole
                invariant
                    n == rgb@.len() == old(rgb)@.len(),
                    whole == n / 3,
                    p <= whole,
                    forall|k: int| 0 <= k < 3 * p ==> #[trigger] rgb@[k] == c[k % 3],
                    forall|k: int| 3 * p <= k < n ==> #[trigger] rgb@[k] == old(rgb)@[k],
                decreases whole - p,
            {
                let o = p * 3;
                rgb[o] = c[0];
                rgb[o + 1] = c[1];
                rgb[o + 2] = c[2];
                proof {
                    let b = 3 * p as int;
                    assert(b % 3 == 0 && (b + 1) % 3 == 1 && (b + 2) % 3 == 2);
                }
                p += 1;
            }
        },
        None => {
            let mut k: usize = 0;
            while k < n
                invariant
                    n == rgb@.len() == old(rgb)@.len(),
                    k <= n,
                    forall|j: int| 0 <= j < k ==> #[trigger] rgb@[j] == 0,
                decreases n - k,
            {
                rgb[k] = 0;
                k += 1;
            }
        },
    }
}

} // verus!
