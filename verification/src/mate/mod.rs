//! Mate (face) mode: presets, layers, breathing switch and layout support.

use vstd::prelude::*;
use crate::strs::{
    chars_lt, chars_vec, is_path_segment, is_path_segment_exec, lemma_seq_lt_total,
    lemma_seq_lt_transitive, seq_lt, str_eq,
};

pub mod persona;
pub mod stamp_import;

verus! {

/// Layout that mate presets are authored against.
pub const MATE_LAYOUT_ID: &'static str = "geodesic-2v-60";

/// Minimum LEDs for mate face rendering (icosahedron-15 has 225).
pub const MATE_MIN_LED_COUNT: u16 = 225;

/// Preset shown when a device first enters mate mode.
pub const DEFAULT_PRESET_ID: &'static str = "happy";

/// Default cross-fade between two expressions.
pub const DEFAULT_TRANSITION_MS: u32 = 480;

/// Default breathing period of a preset that does not state one.
pub const DEFAULT_BREATH_PERIOD_MS: u32 = 4200;

/// A layout supports mate mode when its compiled metadata states at least
/// `MATE_MIN_LED_COUNT` LEDs; an unreadable or missing count does not.
pub fn layout_supported(led_count: Option<u16>) -> (r: bool)
    ensures
        r == (led_count matches Some(n) && n >= MATE_MIN_LED_COUNT),
{
    match led_count {
        Some(n) => n >= MATE_MIN_LED_COUNT,
        None => false,
    }
}

/// Drawing layer of a face part, back to front.
#[derive(Debug, Clone, Copy, PartialEq, Eq, PartialOrd, Ord)]
pub enum Layer {
    Background,
    Cheeks,
    Mouth,
    Eyes,
    Brows,
    Accessories,
}

impl Layer {
    pub open spec fn spec_name(self) -> Seq<char> {
        match self {
            Layer::Background => "background"@,
            Layer::Cheeks => "cheeks"@,
            Layer::Mouth => "mouth"@,
            Layer::Eyes => "eyes"@,
            Layer::Brows => "brows"@,
            Layer::Accessories => "accessories"@,
        }
    }

    pub open spec fn spec_parse(s: Seq<char>) -> Option<Layer> {
        if s == "background"@ {
            Some(Layer::Background)
        } else if s == "cheeks"@ {
            Some(Layer::Cheeks)
        } else if s == "mouth"@ {
            Some(Layer::Mouth)
        } else if s == "eyes"@ {
            Some(Layer::Eyes)
        } else if s == "brows"@ {
            Some(Layer::Brows)
        } else if s == "accessories"@ {
            Some(Layer::Accessories)
        } else {
            None
        }
    }

    /// Position in the back-to-front drawing order.
    pub open spec fn spec_rank(self) -> int {
        match self {
            Layer::Background => 0,
            Layer::Cheeks => 1,
            Layer::Mouth => 2,
            Layer::Eyes => 3,
            Layer::Brows => 4,
            Layer::Accessories => 5,
        }
    }

    pub fn parse(s: &str) -> (r: Option<Self>)
        ensures
            r == Layer::spec_parse(s@),
    {
        if str_eq(s, "background") {
            Some(Self::Background)
        } else if str_eq(s, "cheeks") {
            Some(Self::Cheeks)
        } else if str_eq(s, "mouth") {
            Some(Self::Mouth)
        } else if str_eq(s, "eyes") {
            Some(Self::Eyes)
        } else if str_eq(s, "brows") {
            Some(Self::Brows)
        } else if str_eq(s, "accessories") {
            Some(Self::Accessories)
        } else {
            None
        }
    }

    /// Position in the back-to-front drawing order.
    pub fn rank(self) -> (r: u8)
        ensures
            r == self.spec_rank(),
    {
        match self {
            Self::Background => 0,
            Self::Cheeks => 1,
            Self::Mouth => 2,
            Self::Eyes => 3,
            Self::Brows => 4,
            Self::Accessories => 5,
        }
    }
}

/// Naming law: every layer's name parses back to that layer.
pub proof fn lemma_layer_roundtrip(l: Layer)
    ensures
        Layer::spec_parse(l.spec_name()) == Some(l),
{
    reveal_strlit("background");
    reveal_strlit("cheeks");
    reveal_strlit("mouth");
    reveal_strlit("eyes");
    reveal_strlit("brows");
    reveal_strlit("accessories");
    assert("cheeks"@[0] != "background"@[0]);
    assert("mouth"@[0] != "background"@[0]);
    assert("mouth"@[0] != "cheeks"@[0]);
    assert("eyes"@[0] != "background"@[0]);
    assert("eyes"@[0] != "cheeks"@[0]);
    assert("eyes"@[0] != "mouth"@[0]);
    assert("brows"@[1] != "background"@[1]);
    assert("brows"@[0] != "cheeks"@[0]);
    assert("brows"@[0] != "mouth"@[0]);
    assert("brows"@[0] != "eyes"@[0]);
    assert("accessories"@[0] != "background"@[0]);
    assert("accessories"@[0] != "cheeks"@[0]);
    assert("accessories"@[0] != "mouth"@[0]);
    assert("accessories"@[0] != "eyes"@[0]);
    assert("accessories"@[0] != "brows"@[0]);
}

/// Breathing switch of a device in mate mode.
#[derive(Debug, Clone, Copy)]
pub struct BreathingParams {
    pub enabled: bool,
}

impl Default for BreathingParams {
    fn default() -> (r: Self)
        ensures
            r.enabled,
    {
        BreathingParams { enabled: true }
    }
}

/// One row of the mate preset listing.
#[derive(Debug, Clone)]
pub struct MatePresetSummary {
    pub id: String,
    pub display_name: String,
    pub part_count: usize,
    pub source: &'static str,
    pub breathing_period_ms: u32,
}

/// Output colours of a stamp whose own design palette is `source`.
///
/// Priority: the preset's `palette` (matched by index; a slot it does not cover
/// keeps the stamp's colour), then a single-colour stamp recoloured to `color`,
/// then the stamp's own colours.
pub open spec fn spec_resolve_recolor(
    source: Seq<[u8; 3]>,
    palette: Option<Seq<[u8; 3]>>,
    color: [u8; 3],
) -> Seq<[u8; 3]> {
    match palette {
        Some(p) => Seq::new(source.len(), |i: int| if i < p.len() { p[i] } else { source[i] }),
        None => if source.len() == 1 {
            seq![color]
        } else {
            source
        },
    }
}

/// Maps a stamp's design palette to the colours it is drawn with.
pub fn resolve_recolor(
    source: &Vec<[u8; 3]>,
    preset_palette: Option<&Vec<[u8; 3]>>,
    color: [u8; 3],
) -> (r: Vec<[u8; 3]>)
    ensures
        r@ == spec_resolve_recolor(
            source@,
            match preset_palette {
                Some(p) => Some(p@),
                None => None,
            },
            color,
        ),
{
    match preset_palette {
        Some(palette) => {
            let mut out: Vec<[u8; 3]> = Vec::new();
            let mut i: usize = 0;
            while i < source.len()
                invariant
                    i <= source.len(),
                    out.len() == i,
                    forall|k: int|
                        0 <= k < i ==> #[trigger] out@[k] == (if k < palette@.len() {
                            palette@[k]
                        } else {
                            source@[k]
                        }),
                decreases source.len() - i,
            {
                if i < palette.len() {
                    out.push(palette[i]);
                } else {
                    out.push(source[i]);
                }
                i += 1;
            }
            proof {
                let want = spec_resolve_recolor(source@, Some(palette@), color);
                assert(out@ =~= want);
            }
            out
        },
        None => {
            if source.len() == 1 {
                let r = vec![color];
                proof {
                    assert(r@ =~= seq![color]);
                }
                r
            } else {
                let mut out: Vec<[u8; 3]> = Vec::new();
                let mut i: usize = 0;
                while i < source.len()
                    invariant
                        i <= source.len(),
                        out@ == source@.take(i as int),
                    decreases source.len() - i,
                {
                    out.push(source[i]);
                    proof {
                        assert(source@.take(i + 1) =~= source@.take(i as int).push(source@[i as int]));
                    }
                    i += 1;
                }
                proof {
                    assert(source@.take(i as int) =~= source@);
                }
                out
            }
        },
    }
}

/// Why a preset file is refused before its parts are resolved.
#[derive(Debug, Clone, Copy, PartialEq, Eq)]
pub enum PresetError {
    /// The file is not a version 1 `glowbe-mate-face` preset.
    UnsupportedFormat,
    /// The id is empty or holds a path separator.
    UnsafeId,
}

impl PresetError {
    pub fn message(&self) -> (r: &'static str)
        ensures
            r@ == (match self {
                PresetError::UnsupportedFormat => "unsupported preset format"@,
                PresetError::UnsafeId => "preset id must be non-empty and path-safe"@,
            }),
    {
        match self {
            PresetError::UnsupportedFormat => "unsupported preset format",
            PresetError::UnsafeId => "preset id must be non-empty and path-safe",
        }
    }
}

/// The verdict on a preset's header fields.
pub open spec fn spec_check_preset_header(format: Seq<char>, version: u32, id: Seq<char>) -> Result<
    (),
    PresetError,
> {
    if !(format == "glowbe-mate-face"@ && version == 1) {
        Err(PresetError::UnsupportedFormat)
    } else if !is_path_segment(id) {
        Err(PresetError::UnsafeId)
    } else {
        Ok(())
    }
}

/// Checks a preset's format tag, version and id before its parts are read.
pub fn check_preset_header(format: &str, version: u32, id: &str) -> (r: Result<(), PresetError>)
    ensures
        r == spec_check_preset_header(format@, version, id@),
{
    if !(str_eq(format, "glowbe-mate-face") && version == 1) {
        Err(PresetError::UnsupportedFormat)
    } else if !is_path_segment_exec(id) {
        Err(PresetError::UnsafeId)
    } else {
        Ok(())
    }
}

/// `v` without the summaries whose id is `id`, in order.
pub open spec fn without_id(v: Seq<MatePresetSummary>, id: Seq<char>) -> Seq<MatePresetSummary>
    decreases v.len(),
{
    if v.len() == 0 {
        v
    } else {
        let rest = without_id(v.drop_last(), id);
        if v.last().id@ == id {
            rest
        } else {
            rest.push(v.last())
        }
    }
}

/// Records a newly loaded preset in the listing: an earlier entry with the same id
/// is dropped and the new one goes last.
pub fn upsert_summary(summaries: &mut Vec<MatePresetSummary>, summary: MatePresetSummary)
    ensures
        final(summaries)@ == without_id(old(summaries)@, summary.id@).push(summary),
{
    let ghost orig = summaries@;
    assert(orig.len() == summaries.len());
    let mut i: usize = 0;
    let mut k: usize = 0;
    proof {
        assert(orig.take(0) =~= Seq::<MatePresetSummary>::empty());
        assert(orig.skip(0) =~= orig);
        assert(summaries@ =~= without_id(orig.take(0), summary.id@) + orig.skip(0));
    }
    while i < summaries.len()
        invariant
            k <= orig.len(),
            orig.len() <= usize::MAX,
            i == without_id(orig.take(k as int), summary.id@).len(),
            summaries@ == without_id(orig.take(k as int), summary.id@) + orig.skip(k as int),
        decreases summaries.len() - i,
    {
        let ghost done = without_id(orig.take(k as int), summary.id@);
        assert(summaries@.len() == done.len() + orig.skip(k as int).len());
        assert(k < orig.len());
        assert(summaries@[i as int] == orig[k as int]);
        assert(orig.take(k + 1).drop_last() =~= orig.take(k as int));
        assert(orig.take(k + 1).last() == orig[k as int]);
        if str_eq(summaries[i].id.as_str(), summary.id.as_str()) {
            summaries.remove(i);
            proof {
                assert(summaries@ =~= done + orig.skip(k + 1));
            }
        } else {
            proof {
                assert(summaries@ =~= done.push(orig[k as int]) + orig.skip(k + 1));
            }
            i += 1;
        }
        k += 1;
    }
    proof {
        assert(orig.skip(k as int).len() == 0);
        assert(k == orig.len());
        assert(orig.take(k as int) =~= orig);
        assert(summaries@ =~= without_id(orig, summary.id@));
    }
    summaries.push(summary);
}

/// No two summaries of `v` share an id.
pub open spec fn ids_unique(v: Seq<MatePresetSummary>) -> bool {
    forall|a: int, b: int| 0 <= a < b < v.len() ==> (#[trigger] v[a]).id@ != (#[trigger] v[b]).id@
}

proof fn lemma_without_id_facts(v: Seq<MatePresetSummary>, id: Seq<char>)
    ensures
        forall|i: int|
            0 <= i < without_id(v, id).len() ==> (#[trigger] without_id(v, id)[i]).id@ != id
                && v.contains(without_id(v, id)[i]),
        ids_unique(v) ==> ids_unique(without_id(v, id)),
    decreases v.len(),
{
    if v.len() > 0 {
        let u = v.drop_last();
        lemma_without_id_facts(u, id);
        let rest = without_id(u, id);
        assert forall|i: int| 0 <= i < rest.len() implies v.contains(#[trigger] rest[i]) by {
            let j = choose|j: int| 0 <= j < u.len() && u[j] == rest[i];
            assert(v[j] == rest[i]);
        }
        if ids_unique(v) {
            assert(ids_unique(u)) by {
                assert forall|a: int, b: int| 0 <= a < b < u.len() implies (#[trigger] u[a]).id@
                    != (#[trigger] u[b]).id@ by {
                    assert(u[a] == v[a] && u[b] == v[b]);
                }
            }
            if v.last().id@ != id {
                let w = rest.push(v.last());
                assert forall|a: int, b: int| 0 <= a < b < w.len() implies (#[trigger] w[a]).id@
                    != (#[trigger] w[b]).id@ by {
                    if b == w.len() - 1 {
                        assert(w[a] == rest[a]);
                        assert(u.contains(rest[a]));
                        let j = choose|j: int| 0 <= j < u.len() && u[j] == rest[a];
                        assert(v[j] == u[j]);
                        assert(v[v.len() - 1] == v.last());
                    } else {
                        assert(w[a] == rest[a] && w[b] == rest[b]);
                    }
                }
            }
        }
    }
}

/// Listing law: recording a preset keeps the listing free of duplicate ids, and the
/// recorded preset is its last entry.
pub proof fn lemma_upsert_keeps_ids_unique(v: Seq<MatePresetSummary>, s: MatePresetSummary)
    requires
        ids_unique(v),
    ensures
        ids_unique(without_id(v, s.id@).push(s)),
        without_id(v, s.id@).push(s).last() == s,
{
    lemma_without_id_facts(v, s.id@);
    let w = without_id(v, s.id@);
    let x = w.push(s);
    assert forall|a: int, b: int| 0 <= a < b < x.len() implies (#[trigger] x[a]).id@ != (#[trigger] x[b]).id@ by {
        if b == x.len() - 1 {
            assert(x[a] == w[a]);
        } else {
            assert(x[a] == w[a] && x[b] == w[b]);
        }
    }
}

/// Summary `x` of `v` is listed before summary `y`: by id, ties in input order.
pub open spec fn id_before(v: Seq<MatePresetSummary>, x: int, y: int) -> bool {
    seq_lt(v[x].id@, v[y].id@) || (v[x].id@ == v[y].id@ && x < y)
}

/// `p` lists every index of `v` once, in listing order.
pub open spec fn is_id_order(v: Seq<MatePresetSummary>, p: Seq<int>) -> bool {
    &&& p.len() == v.len()
    &&& forall|i: int| 0 <= i < p.len() ==> 0 <= #[trigger] p[i] < v.len()
    &&& forall|i: int, j: int| 0 <= i < j < p.len() ==> id_before(v, #[trigger] p[i], #[trigger] p[j])
}

/// Sorts the preset listing by id (stable: equal ids keep their order).
pub fn sort_summaries_by_id(v: Vec<MatePresetSummary>) -> (r: Vec<MatePresetSummary>)
    ensures
        exists|p: Seq<int>| {
            &&& is_id_order(v@, p)
            &&& r.len() == p.len()
            &&& forall|i: int| 0 <= i < r.len() ==> #[trigger] r@[i] == v@[p[i]]
        },
{
    let ghost all = v@;
    let n = v.len();
    let mut rest = v;
    let mut out: Vec<MatePresetSummary> = Vec::new();
    let mut keys: Vec<Vec<char>> = Vec::new();
    let ghost mut p: Seq<int> = Seq::empty();
    let mut m: usize = 0;
    while rest.len() > 0
        invariant
            all.len() == n,
            m + rest@.len() == all.len(),
            rest@ == all.skip(m as int),
            is_id_order(all.take(m as int), p),
            out.len() == p.len(),
            keys.len() == p.len(),
            forall|i: int| 0 <= i < p.len() ==> #[trigger] out@[i] == all[p[i]],
            forall|i: int| 0 <= i < keys.len() ==> (#[trigger] keys@[i])@ == out@[i].id@,
        decreases rest@.len(),
    {
        let x = rest.remove(0);
        assert(x == all[m as int]);
        let key = chars_vec(x.id.as_str());
        let mut j: usize = 0;
        while j < keys.len() && !chars_lt(&key, &keys[j])
            invariant
                j <= keys.len(),
                forall|i: int| 0 <= i < j ==> !seq_lt(key@, (#[trigger] keys@[i])@),
            decreases keys.len() - j,
        {
            j += 1;
        }
        let ghost old_out = out@;
        let ghost old_keys = keys@;
        let ghost p2 = p.insert(j as int, m as int);
        let ghost took = all.take(m + 1);
        proof {
            let prev = all.take(m as int);
            assert(prev =~= took.drop_last());
            assert forall|i: int| 0 <= i < p.len() implies #[trigger] took[p[i]] == prev[p[i]] by {}
            assert(took[m as int] == x);
            assert forall|i: int| 0 <= i < p2.len() implies 0 <= #[trigger] p2[i] < took.len() by {
                if i < j {
                    assert(p2[i] == p[i]);
                } else if i > j {
                    assert(p2[i] == p[i - 1]);
                }
            }
            assert forall|a: int, b: int| 0 <= a < b < p2.len() implies id_before(took, #[trigger] p2[a], #[trigger] p2[b]) by {
                if b < j {
                    assert(p2[a] == p[a] && p2[b] == p[b]);
                    assert(id_before(prev, p[a], p[b]));
                } else if a > j {
                    assert(p2[a] == p[a - 1] && p2[b] == p[b - 1]);
                    assert(id_before(prev, p[a - 1], p[b - 1]));
                } else if a < j && b > j {
                    assert(p2[a] == p[a] && p2[b] == p[b - 1]);
                    assert(id_before(prev, p[a], p[b - 1]));
                } else if b == j {
                    assert(p2[a] == p[a]);
                    assert(old_keys[a]@ == all[p[a]].id@);
                    assert(!seq_lt(key@, old_keys[a]@));
                    lemma_seq_lt_total(key@, old_keys[a]@);
                    assert(p[a] < m);
                } else {
                    assert(a == j && b > j);
                    assert(p2[b] == p[b - 1]);
                    assert(old_keys[j as int]@ == all[p[j as int]].id@);
                    assert(seq_lt(key@, old_keys[j as int]@));
                    assert(old_keys[b - 1]@ == all[p[b - 1]].id@);
                    if b - 1 > j {
                        assert(id_before(prev, p[j as int], p[b - 1]));
                        if seq_lt(old_keys[j as int]@, old_keys[b - 1]@) {
                            lemma_seq_lt_transitive(key@, old_keys[j as int]@, old_keys[b - 1]@);
                        }
                    }
                    assert(seq_lt(key@, took[p2[b]].id@));
                }
            }
        }
        out.insert(j, x);
        keys.insert(j, key);
        proof {
            assert forall|i: int| 0 <= i < p2.len() implies #[trigger] out@[i] == all[p2[i]] by {
                if i < j {
                    assert(out@[i] == old_out[i]);
                } else if i > j {
                    assert(out@[i] == old_out[i - 1]);
                }
            }
            assert forall|i: int| 0 <= i < keys.len() implies (#[trigger] keys@[i])@ == out@[i].id@ by {
                if i < j {
                    assert(keys@[i] == old_keys[i] && out@[i] == old_out[i]);
                } else if i > j {
                    assert(keys@[i] == old_keys[i - 1] && out@[i] == old_out[i - 1]);
                }
            }
            p = p2;
            assert(rest@ =~= all.skip(m + 1));
        }
        m += 1;
    }
    assert(all.take(m as int) =~= all);
    out
}

} // verus!
