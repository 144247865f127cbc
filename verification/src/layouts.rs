//! LED layout identifiers and catalogue entries.

use vstd::prelude::*;
use crate::strs::{
    chars_lt, chars_range_eq, chars_vec, has_prefix, is_path_segment, is_path_segment_exec, seq_lt, str_eq,
    lemma_seq_lt_irreflexive, lemma_seq_lt_total, lemma_seq_lt_transitive,
};

verus! {

#[derive(Debug, Clone, Copy, PartialEq, Eq)]
pub enum LayoutSourceKind {
    Preset,
    User,
}

/// One row of the layout catalogue.
#[derive(Debug)]
pub struct LayoutCatalogEntry {
    pub layout_id: String,
    pub display_name: Option<String>,
    pub led_count: u16,
    pub variant: Option<String>,
    pub source_kind: LayoutSourceKind,
    pub data_line_count: u8,
    pub gpios: Vec<u8>,
    pub layout_hash: u32,
    pub editable: bool,
    pub in_use_by_devices: Vec<String>,
}

/// What the layout compiler reports for a compiled layout.
pub struct CompileResult {
    pub layout_id: String,
    pub layout_hash: u32,
    pub led_count: u16,
    pub data_line_count: u8,
    pub gpios: Vec<u8>,
    pub leds_per_line: Vec<u16>,
}

/// Why a layout id was refused: "layout id must be non-empty and path-safe".
#[derive(Debug, Clone, Copy, PartialEq, Eq)]
pub struct LayoutIdError;

/// Layout ids are single path segments.
pub fn validate_layout_id(id: &str) -> (r: Result<(), LayoutIdError>)
    ensures
        r is Ok <==> is_path_segment(id@),
{
    if !is_path_segment_exec(id) {
        return Err(LayoutIdError);
    }
    Ok(())
}

/// The fields of a layout source file (`*.layout.json`) that identify it.
#[derive(Debug, Clone)]
pub struct LayoutSourceFile {
    pub format: Option<String>,
    pub version: Option<u64>,
    pub id: Option<String>,
}

/// The id a layout source file declares: its `id`, when the file is in the
/// `glowbe-layout` v1 format and names one.
pub open spec fn spec_layout_source_id(f: LayoutSourceFile) -> Option<Seq<char>> {
    if f.format matches Some(fm) && fm@ == "glowbe-layout"@ && f.version == Some(1u64) {
        opt_string_view(f.id)
    } else {
        None
    }
}

/// The id a layout source file declares (`None` for another format or version).
pub fn layout_source_id(f: &LayoutSourceFile) -> (r: Option<String>)
    ensures
        opt_string_view(r) == spec_layout_source_id(*f),
{
    let format_ok = match &f.format {
        Some(fm) => str_eq(fm.as_str(), "glowbe-layout"),
        None => false,
    };
    if format_ok && f.version == Some(1u64) {
        match &f.id {
            Some(i) => Some(i.clone()),
            None => None,
        }
    } else {
        None
    }
}

/// Entry `o` of a directory scan declares layout `id`.
pub open spec fn declares(o: Option<String>, id: Seq<char>) -> bool {
    o matches Some(s) && s@ == id
}

/// `i` is the first entry of `ids` that declares `id`.
pub open spec fn is_first_declaring(ids: Seq<Option<String>>, id: Seq<char>, i: int) -> bool {
    &&& 0 <= i < ids.len()
    &&& declares(ids[i], id)
    &&& forall|j: int| 0 <= j < i ==> !declares(#[trigger] ids[j], id)
}

/// No entry of `ids` declares `id`.
pub open spec fn none_declares(ids: Seq<Option<String>>, id: Seq<char>) -> bool {
    forall|j: int| 0 <= j < ids.len() ==> !declares(#[trigger] ids[j], id)
}

fn first_declaring(ids: &Vec<Option<String>>, id: &str) -> (r: Option<usize>)
    ensures
        match r {
            Some(i) => is_first_declaring(ids@, id@, i as int),
            None => none_declares(ids@, id@),
        },
{
    let mut i: usize = 0;
    while i < ids.len()
        invariant
            i <= ids.len(),
            forall|j: int| 0 <= j < i ==> !declares(#[trigger] ids@[j], id@),
        decreases ids.len() - i,
    {
        let hit = match &ids[i] {
            Some(s) => str_eq(s.as_str(), id),
            None => false,
        };
        if hit {
            return Some(i);
        }
        i += 1;
    }
    None
}

/// Where the source of layout `id` lives, in this order of preference: the preset
/// file named `{id}.layout.json`, the user file of that name, the first preset
/// source file that declares `id`, the first user source file that does. The
/// index says which entry of the scanned directory it is (`None` for the file named
/// after the id); `None` overall when no source is found.
pub fn pick_layout_source(
    id: &str,
    preset_file: bool,
    user_file: bool,
    preset_ids: &Vec<Option<String>>,
    user_ids: &Vec<Option<String>>,
) -> (r: Option<(LayoutSourceKind, Option<usize>)>)
    ensures
        preset_file ==> r == Some((LayoutSourceKind::Preset, None::<usize>)),
        !preset_file && user_file ==> r == Some((LayoutSourceKind::User, None::<usize>)),
        !preset_file && !user_file ==> match r {
            Some((LayoutSourceKind::Preset, Some(i))) => is_first_declaring(preset_ids@, id@, i as int),
            Some((LayoutSourceKind::User, Some(i))) => none_declares(preset_ids@, id@)
                && is_first_declaring(user_ids@, id@, i as int),
            None => none_declares(preset_ids@, id@) && none_declares(user_ids@, id@),
            _ => false,
        },
{
    if preset_file {
        return Some((LayoutSourceKind::Preset, None));
    }
    if user_file {
        return Some((LayoutSourceKind::User, None));
    }
    match first_declaring(preset_ids, id) {
        Some(i) => Some((LayoutSourceKind::Preset, Some(i))),
        None => match first_declaring(user_ids, id) {
            Some(i) => Some((LayoutSourceKind::User, Some(i))),
            None => None,
        },
    }
}

/// Source kind of a compiled layout found without a source file: custom variants and
/// `custom-` ids are user layouts, everything else a preset.
pub open spec fn spec_infer_source_kind(variant: Option<Seq<char>>, id: Seq<char>) -> LayoutSourceKind {
    if variant == Some("custom"@) || has_prefix(id, "custom-"@) {
        LayoutSourceKind::User
    } else {
        LayoutSourceKind::Preset
    }
}

/// Infers the source kind from the compiled meta's `variant` field and the id.
pub fn infer_source_kind_from_meta(variant: Option<&str>, id: &str) -> (r: LayoutSourceKind)
    ensures
        r == spec_infer_source_kind(
            match variant {
                Some(v) => Some(v@),
                None => None,
            },
            id@,
        ),
{
    match variant {
        Some(v) => {
            if str_eq(v, "custom") {
                return LayoutSourceKind::User;
            }
        },
        None => {},
    }
    let idv = chars_vec(id);
    proof {
        reveal_strlit("custom-");
    }
    if idv.len() >= 7 && chars_range_eq(&idv, 0, 7, "custom-") {
        assert(id@.take(7) =~= idv@.subrange(0, 7));
        return LayoutSourceKind::User;
    }
    proof {
        if idv.len() >= 7 {
            assert(id@.take(7) =~= idv@.subrange(0, 7));
        }
    }
    LayoutSourceKind::Preset
}

/// `layoutHash` of a compiled layout's metadata (its unsigned value, truncated to 32 bits).
pub fn read_layout_hash(meta_layout_hash: Option<u64>) -> (r: Option<u32>)
    ensures
        r == match meta_layout_hash {
            Some(x) => Some(x as u32),
            None => None::<u32>,
        },
{
    match meta_layout_hash {
        Some(x) => Some(x as u32),
        None => None,
    }
}

/// `ledCount` of a compiled layout's metadata (its unsigned value, truncated to 16 bits).
pub fn read_led_count(meta_led_count: Option<u64>) -> (r: Option<u16>)
    ensures
        r == match meta_led_count {
            Some(x) => Some(x as u16),
            None => None::<u16>,
        },
{
    match meta_led_count {
        Some(x) => Some(x as u16),
        None => None,
    }
}

/// The views of a list of strings.
pub open spec fn views(v: Seq<String>) -> Seq<Seq<char>> {
    v.map_values(|s: String| s@)
}

/// Strictly increasing in code-point order (hence free of repeats).
pub open spec fn strictly_sorted(s: Seq<Seq<char>>) -> bool {
    forall|a: int, b: int| 0 <= a < b < s.len() ==> seq_lt(#[trigger] s[a], #[trigger] s[b])
}

proof fn lemma_views_push(a: Seq<String>, x: String)
    ensures
        forall|s: Seq<char>| views(a.push(x)).contains(s) <==> (views(a).contains(s) || s == x@),
{
    lemma_views_insert(a, a.len() as int, x);
    assert(a.insert(a.len() as int, x) =~= a.push(x));
}

proof fn lemma_views_insert(a: Seq<String>, j: int, x: String)
    requires
        0 <= j <= a.len(),
    ensures
        forall|s: Seq<char>| views(a.insert(j, x)).contains(s) <==> (views(a).contains(s) || s == x@),
{
    let b = a.insert(j, x);
    assert forall|s: Seq<char>| views(b).contains(s) <==> (views(a).contains(s) || s == x@) by {
        if views(b).contains(s) {
            let i = choose|i: int| 0 <= i < views(b).len() && views(b)[i] == s;
            if i < j {
                assert(views(a)[i] == s);
            } else if i > j {
                assert(views(a)[i - 1] == s);
            }
        }
        if views(a).contains(s) {
            let i = choose|i: int| 0 <= i < views(a).len() && views(a)[i] == s;
            if i < j {
                assert(views(b)[i] == s);
            } else {
                assert(views(b)[i + 1] == s);
            }
        }
        if s == x@ {
            assert(views(b)[j] == s);
        }
    }
}

/// The catalogue's layout ids: every candidate id (from source files and compiled
/// metadata) once, in ascending order.
pub fn layout_catalog_ids(candidates: &Vec<String>) -> (r: Vec<String>)
    ensures
        strictly_sorted(views(r@)),
        forall|s: Seq<char>| views(r@).contains(s) <==> views(candidates@).contains(s),
{
    let mut out: Vec<String> = Vec::new();
    let mut keys: Vec<Vec<char>> = Vec::new();
    let mut k: usize = 0;
    while k < candidates.len()
        invariant
            k <= candidates.len(),
            out.len() == keys.len(),
            forall|i: int| 0 <= i < keys.len() ==> (#[trigger] keys@[i])@ == out@[i]@,
            forall|a: int, b: int| 0 <= a < b < keys.len() ==> seq_lt(#[trigger] keys@[a]@, #[trigger] keys@[b]@),
            forall|s: Seq<char>| views(out@).contains(s) <==> views(candidates@.take(k as int)).contains(s),
        decreases candidates.len() - k,
    {
        let c = &candidates[k];
        let key = chars_vec(c.as_str());
        let mut j: usize = 0;
        while j < keys.len() && chars_lt(&keys[j], &key)
            invariant
                j <= keys.len(),
                key@ == c@,
                forall|i: int| 0 <= i < j ==> seq_lt(#[trigger] keys@[i]@, key@),
            decreases keys.len() - j,
        {
            j += 1;
        }
        let ghost old_out = out@;
        let ghost old_keys = keys@;
        let dup = j < keys.len() && chars_lt(&key, &keys[j]) == false;
        if !dup {
            proof {
                if j < keys.len() {
                    lemma_seq_lt_total(keys@[j as int]@, key@);
                }
            }
            out.insert(j, c.clone());
            keys.insert(j, key);
            proof {
                assert forall|i: int| 0 <= i < keys.len() implies (#[trigger] keys@[i])@ == out@[i]@ by {
                    if i < j {
                        assert(keys@[i] == old_keys[i] && out@[i] == old_out[i]);
                    } else if i > j {
                        assert(keys@[i] == old_keys[i - 1] && out@[i] == old_out[i - 1]);
                    }
                }
                assert forall|a: int, b: int| 0 <= a < b < keys.len() implies seq_lt(#[trigger] keys@[a]@, #[trigger] keys@[b]@) by {
                    if b < j {
                        assert(keys@[a] == old_keys[a] && keys@[b] == old_keys[b]);
                    } else if a > j {
                        assert(keys@[a] == old_keys[a - 1] && keys@[b] == old_keys[b - 1]);
                    } else if a < j && b == j {
                        assert(keys@[a] == old_keys[a]);
                    } else if a < j && b > j {
                        assert(keys@[a] == old_keys[a] && keys@[b] == old_keys[b - 1]);
                        if j < b - 1 {
                            lemma_seq_lt_transitive(key@, old_keys[j as int]@, old_keys[b - 1]@);
                        }
                        lemma_seq_lt_transitive(old_keys[a]@, key@, old_keys[b - 1]@);
                    } else {
                        assert(a == j && b > j);
                        assert(keys@[b] == old_keys[b - 1]);
                        if j < b - 1 {
                            lemma_seq_lt_transitive(key@, old_keys[j as int]@, old_keys[b - 1]@);
                        }
                    }
                }
            }
        } else {
            proof {
                lemma_seq_lt_total(keys@[j as int]@, key@);
            }
        }
        proof {
            let took = candidates@.take(k + 1);
            assert(took =~= candidates@.take(k as int).push(candidates@[k as int]));
            lemma_views_push(candidates@.take(k as int), candidates@[k as int]);
            if !dup {
                lemma_views_insert(old_out, j as int, *c);
                assert(out@ == old_out.insert(j as int, *c));
            } else {
                assert(keys@[j as int]@ == key@);
                assert(views(out@)[j as int] == c@);
                assert(views(out@).contains(c@));
            }
            assert forall|s: Seq<char>| views(out@).contains(s) <==> views(took).contains(s) by {
                assert(views(took).contains(s) <==> (views(candidates@.take(k as int)).contains(s) || s == c@));
                assert(views(old_out).contains(s) <==> views(candidates@.take(k as int)).contains(s));
                if dup {
                    assert(out@ == old_out);
                }
            }
        }
        k += 1;
    }
    proof {
        assert(candidates@.take(candidates@.len() as int) =~= candidates@);
        assert forall|a: int, b: int| 0 <= a < b < views(out@).len() implies seq_lt(#[trigger] views(out@)[a], #[trigger] views(out@)[b]) by {
            assert(keys@[a]@ == out@[a]@ && keys@[b]@ == out@[b]@);
        }
    }
    out
}

/// Fields of a compiled layout's metadata that the catalogue reads, each present only
/// when the JSON value has it with the right type.
#[derive(Debug, Clone)]
pub struct LayoutMeta {
    pub display_name: Option<String>,
    pub variant: Option<String>,
    pub led_count: Option<u64>,
    pub data_line_count: Option<u64>,
    pub layout_hash: Option<u64>,
    /// `gpios` when it is an array: each element's unsigned value, `None` for others.
    pub gpios: Option<Vec<Option<u64>>>,
}

pub open spec fn opt_string_view(o: Option<String>) -> Option<Seq<char>> {
    match o {
        Some(s) => Some(s@),
        None => None,
    }
}

/// A metadata count, `0` when absent, saturated at `cap`.
pub open spec fn count_or_zero(x: Option<u64>, cap: int) -> int {
    let v: int = match x {
        Some(n) => n as int,
        None => 0,
    };
    if v > cap {
        cap
    } else {
        v
    }
}

/// The unsigned elements of a GPIO list, in order, each saturated at 255.
pub open spec fn gpio_list(s: Seq<Option<u64>>) -> Seq<u8>
    decreases s.len(),
{
    if s.len() == 0 {
        Seq::empty()
    } else {
        let rest = gpio_list(s.drop_last());
        match s.last() {
            Some(n) => rest.push(if n > 255 { 255u8 } else { n as u8 }),
            None => rest,
        }
    }
}

/// Ids of the devices (in registry order) whose layout is `id`.
pub open spec fn devices_using(usage: Seq<(String, String)>, id: Seq<char>) -> Seq<Seq<char>>
    decreases usage.len(),
{
    if usage.len() == 0 {
        Seq::empty()
    } else {
        let rest = devices_using(usage.drop_last(), id);
        if usage.last().1@ == id {
            rest.push(usage.last().0@)
        } else {
            rest
        }
    }
}

fn clone_opt_string(o: &Option<String>) -> (r: Option<String>)
    ensures
        opt_string_view(r) == opt_string_view(*o),
{
    match o {
        Some(s) => Some(s.clone()),
        None => None,
    }
}

fn sat_count(x: Option<u64>, cap: u64) -> (r: u64)
    ensures
        r == count_or_zero(x, cap as int),
{
    let v = match x {
        Some(n) => n,
        None => 0,
    };
    if v > cap {
        cap
    } else {
        v
    }
}

/// One catalogue row built from a layout's compiled metadata, its source kind and
/// the `(device id, layout id)` pairs of the registry.
pub fn layout_catalog_entry(
    id: String,
    meta: &LayoutMeta,
    source_kind: LayoutSourceKind,
    device_usage: &[(String, String)],
) -> (r: LayoutCatalogEntry)
    ensures
        r.layout_id@ == id@,
        opt_string_view(r.display_name) == opt_string_view(meta.display_name),
        opt_string_view(r.variant) == opt_string_view(meta.variant),
        r.led_count == count_or_zero(meta.led_count, 65535),
        r.data_line_count == count_or_zero(meta.data_line_count, 255),
        r.layout_hash == (match meta.layout_hash {
            Some(x) => x,
            None => 0,
        }) as u32,
        r.gpios@ == (match meta.gpios {
            Some(g) => gpio_list(g@),
            None => Seq::empty(),
        }),
        r.source_kind == source_kind,
        r.editable == (source_kind == LayoutSourceKind::User),
        views(r.in_use_by_devices@) == devices_using(device_usage@, id@),
{
    let led_count = sat_count(meta.led_count, 65535) as u16;
    let data_line_count = sat_count(meta.data_line_count, 255) as u8;
    let layout_hash = match meta.layout_hash {
        Some(x) => x as u32,
        None => 0,
    };
    let mut gpios: Vec<u8> = Vec::new();
    match &meta.gpios {
        Some(g) => {
            let mut i: usize = 0;
            while i < g.len()
                invariant
                    i <= g.len(),
                    gpios@ == gpio_list(g@.take(i as int)),
                decreases g.len() - i,
            {
                assert(g@.take(i + 1).drop_last() =~= g@.take(i as int));
                match g[i] {
                    Some(n) => gpios.push(if n > 255 { 255u8 } else { n as u8 }),
                    None => {},
                }
                i += 1;
            }
            assert(g@.take(g.len() as int) =~= g@);
        },
        None => {},
    }
    let mut users: Vec<String> = Vec::new();
    let mut i: usize = 0;
    while i < device_usage.len()
        invariant
            i <= device_usage@.len(),
            views(users@) == devices_using(device_usage@.take(i as int), id@),
        decreases device_usage@.len() - i,
    {
        assert(device_usage@.take(i + 1).drop_last() =~= device_usage@.take(i as int));
        if device_usage[i].1 == id {
            let ghost before = users@;
            users.push(device_usage[i].0.clone());
            assert(views(users@) =~= views(before).push(device_usage@[i as int].0@));
        }
        i += 1;
    }
    assert(device_usage@.take(device_usage@.len() as int) =~= device_usage@);
    let editable = match source_kind {
        LayoutSourceKind::User => true,
        LayoutSourceKind::Preset => false,
    };
    LayoutCatalogEntry {
        layout_id: id,
        display_name: clone_opt_string(&meta.display_name),
        led_count,
        variant: clone_opt_string(&meta.variant),
        source_kind,
        data_line_count,
        gpios,
        layout_hash,
        editable,
        in_use_by_devices: users,
    }
}

/// `e` is the catalogue row of layout `id` with compiled metadata `meta`, source
/// kind `kind`, given the registry's `(device id, layout id)` pairs `usage`.
pub open spec fn is_catalog_row(
    e: LayoutCatalogEntry,
    id: Seq<char>,
    meta: LayoutMeta,
    kind: LayoutSourceKind,
    usage: Seq<(String, String)>,
) -> bool {
    &&& e.layout_id@ == id
    &&& opt_string_view(e.display_name) == opt_string_view(meta.display_name)
    &&& opt_string_view(e.variant) == opt_string_view(meta.variant)
    &&& e.led_count == count_or_zero(meta.led_count, 65535)
    &&& e.data_line_count == count_or_zero(meta.data_line_count, 255)
    &&& e.layout_hash == (match meta.layout_hash {
        Some(x) => x,
        None => 0,
    }) as u32
    &&& e.gpios@ == (match meta.gpios {
        Some(g) => gpio_list(g@),
        None => Seq::empty(),
    })
    &&& e.source_kind == kind
    &&& e.editable == (kind == LayoutSourceKind::User)
    &&& views(e.in_use_by_devices@) == devices_using(usage, id)
}

/// Compiled metadata of a catalogue row that has it.
pub open spec fn row_meta(row: (String, Option<(LayoutMeta, LayoutSourceKind)>)) -> LayoutMeta {
    match row.1 {
        Some(found) => found.0,
        None => LayoutMeta {
            display_name: None,
            variant: None,
            led_count: None,
            data_line_count: None,
            layout_hash: None,
            gpios: None,
        },
    }
}

/// Source kind of a catalogue row that has compiled metadata.
pub open spec fn row_kind(row: (String, Option<(LayoutMeta, LayoutSourceKind)>)) -> LayoutSourceKind {
    match row.1 {
        Some(found) => found.1,
        None => LayoutSourceKind::Preset,
    }
}

/// Indices of the rows whose compiled metadata was found, in order.
pub open spec fn found_rows(rows: Seq<(String, Option<(LayoutMeta, LayoutSourceKind)>)>) -> Seq<int>
    decreases rows.len(),
{
    if rows.len() == 0 {
        Seq::empty()
    } else {
        let rest = found_rows(rows.drop_last());
        if rows.last().1 is Some {
            rest.push(rows.len() - 1)
        } else {
            rest
        }
    }
}

proof fn lemma_found_rows(rows: Seq<(String, Option<(LayoutMeta, LayoutSourceKind)>)>)
    ensures
        forall|k: int| 0 <= k < found_rows(rows).len() ==> 0 <= #[trigger] found_rows(rows)[k] < rows.len()
            && rows[found_rows(rows)[k]].1 is Some,
        forall|a: int, b: int| 0 <= a < b < found_rows(rows).len() ==> #[trigger] found_rows(rows)[a]
            < #[trigger] found_rows(rows)[b],
    decreases rows.len(),
{
    if rows.len() > 0 {
        lemma_found_rows(rows.drop_last());
        let rest = found_rows(rows.drop_last());
        assert forall|k: int| 0 <= k < rest.len() implies rows[rest[k]] == rows.drop_last()[rest[k]] by {}
    }
}

/// The layout catalogue from its ids (as `layout_catalog_ids` gives them) with, for
/// each, its compiled metadata and source kind when the metadata could be read: the
/// rows of the ids whose metadata was found, in order.
pub fn layout_catalog(
    rows: &Vec<(String, Option<(LayoutMeta, LayoutSourceKind)>)>,
    device_usage: &[(String, String)],
) -> (r: Vec<LayoutCatalogEntry>)
    ensures
        r.len() == found_rows(rows@).len(),
        forall|k: int|
            0 <= k < r.len() ==> {
                let row = rows@[found_rows(rows@)[k]];
                is_catalog_row(#[trigger] r@[k], row.0@, row_meta(row), row_kind(row), device_usage@)
            },
{
    let mut out: Vec<LayoutCatalogEntry> = Vec::new();
    let mut i: usize = 0;
    while i < rows.len()
        invariant
            i <= rows.len(),
            out.len() == found_rows(rows@.take(i as int)).len(),
            forall|k: int|
                0 <= k < out.len() ==> {
                    let row = rows@[found_rows(rows@.take(i as int))[k]];
                    is_catalog_row(#[trigger] out@[k], row.0@, row_meta(row), row_kind(row), device_usage@)
                },
        decreases rows.len() - i,
    {
        let ghost before = found_rows(rows@.take(i as int));
        assert(rows@.take(i + 1).drop_last() =~= rows@.take(i as int));
        proof {
            lemma_found_rows(rows@.take(i as int));
        }
        match &rows[i].1 {
            Some((meta, kind)) => {
                let e = layout_catalog_entry(rows[i].0.clone(), meta, *kind, device_usage);
                out.push(e);
                proof {
                    let now = found_rows(rows@.take(i + 1));
                    assert(now == before.push(i as int));
                    assert forall|k: int| 0 <= k < out.len() implies {
                        let row = rows@[now[k]];
                        is_catalog_row(#[trigger] out@[k], row.0@, row_meta(row), row_kind(row), device_usage@)
                    } by {
                        if k < before.len() {
                            assert(now[k] == before[k]);
                        }
                    }
                }
            },
            None => {
                assert(found_rows(rows@.take(i + 1)) == before);
            },
        }
        i += 1;
    }
    assert(rows@.take(rows.len() as int) =~= rows@);
    out
}

/// Catalogue law: built from ids in strictly ascending order, the catalogue lists its
/// layouts in strictly ascending id order, each id once.
pub proof fn lemma_catalog_sorted(
    rows: Seq<(String, Option<(LayoutMeta, LayoutSourceKind)>)>,
    r: Seq<LayoutCatalogEntry>,
)
    requires
        strictly_sorted(rows.map_values(|x: (String, Option<(LayoutMeta, LayoutSourceKind)>)| x.0@)),
        r.len() == found_rows(rows).len(),
        forall|k: int| 0 <= k < r.len() ==> (#[trigger] r[k]).layout_id@ == rows[found_rows(rows)[k]].0@,
    ensures
        forall|a: int, b: int| 0 <= a < b < r.len() ==> seq_lt((#[trigger] r[a]).layout_id@, (#[trigger] r[b]).layout_id@),
{
    lemma_found_rows(rows);
    let ids = rows.map_values(|x: (String, Option<(LayoutMeta, LayoutSourceKind)>)| x.0@);
    assert forall|a: int, b: int| 0 <= a < b < r.len() implies seq_lt((#[trigger] r[a]).layout_id@, (#[trigger] r[b]).layout_id@) by {
        let fa = found_rows(rows)[a];
        let fb = found_rows(rows)[b];
        assert(fa < fb);
        assert(ids[fa] == rows[fa].0@ && ids[fb] == rows[fb].0@);
    }
}

proof fn lemma_found_rows_complete(rows: Seq<(String, Option<(LayoutMeta, LayoutSourceKind)>)>, i: int)
    requires
        0 <= i < rows.len(),
        rows[i].1 is Some,
    ensures
        exists|k: int| 0 <= k < found_rows(rows).len() && #[trigger] found_rows(rows)[k] == i,
    decreases rows.len(),
{
    let rest = found_rows(rows.drop_last());
    if i == rows.len() - 1 {
        assert(found_rows(rows)[rest.len() as int] == i);
    } else {
        assert(rows.drop_last()[i] == rows[i]);
        lemma_found_rows_complete(rows.drop_last(), i);
        let k = choose|k: int| 0 <= k < rest.len() && #[trigger] rest[k] == i;
        assert(found_rows(rows)[k] == rest[k]);
    }
}

/// Catalogue law. The catalogue is built from the candidate ids (source files and
/// compiled metadata) put through `layout_catalog_ids`, each paired with its
/// compiled metadata and source kind where the metadata could be read, and put
/// through `layout_catalog`. Its rows then come in strictly ascending id order; their
/// ids are exactly the candidate ids whose metadata was read; and each row is built
/// from that metadata: editable exactly for user layouts, in use by the devices whose
/// layout it is (in registry order), with the LED count capped at 65535.
#[verifier::spinoff_prover]
#[verifier::rlimit(60)]
pub proof fn lemma_layout_catalog_law(
    candidates: Seq<String>,
    ids: Seq<String>,
    rows: Seq<(String, Option<(LayoutMeta, LayoutSourceKind)>)>,
    r: Seq<LayoutCatalogEntry>,
    usage: Seq<(String, String)>,
)
    requires
        strictly_sorted(views(ids)),
        forall|s: Seq<char>| views(ids).contains(s) <==> views(candidates).contains(s),
        rows.len() == ids.len(),
        forall|i: int| 0 <= i < rows.len() ==> (#[trigger] rows[i]).0@ == ids[i]@,
        r.len() == found_rows(rows).len(),
        forall|k: int|
            0 <= k < r.len() ==> {
                let row = rows[found_rows(rows)[k]];
                is_catalog_row(#[trigger] r[k], row.0@, row_meta(row), row_kind(row), usage)
            },
    ensures
        forall|a: int, b: int| 0 <= a < b < r.len() ==> seq_lt((#[trigger] r[a]).layout_id@, (#[trigger] r[b]).layout_id@),
        forall|s: Seq<char>|
            (exists|k: int| 0 <= k < r.len() && (#[trigger] r[k]).layout_id@ == s) <==> (views(candidates).contains(s)
                && exists|i: int| 0 <= i < rows.len() && (#[trigger] rows[i]).0@ == s && rows[i].1 is Some),
        forall|k: int|
            0 <= k < r.len() ==> {
                &&& (#[trigger] r[k]).editable == (r[k].source_kind == LayoutSourceKind::User)
                &&& views(r[k].in_use_by_devices@) == devices_using(usage, r[k].layout_id@)
                &&& r[k].led_count == count_or_zero(row_meta(rows[found_rows(rows)[k]]).led_count, 65535)
            },
{
    lemma_found_rows(rows);
    let names = rows.map_values(|x: (String, Option<(LayoutMeta, LayoutSourceKind)>)| x.0@);
    assert forall|a: int, b: int| 0 <= a < b < names.len() implies seq_lt(#[trigger] names[a], #[trigger] names[b]) by {
        assert(names[a] == rows[a].0@ && names[b] == rows[b].0@);
        assert(views(ids)[a] == ids[a]@ && views(ids)[b] == ids[b]@);
    }
    assert forall|k: int| 0 <= k < r.len() implies (#[trigger] r[k]).layout_id@ == rows[found_rows(rows)[k]].0@ by {}
    lemma_catalog_sorted(rows, r);
    assert forall|s: Seq<char>|
        (exists|k: int| 0 <= k < r.len() && (#[trigger] r[k]).layout_id@ == s) <==> (views(candidates).contains(s)
            && exists|i: int| 0 <= i < rows.len() && (#[trigger] rows[i]).0@ == s && rows[i].1 is Some) by {
        if exists|k: int| 0 <= k < r.len() && (#[trigger] r[k]).layout_id@ == s {
            let k = choose|k: int| 0 <= k < r.len() && (#[trigger] r[k]).layout_id@ == s;
            let i = found_rows(rows)[k];
            assert(rows[i].0@ == s);
            assert(views(ids)[i] == ids[i]@);
            assert(views(ids).contains(s));
        }
        if views(candidates).contains(s) && exists|i: int| 0 <= i < rows.len() && (#[trigger] rows[i]).0@ == s
            && rows[i].1 is Some {
            let i = choose|i: int| 0 <= i < rows.len() && (#[trigger] rows[i]).0@ == s && rows[i].1 is Some;
            lemma_found_rows_complete(rows, i);
            let k = choose|k: int| 0 <= k < found_rows(rows).len() && #[trigger] found_rows(rows)[k] == i;
            assert(r[k].layout_id@ == s);
        }
    }
}

} // verus!
