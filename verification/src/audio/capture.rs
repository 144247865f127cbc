//! Enumerate PipeWire nodes (`pw-cli ls Node` output) and report capture availability.

use vstd::prelude::*;
use super::types::{AudioInputDevice, AudioInputKind, AudioPlatformInfo};
use crate::strs::{
    chars_lt, chars_range_eq, chars_vec, has_prefix, lemma_seq_lt_irreflexive, lemma_seq_lt_total,
    lemma_seq_lt_transitive, lowercase, seq_lt, str_to_lowercase, string_from_chars, trim_bounds,
    trim_end_char, trim_start_char, trim_ws,
};

verus! {

/// Capture availability on Linux, given whether both `pw-cli` and `pw-record` are installed.
pub fn platform_info(has_pw: bool) -> (r: AudioPlatformInfo)
    ensures
        r.available == has_pw,
        has_pw ==> r.reason is None && r.backend@ == "pipewire"@,
        !has_pw ==> (r.reason matches Some(m) && m@ == "pw-cli / pw-record not found (install pipewire-bin)"@),
        !has_pw ==> r.backend@ == "none"@,
{
    if has_pw {
        AudioPlatformInfo { available: true, reason: None, backend: "pipewire" }
    } else {
        AudioPlatformInfo {
            available: false,
            reason: Some(String::from_str("pw-cli / pw-record not found (install pipewire-bin)")),
            backend: "none",
        }
    }
}

/// A node as the parser reports it: (node.name, label, kind).
pub type PwNode = (Seq<char>, Seq<char>, AudioInputKind);

/// Parser state between `id` lines: (node.name, node.description, media.class).
pub type PwState = (Option<Seq<char>>, Option<Seq<char>>, Option<Seq<char>>);

/// `s.trim_matches('"')`.
pub open spec fn trim_quotes(s: Seq<char>) -> Seq<char> {
    trim_end_char(trim_start_char(s, '"'), '"')
}

/// Value of the property line `t` if it starts with `prefix` (`"<key> = "`): the rest,
/// trimmed, without surrounding double quotes.
pub open spec fn prop_value(t: Seq<char>, prefix: Seq<char>) -> Option<Seq<char>> {
    if has_prefix(t, prefix) {
        Some(trim_quotes(trim_ws(t.skip(prefix.len() as int))))
    } else {
        None
    }
}

/// The node completed by the state `st`, if it is a capturable one: `Audio/Source`
/// nodes are microphones, `Audio/Sink` nodes are offered as monitors.
pub open spec fn flush_node(st: PwState) -> Option<PwNode> {
    match st.0 {
        None => None,
        Some(n) => {
            let class = match st.2 {
                Some(c) => c,
                None => Seq::<char>::empty(),
            };
            let desc = match st.1 {
                Some(d) => d,
                None => n,
            };
            if class == "Audio/Source"@ {
                Some((n, desc, AudioInputKind::Source))
            } else if class == "Audio/Sink"@ {
                Some((n, desc + " (monitor)"@, AudioInputKind::Monitor))
            } else {
                None
            }
        },
    }
}

pub open spec fn opt_list(o: Option<PwNode>) -> Seq<PwNode> {
    match o {
        Some(x) => seq![x],
        None => Seq::empty(),
    }
}

/// One line of `pw-cli ls Node` output applied to the parser state: an `id ...` line
/// closes the current node, property lines record its name, description and class.
pub open spec fn pw_step(st: PwState, line: Seq<char>) -> (PwState, Option<PwNode>) {
    let t = trim_ws(line);
    if has_prefix(t, "id "@) {
        ((None, None, None), flush_node(st))
    } else if prop_value(t, "node.name = "@) is Some {
        ((prop_value(t, "node.name = "@), st.1, st.2), None)
    } else if prop_value(t, "node.description = "@) is Some {
        ((st.0, prop_value(t, "node.description = "@), st.2), None)
    } else if prop_value(t, "media.class = "@) is Some {
        ((st.0, st.1, prop_value(t, "media.class = "@)), None)
    } else {
        (st, None)
    }
}

/// Index of the first newline at or after `pos` (or the end of the text).
pub open spec fn next_newline(text: Seq<char>, pos: int) -> int
    decreases text.len() - pos,
{
    if pos >= text.len() {
        text.len() as int
    } else if text[pos] == '\n' {
        pos
    } else {
        next_newline(text, pos + 1)
    }
}

pub proof fn lemma_next_newline_bounds(text: Seq<char>, pos: int)
    requires
        0 <= pos <= text.len(),
    ensures
        pos <= next_newline(text, pos) <= text.len(),
        next_newline(text, pos) < text.len() ==> text[next_newline(text, pos)] == '\n',
    decreases text.len() - pos,
{
    if pos < text.len() && text[pos] != '\n' {
        lemma_next_newline_bounds(text, pos + 1);
    }
}

/// Nodes found in `text` from line start `pos` on, in order of appearance.
pub open spec fn pw_nodes_from(text: Seq<char>, pos: int, st: PwState) -> Seq<PwNode>
    decreases text.len() - pos,
{
    if pos < 0 || pos > text.len() {
        Seq::empty()
    } else {
        let e = next_newline(text, pos);
        proof {
            lemma_next_newline_bounds(text, pos);
        }
        let (st2, o) = pw_step(st, text.subrange(pos, e));
        if e >= text.len() {
            opt_list(o) + opt_list(flush_node(st2))
        } else {
            opt_list(o) + pw_nodes_from(text, e + 1, st2)
        }
    }
}

/// Capturable nodes of a `pw-cli ls Node` listing, in order of appearance.
pub open spec fn pw_nodes(text: Seq<char>) -> Seq<PwNode> {
    pw_nodes_from(text, 0, (None, None, None))
}

/// Sort key of a node: its label, lower-cased.
pub open spec fn node_key(n: PwNode) -> Seq<char> {
    lowercase(n.1)
}

/// Node `x` comes before node `y` in the listing: smaller key, or equal keys and
/// earlier appearance (the sort is stable).
pub open spec fn node_before(nodes: Seq<PwNode>, x: int, y: int) -> bool {
    seq_lt(node_key(nodes[x]), node_key(nodes[y])) || (node_key(nodes[x]) == node_key(nodes[y]) && x < y)
}

/// `p` lists every index of `nodes` once, in listing order.
pub open spec fn is_sorted_order(nodes: Seq<PwNode>, p: Seq<int>) -> bool {
    &&& p.len() == nodes.len()
    &&& forall|i: int| 0 <= i < p.len() ==> 0 <= #[trigger] p[i] < nodes.len()
    &&& forall|i: int, j: int| 0 <= i < j < p.len() ==> node_before(nodes, #[trigger] p[i], #[trigger] p[j])
}

pub open spec fn device_view(d: AudioInputDevice) -> PwNode {
    (d.id@, d.name@, d.kind)
}

pub open spec fn opt_vec_view(o: Option<Vec<char>>) -> Option<Seq<char>> {
    match o {
        Some(v) => Some(v@),
        None => None,
    }
}

fn find_newline(v: &Vec<char>, pos: usize) -> (e: usize)
    requires
        pos <= v.len(),
    ensures
        e == next_newline(v@, pos as int),
        pos <= e <= v.len(),
    decreases v.len() - pos,
{
    if pos >= v.len() {
        v.len()
    } else if v[pos] == '\n' {
        pos
    } else {
        find_newline(v, pos + 1)
    }
}

/// Bounds of `trim_quotes(v[a..b])`.
fn trim_quote_bounds(v: &Vec<char>, a: usize, b: usize) -> (r: (usize, usize))
    requires
        a <= b <= v.len(),
    ensures
        a <= r.0 <= r.1 <= b,
        trim_quotes(v@.subrange(a as int, b as int)) == v@.subrange(r.0 as int, r.1 as int),
{
    let mut x = a;
    while x < b && v[x] == '"'
        invariant
            a <= x <= b <= v.len(),
            trim_start_char(v@.subrange(a as int, b as int), '"') == trim_start_char(
                v@.subrange(x as int, b as int),
                '"',
            ),
        decreases b - x,
    {
        assert(v@.subrange(x as int, b as int).drop_first() =~= v@.subrange(x + 1, b as int));
        x += 1;
    }
    if x < b {
        assert(trim_start_char(v@.subrange(x as int, b as int), '"') == v@.subrange(x as int, b as int));
    }
    let mut y = b;
    while y > x && v[y - 1] == '"'
        invariant
            a <= x <= y <= b <= v.len(),
            trim_end_char(v@.subrange(x as int, b as int), '"') == trim_end_char(
                v@.subrange(x as int, y as int),
                '"',
            ),
        decreases y - x,
    {
        assert(v@.subrange(x as int, y as int).drop_last() =~= v@.subrange(x as int, y - 1));
        y -= 1;
    }
    if y > x {
        assert(trim_end_char(v@.subrange(x as int, y as int), '"') == v@.subrange(x as int, y as int));
    }
    (x, y)
}

/// Bounds of `prop_value(v[a..b], prefix)`, if the line carries that property.
fn prop_bounds(v: &Vec<char>, a: usize, b: usize, prefix: &str) -> (r: Option<(usize, usize)>)
    requires
        a <= b <= v.len(),
    ensures
        match prop_value(v@.subrange(a as int, b as int), prefix@) {
            Some(val) => r matches Some((x, y)) && x <= y <= v.len() && v@.subrange(x as int, y as int) == val,
            None => r is None,
        },
{
    let p = chars_vec(prefix);
    let plen = p.len();
    let ghost t = v@.subrange(a as int, b as int);
    if b - a < plen || !chars_range_eq(v, a, a + plen, prefix) {
        proof {
            if b - a >= plen {
                assert(t.take(plen as int) =~= v@.subrange(a as int, a + plen));
            }
        }
        return None;
    }
    assert(t.take(plen as int) =~= v@.subrange(a as int, a + plen));
    let (x0, y0) = trim_bounds(v, a + plen, b);
    assert(t.skip(plen as int) =~= v@.subrange(a + plen, b as int));
    let (x, y) = trim_quote_bounds(v, x0, y0);
    Some((x, y))
}

/// The node completed by the current state, as a device.
fn flush_exec(name: &Option<Vec<char>>, desc: &Option<Vec<char>>, class: &Option<Vec<char>>) -> (r: Option<AudioInputDevice>)
    ensures
        match flush_node((opt_vec_view(*name), opt_vec_view(*desc), opt_vec_view(*class))) {
            Some(node) => r matches Some(d) && device_view(d) == node,
            None => r is None,
        },
{
    match name {
        None => None,
        Some(n) => {
            let empty: Vec<char> = Vec::new();
            let cls: &Vec<char> = match class {
                Some(c) => c,
                None => &empty,
            };
            let dsc: &Vec<char> = match desc {
                Some(d) => d,
                None => n,
            };
            assert(empty@ =~= Seq::<char>::empty());
            let is_source = chars_range_eq(cls, 0, cls.len(), "Audio/Source");
            let is_sink = chars_range_eq(cls, 0, cls.len(), "Audio/Sink");
            assert(cls@.subrange(0, cls.len() as int) =~= cls@);
            if is_source {
                let id = string_from_chars(n, 0, n.len());
                let label = string_from_chars(dsc, 0, dsc.len());
                assert(n@.subrange(0, n.len() as int) =~= n@);
                assert(dsc@.subrange(0, dsc.len() as int) =~= dsc@);
                Some(AudioInputDevice { id, name: label, kind: AudioInputKind::Source })
            } else if is_sink {
                let id = string_from_chars(n, 0, n.len());
                let mut label = string_from_chars(dsc, 0, dsc.len());
                label.append(" (monitor)");
                assert(n@.subrange(0, n.len() as int) =~= n@);
                assert(dsc@.subrange(0, dsc.len() as int) =~= dsc@);
                Some(AudioInputDevice { id, name: label, kind: AudioInputKind::Monitor })
            } else {
                None
            }
        },
    }
}

/// Inserts node number `m` (appearance order) into the sorted listing.
fn insert_sorted(
    out: &mut Vec<AudioInputDevice>,
    keys: &mut Vec<Vec<char>>,
    dev: AudioInputDevice,
    Ghost(nodes): Ghost<Seq<PwNode>>,
    Ghost(p): Ghost<Seq<int>>,
) -> (p2: Ghost<Seq<int>>)
    requires
        nodes.len() == old(out).len() + 1,
        device_view(dev) == nodes.last(),
        is_sorted_order(nodes.drop_last(), p),
        old(out).len() == p.len() == old(keys).len(),
        forall|i: int| 0 <= i < p.len() ==> device_view(#[trigger] old(out)@[i]) == nodes[p[i]],
        forall|i: int| 0 <= i < p.len() ==> (#[trigger] old(keys)@[i])@ == node_key(nodes[p[i]]),
    ensures
        is_sorted_order(nodes, p2@),
        final(out).len() == p2@.len() == final(keys).len(),
        forall|i: int| 0 <= i < p2@.len() ==> device_view(#[trigger] final(out)@[i]) == nodes[p2@[i]],
        forall|i: int| 0 <= i < p2@.len() ==> (#[trigger] final(keys)@[i])@ == node_key(nodes[p2@[i]]),
{
    let m = out.len();
    let key_s = str_to_lowercase(dev.name.as_str());
    let key = chars_vec(key_s.as_str());
    let ghost kk = key@;
    assert(kk == node_key(nodes[m as int]));
    let mut j: usize = 0;
    while j < keys.len() && !chars_lt(&key, &keys[j])
        invariant
            j <= keys.len() == p.len(),
            key@ == kk,
            forall|i: int| 0 <= i < j ==> !seq_lt(kk, #[trigger] keys@[i]@),
        decreases keys.len() - j,
    {
        j += 1;
    }
    let ghost p2 = p.insert(j as int, m as int);
    proof {
        let old_nodes = nodes.drop_last();
        assert forall|i: int| 0 <= i < p2.len() implies 0 <= #[trigger] p2[i] < nodes.len() by {
            if i < j {
                assert(p2[i] == p[i]);
            } else if i > j {
                assert(p2[i] == p[i - 1]);
            }
        }
        assert forall|a: int, b: int| 0 <= a < b < p2.len() implies node_before(nodes, #[trigger] p2[a], #[trigger] p2[b]) by {
            let ka = node_key(nodes[p2[a]]);
            let kb = node_key(nodes[p2[b]]);
            if a < j && b < j {
                assert(p2[a] == p[a] && p2[b] == p[b]);
                assert(node_before(old_nodes, p[a], p[b]));
            } else if a > j && b > j {
                assert(p2[a] == p[a - 1] && p2[b] == p[b - 1]);
                assert(node_before(old_nodes, p[a - 1], p[b - 1]));
            } else if a < j && b > j {
                assert(p2[a] == p[a] && p2[b] == p[b - 1]);
                assert(node_before(old_nodes, p[a], p[b - 1]));
            } else if a == j {
                // new node first: kk < key at position j <= keys after
                assert(p2[b] == p[b - 1]);
                assert(j < keys.len());
                assert(seq_lt(kk, keys@[j as int]@));
                if b - 1 > j {
                    assert(node_before(old_nodes, p[j as int], p[b - 1]));
                    let kj = keys@[j as int]@;
                    if seq_lt(kj, kb) {
                        lemma_seq_lt_transitive(kk, kj, kb);
                    }
                }
            } else {
                // b == j: node at a (< j) is not after the new one
                assert(p2[a] == p[a]);
                assert(!seq_lt(kk, keys@[a]@));
                lemma_seq_lt_total(kk, keys@[a]@);
                assert(p[a] < m);
            }
        }
    }
    out.insert(j, dev);
    keys.insert(j, key);
    proof {
        assert forall|i: int| 0 <= i < p2.len() implies device_view(#[trigger] out@[i]) == nodes[p2[i]] by {
            if i < j {
                assert(out@[i] == old(out)@[i]);
            } else if i > j {
                assert(out@[i] == old(out)@[i - 1]);
            }
        }
        assert forall|i: int| 0 <= i < p2.len() implies (#[trigger] keys@[i])@ == node_key(nodes[p2[i]]) by {
            if i < j {
                assert(keys@[i] == old(keys)@[i]);
            } else if i > j {
                assert(keys@[i] == old(keys)@[i - 1]);
            }
        }
    }
    Ghost(p2)
}

/// Capturable nodes (`Audio/Source` microphones and `Audio/Sink` monitors) of a
/// `pw-cli ls Node` listing, sorted by lower-cased label (stable).
pub fn parse_pw_cli_nodes(text: &str) -> (r: Vec<AudioInputDevice>)
    ensures
        exists|p: Seq<int>| {
            &&& is_sorted_order(pw_nodes(text@), p)
            &&& r.len() == p.len()
            &&& forall|i: int| 0 <= i < r.len() ==> device_view(#[trigger] r@[i]) == pw_nodes(text@)[p[i]]
        },
{
    let v = chars_vec(text);
    let n = v.len();
    let mut pos: usize = 0;
    let mut name: Option<Vec<char>> = None;
    let mut desc: Option<Vec<char>> = None;
    let mut class: Option<Vec<char>> = None;
    let mut out: Vec<AudioInputDevice> = Vec::new();
    let mut keys: Vec<Vec<char>> = Vec::new();
    let ghost mut produced: Seq<PwNode> = Seq::empty();
    let ghost mut p: Seq<int> = Seq::empty();
    let ghost all = pw_nodes(v@);
    assert(v@ == text@);
    loop
        invariant_except_break
            produced + pw_nodes_from(v@, pos as int, (opt_vec_view(name), opt_vec_view(desc), opt_vec_view(class))) == all,
        invariant
            v@ == text@,
            n == v.len(),
            pos <= n,
            all == pw_nodes(v@),
            is_sorted_order(produced, p),
            out.len() == p.len() == keys.len(),
            forall|i: int| 0 <= i < p.len() ==> device_view(#[trigger] out@[i]) == produced[p[i]],
            forall|i: int| 0 <= i < p.len() ==> (#[trigger] keys@[i])@ == node_key(produced[p[i]]),
        ensures
            produced == all,
            is_sorted_order(all, p),
            out.len() == p.len(),
            forall|i: int| 0 <= i < p.len() ==> device_view(#[trigger] out@[i]) == all[p[i]],
        decreases n - pos,
    {
        let ghost st = (opt_vec_view(name), opt_vec_view(desc), opt_vec_view(class));
        let e = find_newline(&v, pos);
        let (a, b) = trim_bounds(&v, pos, e);
        let ghost line = v@.subrange(pos as int, e as int);
        let ghost t = trim_ws(line);
        assert(t == v@.subrange(a as int, b as int));
        let ghost (st2, o) = pw_step(st, line);
        let mut emitted: Option<AudioInputDevice> = None;
        let is_id = b - a >= 3 && chars_range_eq(&v, a, a + 3, "id ");
        proof {
            reveal_strlit("id ");
            lemma_next_newline_bounds(v@, pos as int);
            if b - a >= 3 {
                assert(t.take(3) =~= v@.subrange(a as int, a + 3));
            }
        }
        if is_id {
            emitted = flush_exec(&name, &desc, &class);
            name = None;
            desc = None;
            class = None;
        } else if let Some((x, y)) = prop_bounds(&v, a, b, "node.name = ") {
            name = Some(v_sub(&v, x, y));
        } else if let Some((x, y)) = prop_bounds(&v, a, b, "node.description = ") {
            desc = Some(v_sub(&v, x, y));
        } else if let Some((x, y)) = prop_bounds(&v, a, b, "media.class = ") {
            class = Some(v_sub(&v, x, y));
        }
        assert((opt_vec_view(name), opt_vec_view(desc), opt_vec_view(class)) == st2);
        assert(match o {
            Some(node) => emitted matches Some(d) && device_view(d) == node,
            None => emitted is None,
        });
        // Emit the node this line closed, if any.
        match emitted {
            Some(d) => {
                let ghost nodes = produced.push(device_view(d));
                let pp = insert_sorted(&mut out, &mut keys, d, Ghost(nodes), Ghost(p));
                proof {
                    assert(nodes.drop_last() =~= produced);
                    produced = nodes;
                    p = pp@;
                }
            },
            None => {},
        }
        if e >= n {
            // End of text: the node still open is complete.
            let last = flush_exec(&name, &desc, &class);
            match last {
                Some(d) => {
                    let ghost nodes = produced.push(device_view(d));
                    let pp = insert_sorted(&mut out, &mut keys, d, Ghost(nodes), Ghost(p));
                    proof {
                        assert(nodes.drop_last() =~= produced);
                        produced = nodes;
                        p = pp@;
                    }
                },
                None => {},
            }
            break;
        }
        pos = e + 1;
    }
    out
}

fn v_sub(v: &Vec<char>, x: usize, y: usize) -> (r: Vec<char>)
    requires
        x <= y <= v.len(),
    ensures
        r@ == v@.subrange(x as int, y as int),
{
    let mut r: Vec<char> = Vec::new();
    let mut i = x;
    while i < y
        invariant
            x <= i <= y <= v.len(),
            r@ == v@.subrange(x as int, i as int),
        decreases y - i,
    {
        r.push(v[i]);
        assert(v@.subrange(x as int, i + 1) =~= v@.subrange(x as int, i as int).push(v@[i as int]));
        i += 1;
    }
    r
}

} // verus!
