//! Persistent device registry (`devices.json` contents) and LAN discovery matching.

use vstd::prelude::*;
use vstd::string::StrSliceExecFns;
use crate::strs::{
    chars_lt, chars_range_eq, chars_vec, has_suffix, is_white_space, lemma_seq_lt_total, lemma_seq_lt_transitive,
    lemma_trim_end_ws_take, lemma_trim_start_ws_skip, lemma_trim_ws_piece, seq_lt, str_eq, string_from_chars,
    trim_bounds, trim_end_char, trim_start_ws, trim_ws,
};

verus! {

pub const DEFAULT_OUTPUT_FPS: u32 = 120;

/// The 128-bit value of the UUID that `uuid::Uuid::parse_str` reads from `s`, if it parses.
pub uninterp spec fn uuid_from_str(s: Seq<char>) -> Option<u128>;

/// Version field of a UUID value (bits 76..80, the high nibble of byte 6).
pub open spec fn uuid_version(bits: u128) -> int {
    (bits as int / 0x1000_0000_0000_0000_0000) % 16
}

pub open spec fn spec_is_uuid_v7(id: Seq<char>) -> bool {
    uuid_from_str(id) matches Some(b) && uuid_version(b) == 7
}

/// `uuid::Uuid::parse_str(s)`, read as its 128-bit value.
#[verifier::external_body]
pub(crate) fn parse_uuid_bits(s: &str) -> (r: Option<u128>)
    ensures
        r == uuid_from_str(s@),
{
    uuid::Uuid::parse_str(s).ok().map(|u| u.as_u128())
}

/// Version number of the UUID with value `bits` (the high nibble of byte 6, what
/// `uuid::Uuid::get_version_num` reads).
fn uuid_version_num(bits: u128) -> (r: usize)
    ensures
        r == uuid_version(bits),
{
    let v: u128 = (bits >> 76u128) & 0xfu128;
    assert(v == (bits >> 76u128) & 0xfu128);
    assert((bits >> 76u128) & 0xfu128 == (bits / 0x1000_0000_0000_0000_0000) % 16) by (bit_vector);
    v as usize
}

/// A new UUID v7 (time-ordered) for a new device, in hyphenated form
/// (`uuid::Uuid::now_v7().to_string()`). Which UUID comes out depends on the clock and
/// on chance; what holds of every outcome is that it parses back as a version 7 UUID.
#[verifier::external_body]
pub fn new_device_id() -> (r: String)
    ensures
        spec_is_uuid_v7(r@),
{
    uuid::Uuid::now_v7().to_string()
}

/// Whether `id` is a UUID whose version is 7.
pub fn is_uuid_v7(id: &str) -> (r: bool)
    ensures
        r == spec_is_uuid_v7(id@),
{
    match parse_uuid_bits(id) {
        Some(b) => uuid_version_num(b) == 7,
        None => false,
    }
}

/// `s` with its trailing dots and `.local` suffixes stripped, repeatedly, until it ends
/// in neither.
pub open spec fn strip_host_tail(s: Seq<char>) -> Seq<char>
    decreases s.len(),
{
    if s.len() > 0 && s.last() == '.' {
        strip_host_tail(s.drop_last())
    } else if s.len() >= 6 && s.skip(s.len() - 6) == ".local"@ {
        strip_host_tail(s.take(s.len() - 6))
    } else {
        s
    }
}

/// The mDNS host label of `raw`: trimmed, without trailing dots or `.local`
/// suffixes; `None` when nothing is left.
pub open spec fn spec_normalize_mdns_hostname(raw: Seq<char>) -> Option<Seq<char>> {
    let s = strip_host_tail(trim_ws(raw));
    if s.len() == 0 {
        None
    } else {
        Some(s)
    }
}

proof fn lemma_strip_host_tail(s: Seq<char>)
    ensures
        strip_host_tail(s).len() <= s.len(),
        strip_host_tail(s) == s.take(strip_host_tail(s).len() as int),
        strip_host_tail(s).len() > 0 ==> strip_host_tail(s).last() != '.',
        !has_suffix(strip_host_tail(s), ".local"@),
    decreases s.len(),
{
    reveal_strlit(".local");
    if s.len() > 0 && s.last() == '.' {
        lemma_strip_host_tail(s.drop_last());
        let r = strip_host_tail(s.drop_last());
        assert(s.drop_last().take(r.len() as int) =~= s.take(r.len() as int));
    } else if s.len() >= 6 && s.skip(s.len() - 6) == ".local"@ {
        lemma_strip_host_tail(s.take(s.len() - 6));
        let r = strip_host_tail(s.take(s.len() - 6));
        assert(s.take(s.len() - 6).take(r.len() as int) =~= s.take(r.len() as int));
    } else {
        assert(s.take(s.len() as int) =~= s);
    }
}

/// Host-label law: a normalized label is non-empty, starts with no white space, and
/// ends in neither a dot nor `.local`.
pub proof fn lemma_normalized_host_is_bare(raw: Seq<char>)
    ensures
        spec_normalize_mdns_hostname(raw) matches Some(h) ==> {
            &&& h.len() > 0
            &&& h.last() != '.'
            &&& !has_suffix(h, ".local"@)
            &&& trim_start_ws(h) == h
        },
{
    let t = trim_ws(raw);
    lemma_strip_host_tail(t);
    let h = strip_host_tail(t);
    lemma_trim_ws_piece(raw);
    if h.len() > 0 {
        assert(h[0] == t[0]);
        if is_white_space(t[0]) {
            let k = lemma_trim_start_ws_skip(t);
            let u = trim_start_ws(t);
            let j = lemma_trim_end_ws_take(u);
            assert(k >= 1);
            assert(trim_ws(t).len() <= u.len());
            assert(trim_ws(t) == t);
            assert(false);
        }
        reveal_with_fuel(trim_start_ws, 2);
    }
}

/// Normalizes to an mDNS host label (no `.local` suffix, no trailing `.`).
pub fn normalize_mdns_hostname(raw: &str) -> (r: Option<String>)
    ensures
        match spec_normalize_mdns_hostname(raw@) {
            Some(h) => r matches Some(s) && s@ == h,
            None => r is None,
        },
{
    let v = chars_vec(raw);
    let (a, b0) = trim_bounds(&v, 0, v.len());
    assert(v@.subrange(0, v.len() as int) =~= raw@);
    proof {
        reveal_strlit(".local");
    }
    let mut b = b0;
    loop
        invariant
            a <= b <= b0 <= v.len(),
            strip_host_tail(trim_ws(raw@)) == strip_host_tail(v@.subrange(a as int, b as int)),
        ensures
            a <= b <= v.len(),
            strip_host_tail(trim_ws(raw@)) == v@.subrange(a as int, b as int),
        decreases b,
    {
        let ghost s = v@.subrange(a as int, b as int);
        if b > a && v[b - 1] == '.' {
            assert(s.drop_last() =~= v@.subrange(a as int, b - 1));
            b -= 1;
        } else if b - a >= 6 && chars_range_eq(&v, b - 6, b, ".local") {
            assert(s.skip(s.len() - 6) =~= v@.subrange(b - 6, b as int));
            assert(s.take(s.len() - 6) =~= v@.subrange(a as int, b - 6));
            b -= 6;
        } else {
            proof {
                reveal_strlit(".local");
                if b - a >= 6 {
                    assert(s.skip(s.len() - 6) =~= v@.subrange(b - 6, b as int));
                }
                if b > a {
                    assert(s.last() == v@[b - 1]);
                }
                assert(strip_host_tail(s) == s);
            }
            break;
        }
    }
    if a == b {
        None
    } else {
        Some(string_from_chars(&v, a, b))
    }
}

/// Two host names denote the same mDNS host (both normalize, to the same label).
pub fn mdns_hosts_match(a: &str, b: &str) -> (r: bool)
    ensures
        r == (spec_normalize_mdns_hostname(a@) is Some && spec_normalize_mdns_hostname(a@)
            == spec_normalize_mdns_hostname(b@)),
{
    match (normalize_mdns_hostname(a), normalize_mdns_hostname(b)) {
        (Some(x), Some(y)) => str_eq(x.as_str(), y.as_str()),
        _ => false,
    }
}

} // verus!

verus! {

/// A registered device. `T` carries the device's master tone and front orientation,
/// which the registry stores and hands back but never interprets.
#[derive(Debug, Clone)]
pub struct DeviceRecord<T> {
    pub id: String,
    pub display_name: String,
    pub esp_ip: Option<String>,
    pub mdns_hostname: Option<String>,
    pub layout_id: String,
    pub output_fps: u32,
    pub tone: T,
}

/// A trimmed, non-empty host string, if `o` holds one.
pub open spec fn trimmed_host(o: Option<String>) -> Option<Seq<char>> {
    match o {
        Some(s) => if trim_ws(s@).len() == 0 {
            None
        } else {
            Some(trim_ws(s@))
        },
        None => None,
    }
}

pub open spec fn opt_str_view(o: Option<&str>) -> Option<Seq<char>> {
    match o {
        Some(s) => Some(s@),
        None => None,
    }
}

pub open spec fn opt_string_view(o: Option<String>) -> Option<Seq<char>> {
    match o {
        Some(s) => Some(s@),
        None => None,
    }
}

pub(crate) fn trimmed_host_of(o: &Option<String>) -> (r: Option<&str>)
    ensures
        opt_str_view(r) == trimmed_host(*o),
{
    match o {
        Some(s) => {
            let v = chars_vec(s.as_str());
            let (a, b) = trim_bounds(&v, 0, v.len());
            assert(v@.subrange(0, v.len() as int) =~= s@);
            if a == b {
                None
            } else {
                Some(s.as_str().substring_char(a, b))
            }
        },
        None => None,
    }
}

impl<T> DeviceRecord<T> {
    pub open spec fn spec_esp_ip_host(&self) -> Option<Seq<char>> {
        trimmed_host(self.esp_ip)
    }

    pub open spec fn spec_mdns_host(&self) -> Option<Seq<char>> {
        trimmed_host(self.mdns_hostname)
    }

    /// The ESP's IP as configured, trimmed; `None` when unset or blank.
    pub fn esp_ip_host(&self) -> (r: Option<&str>)
        ensures
            opt_str_view(r) == self.spec_esp_ip_host(),
    {
        trimmed_host_of(&self.esp_ip)
    }

    /// The configured mDNS host name, trimmed; `None` when unset or blank.
    pub fn mdns_host(&self) -> (r: Option<&str>)
        ensures
            opt_str_view(r) == self.spec_mdns_host(),
    {
        trimmed_host_of(&self.mdns_hostname)
    }
}

/// Why the registry refused a request.
#[derive(Debug, Clone)]
pub enum DeviceError {
    /// "device id must be UUID version 7"
    InvalidId,
    /// "layout_id invalid"
    LayoutIdInvalid,
    /// "output_fps must be at least 1"
    OutputFpsZero,
    /// "unknown layout_id: {layout_id}"
    UnknownLayout(String),
    /// "esp_ip already used by device {id}"
    IpInUse(String),
    /// "device not found: {id}"
    NotFound(String),
    /// "cannot remove the last registered device"
    LastDevice,
    /// "duplicate device id: {id}"
    DuplicateId(String),
    /// "duplicate esp_ip: {ip}"
    DuplicateIp(String),
}

impl DeviceError {
    pub open spec fn spec_message(&self) -> Seq<char> {
        match self {
            DeviceError::InvalidId => "device id must be UUID version 7"@,
            DeviceError::LayoutIdInvalid => "layout_id invalid"@,
            DeviceError::OutputFpsZero => "output_fps must be at least 1"@,
            DeviceError::UnknownLayout(l) => "unknown layout_id: "@ + l@,
            DeviceError::IpInUse(id) => "esp_ip already used by device "@ + id@,
            DeviceError::NotFound(id) => "device not found: "@ + id@,
            DeviceError::LastDevice => "cannot remove the last registered device"@,
            DeviceError::DuplicateId(id) => "duplicate device id: "@ + id@,
            DeviceError::DuplicateIp(ip) => "duplicate esp_ip: "@ + ip@,
        }
    }

    /// The human-readable error text.
    pub fn message(&self) -> (r: String)
        ensures
            r@ == self.spec_message(),
    {
        match self {
            DeviceError::InvalidId => String::from_str("device id must be UUID version 7"),
            DeviceError::LayoutIdInvalid => String::from_str("layout_id invalid"),
            DeviceError::OutputFpsZero => String::from_str("output_fps must be at least 1"),
            DeviceError::UnknownLayout(l) => {
                let mut s = String::from_str("unknown layout_id: ");
                s.append(l.as_str());
                s
            },
            DeviceError::IpInUse(id) => {
                let mut s = String::from_str("esp_ip already used by device ");
                s.append(id.as_str());
                s
            },
            DeviceError::NotFound(id) => {
                let mut s = String::from_str("device not found: ");
                s.append(id.as_str());
                s
            },
            DeviceError::LastDevice => String::from_str("cannot remove the last registered device"),
            DeviceError::DuplicateId(id) => {
                let mut s = String::from_str("duplicate device id: ");
                s.append(id.as_str());
                s
            },
            DeviceError::DuplicateIp(ip) => {
                let mut s = String::from_str("duplicate esp_ip: ");
                s.append(ip.as_str());
                s
            },
        }
    }
}

/// Device ids must be UUID v7.
pub fn validate_device_id(id: &str) -> (r: Result<(), DeviceError>)
    ensures
        r is Ok <==> spec_is_uuid_v7(id@),
        r matches Err(e) ==> e == DeviceError::InvalidId,
{
    if !is_uuid_v7(id) {
        return Err(DeviceError::InvalidId);
    }
    Ok(())
}

/// A record is acceptable: v7 id, path-safe layout id, positive fps, known layout.
pub open spec fn record_ok<T>(rec: DeviceRecord<T>, layout_known: bool) -> bool {
    &&& spec_is_uuid_v7(rec.id@)
    &&& crate::strs::is_path_segment(rec.layout_id@)
    &&& rec.output_fps != 0
    &&& layout_known
}

/// `e` is the error reported for an unacceptable record (checks in order: id, layout id,
/// fps, layout existence).
pub open spec fn record_error_matches<T>(rec: DeviceRecord<T>, layout_known: bool, e: DeviceError) -> bool {
    if !spec_is_uuid_v7(rec.id@) {
        e == DeviceError::InvalidId
    } else if !crate::strs::is_path_segment(rec.layout_id@) {
        e == DeviceError::LayoutIdInvalid
    } else if rec.output_fps == 0 {
        e == DeviceError::OutputFpsZero
    } else {
        e matches DeviceError::UnknownLayout(l) && l@ == rec.layout_id@
    }
}

/// Checks one record; `layout_known` tells whether the compiled layout meta for
/// `rec.layout_id` exists.
pub fn validate_record<T>(rec: &DeviceRecord<T>, layout_known: bool) -> (r: Result<(), DeviceError>)
    ensures
        r is Ok <==> record_ok(*rec, layout_known),
        r matches Err(e) ==> record_error_matches(*rec, layout_known, e),
{
    validate_device_id(rec.id.as_str())?;
    if !crate::strs::is_path_segment_exec(rec.layout_id.as_str()) {
        return Err(DeviceError::LayoutIdInvalid);
    }
    if rec.output_fps == 0 {
        return Err(DeviceError::OutputFpsZero);
    }
    if !layout_known {
        return Err(DeviceError::UnknownLayout(rec.layout_id.clone()));
    }
    Ok(())
}

/// Device `d` would share its ESP IP with `new_rec` (and is not the record being replaced).
pub open spec fn ip_conflict<T>(d: DeviceRecord<T>, new_rec: DeviceRecord<T>, replace_id: Option<Seq<char>>) -> bool {
    &&& !(replace_id == Some(d.id@))
    &&& new_rec.spec_esp_ip_host() is Some
    &&& d.spec_esp_ip_host() == new_rec.spec_esp_ip_host()
}

/// No other device already uses `new_rec`'s ESP IP (the one with `replace_id` is skipped).
pub fn validate_unique_ips<T>(existing: &Vec<DeviceRecord<T>>, new_rec: &DeviceRecord<T>, replace_id: Option<&str>) -> (r: Result<(), DeviceError>)
    ensures
        r is Ok <==> forall|i: int| 0 <= i < existing.len() ==> !ip_conflict(#[trigger] existing@[i], *new_rec, opt_str_view(replace_id)),
        r matches Err(e) ==> exists|i: int|
            0 <= i < existing.len() && ip_conflict(#[trigger] existing@[i], *new_rec, opt_str_view(replace_id))
                && (forall|j: int| 0 <= j < i ==> !ip_conflict(#[trigger] existing@[j], *new_rec, opt_str_view(replace_id)))
                && (e matches DeviceError::IpInUse(id) && id@ == existing@[i].id@),
{
    let ip = match new_rec.esp_ip_host() {
        Some(ip) => ip,
        None => return Ok(()),
    };
    let mut i: usize = 0;
    while i < existing.len()
        invariant
            i <= existing.len(),
            opt_str_view(Some(ip)) == new_rec.spec_esp_ip_host(),
            forall|j: int| 0 <= j < i ==> !ip_conflict(#[trigger] existing@[j], *new_rec, opt_str_view(replace_id)),
        decreases existing.len() - i,
    {
        let d = &existing[i];
        let skip = match replace_id {
            Some(rid) => str_eq(rid, d.id.as_str()),
            None => false,
        };
        if !skip {
            match d.esp_ip_host() {
                Some(dip) => {
                    if str_eq(dip, ip) {
                        return Err(DeviceError::IpInUse(d.id.clone()));
                    }
                },
                None => {},
            }
        }
        i += 1;
    }
    Ok(())
}

/// Registry well-formedness: ids are unique, and so are the ESP IPs that are set.
pub open spec fn registry_wf<T>(devs: Seq<DeviceRecord<T>>) -> bool {
    forall|i: int, j: int|
        0 <= i < j < devs.len() ==> (#[trigger] devs[i]).id@ != (#[trigger] devs[j]).id@ && (
        devs[i].spec_esp_ip_host() is Some ==> devs[i].spec_esp_ip_host() != devs[j].spec_esp_ip_host())
}

/// Index of the first record with id `id`, if any.
pub open spec fn id_position<T>(devs: Seq<DeviceRecord<T>>, id: Seq<char>) -> Option<int> {
    if exists|i: int| 0 <= i < devs.len() && devs[i].id@ == id {
        Some(choose|i: int| 0 <= i < devs.len() && devs[i].id@ == id && forall|j: int| 0 <= j < i ==> devs[j].id@ != id)
    } else {
        None
    }
}

fn find_id<T>(devs: &Vec<DeviceRecord<T>>, id: &str) -> (r: Option<usize>)
    ensures
        match id_position(devs@, id@) {
            Some(i) => r == Some(i as usize),
            None => r is None,
        },
        r matches Some(i) ==> i < devs.len() && devs@[i as int].id@ == id@ && forall|j: int| 0 <= j < i ==> devs@[j].id@ != id@,
{
    let mut i: usize = 0;
    while i < devs.len()
        invariant
            i <= devs.len(),
            forall|j: int| 0 <= j < i ==> devs@[j].id@ != id@,
        decreases devs.len() - i,
    {
        if str_eq(devs[i].id.as_str(), id) {
            proof {
                let c = choose|k: int| 0 <= k < devs.len() && devs@[k].id@ == id@ && forall|j: int| 0 <= j < k ==> devs@[j].id@ != id@;
                assert(exists|k: int| 0 <= k < devs.len() && devs@[k].id@ == id@);
                if c < i {
                } else if c > i {
                    assert(devs@[i as int].id@ == id@);
                }
            }
            return Some(i);
        }
        i += 1;
    }
    None
}

/// `stored` is `rec` as the registry keeps it: the mDNS host name normalized, all
/// other fields as given.
pub open spec fn upserted<T>(rec: DeviceRecord<T>, stored: DeviceRecord<T>) -> bool {
    &&& stored.id == rec.id
    &&& stored.display_name == rec.display_name
    &&& stored.esp_ip == rec.esp_ip
    &&& opt_string_view(stored.mdns_hostname) == (match rec.mdns_hostname {
        Some(h) => spec_normalize_mdns_hostname(h@),
        None => None,
    })
    &&& stored.layout_id == rec.layout_id
    &&& stored.output_fps == rec.output_fps
    &&& stored.tone == rec.tone
}

/// Discovered `_glowbe._udp` service (host name, IPv4 address, UDP port).
#[derive(Debug, Clone)]
pub struct GlowbeService {
    pub hostname: String,
    pub ipv4: String,
    pub port: u16,
}

/// A discovered ESP, with the id of the registered device it belongs to, if any.
#[derive(Debug, Clone)]
pub struct DiscoveredEsp {
    pub hostname: String,
    pub ipv4: String,
    pub port: u16,
    pub registered_device_id: Option<String>,
}

/// Id of the last record whose ESP IP is `ip`.
pub open spec fn last_ip_owner<T>(devs: Seq<DeviceRecord<T>>, ip: Seq<char>) -> Option<Seq<char>> {
    if exists|i: int| 0 <= i < devs.len() && devs[i].spec_esp_ip_host() == Some(ip) {
        Some(devs[choose|i: int| 0 <= i < devs.len() && devs[i].spec_esp_ip_host() == Some(ip) && forall|j: int| i < j < devs.len() ==> devs[j].spec_esp_ip_host() != Some(ip)].id@)
    } else {
        None
    }
}

/// The normalized mDNS host of a record.
pub open spec fn record_mdns_label<T>(d: DeviceRecord<T>) -> Option<Seq<char>> {
    match d.mdns_hostname {
        Some(h) => spec_normalize_mdns_hostname(h@),
        None => None,
    }
}

/// Id of the last record whose normalized mDNS host is `host`.
pub open spec fn last_host_owner<T>(devs: Seq<DeviceRecord<T>>, host: Seq<char>) -> Option<Seq<char>> {
    if exists|i: int| 0 <= i < devs.len() && record_mdns_label(devs[i]) == Some(host) {
        Some(devs[choose|i: int| 0 <= i < devs.len() && record_mdns_label(devs[i]) == Some(host) && forall|j: int| i < j < devs.len() ==> record_mdns_label(devs[j]) != Some(host)].id@)
    } else {
        None
    }
}

/// The registered device a discovered service belongs to: matched by IP first, then by host name.
pub open spec fn registered_owner<T>(devs: Seq<DeviceRecord<T>>, s: GlowbeService) -> Option<Seq<char>> {
    match last_ip_owner(devs, s.ipv4@) {
        Some(id) => Some(id),
        None => last_host_owner(devs, s.hostname@),
    }
}

/// Discovery law: a service whose IPv4 address is a registered device's ESP IP belongs to
/// that device (the last one, if several carry it), whatever host names any device has.
pub proof fn lemma_ip_match_wins<T>(devs: Seq<DeviceRecord<T>>, s: GlowbeService, k: int)
    requires
        0 <= k < devs.len(),
        devs[k].spec_esp_ip_host() == Some(s.ipv4@),
        forall|j: int| k < j < devs.len() ==> devs[j].spec_esp_ip_host() != Some(s.ipv4@),
    ensures
        registered_owner(devs, s) == Some(devs[k].id@),
{
    let c = choose|c: int|
        0 <= c < devs.len() && devs[c].spec_esp_ip_host() == Some(s.ipv4@) && forall|j: int|
            c < j < devs.len() ==> devs[j].spec_esp_ip_host() != Some(s.ipv4@);
    if c < k {
    } else if c > k {
    }
}

/// Discovery law: a service whose IPv4 address no device carries belongs to the last
/// device whose normalized mDNS host name is the service's host name.
pub proof fn lemma_host_match_when_no_ip<T>(devs: Seq<DeviceRecord<T>>, s: GlowbeService, k: int)
    requires
        forall|j: int| 0 <= j < devs.len() ==> devs[j].spec_esp_ip_host() != Some(s.ipv4@),
        0 <= k < devs.len(),
        record_mdns_label(devs[k]) == Some(s.hostname@),
        forall|j: int| k < j < devs.len() ==> record_mdns_label(devs[j]) != Some(s.hostname@),
    ensures
        registered_owner(devs, s) == Some(devs[k].id@),
{
    let c = choose|c: int|
        0 <= c < devs.len() && record_mdns_label(devs[c]) == Some(s.hostname@) && forall|j: int|
            c < j < devs.len() ==> record_mdns_label(devs[j]) != Some(s.hostname@);
    if c < k {
    } else if c > k {
    }
}

/// Discovery law: a service that matches no device by IP nor by host name is unregistered.
pub proof fn lemma_unmatched_service_unregistered<T>(devs: Seq<DeviceRecord<T>>, s: GlowbeService)
    requires
        forall|j: int| 0 <= j < devs.len() ==> devs[j].spec_esp_ip_host() != Some(s.ipv4@),
        forall|j: int| 0 <= j < devs.len() ==> record_mdns_label(devs[j]) != Some(s.hostname@),
    ensures
        registered_owner(devs, s) is None,
{
}

fn find_last_ip_owner<T>(devs: &Vec<DeviceRecord<T>>, ip: &str) -> (r: Option<String>)
    ensures
        opt_string_view(r) == last_ip_owner(devs@, ip@),
{
    let mut i: usize = devs.len();
    while i > 0
        invariant
            i <= devs.len(),
            forall|j: int| i <= j < devs.len() ==> devs@[j].spec_esp_ip_host() != Some(ip@),
        decreases i,
    {
        let matched = match devs[i - 1].esp_ip_host() {
            Some(h) => str_eq(h, ip),
            None => false,
        };
        if matched {
            proof {
                let k = (i - 1) as int;
                assert(devs@[k].spec_esp_ip_host() == Some(ip@));
                let c = choose|c: int| 0 <= c < devs.len() && devs@[c].spec_esp_ip_host() == Some(ip@) && forall|j: int| c < j < devs.len() ==> devs@[j].spec_esp_ip_host() != Some(ip@);
                if c < k {
                } else if c > k {
                }
            }
            return Some(devs[i - 1].id.clone());
        }
        i -= 1;
    }
    None
}

fn find_last_host_owner<T>(devs: &Vec<DeviceRecord<T>>, host: &str) -> (r: Option<String>)
    ensures
        opt_string_view(r) == last_host_owner(devs@, host@),
{
    let mut i: usize = devs.len();
    while i > 0
        invariant
            i <= devs.len(),
            forall|j: int| i <= j < devs.len() ==> record_mdns_label(devs@[j]) != Some(host@),
        decreases i,
    {
        let matched = match &devs[i - 1].mdns_hostname {
            Some(h) => match normalize_mdns_hostname(h.as_str()) {
                Some(n) => str_eq(n.as_str(), host),
                None => false,
            },
            None => false,
        };
        if matched {
            proof {
                let k = (i - 1) as int;
                assert(record_mdns_label(devs@[k]) == Some(host@));
                let c = choose|c: int| 0 <= c < devs.len() && record_mdns_label(devs@[c]) == Some(host@) && forall|j: int| c < j < devs.len() ==> record_mdns_label(devs@[j]) != Some(host@);
                if c < k {
                } else if c > k {
                }
            }
            return Some(devs[i - 1].id.clone());
        }
        i -= 1;
    }
    None
}

/// Discovery matching: each discovered service with the registered device that owns
/// its IP (or, failing that, its mDNS host name).
pub fn merge_discovered<T>(devs: &Vec<DeviceRecord<T>>, discovered: &Vec<GlowbeService>) -> (r: Vec<DiscoveredEsp>)
    ensures
        r.len() == discovered.len(),
        forall|i: int| 0 <= i < r.len() ==> {
            &&& (#[trigger] r@[i]).hostname@ == discovered@[i].hostname@
            &&& r@[i].ipv4@ == discovered@[i].ipv4@
            &&& r@[i].port == discovered@[i].port
            &&& opt_string_view(r@[i].registered_device_id) == registered_owner(devs@, discovered@[i])
        },
{
    let mut out: Vec<DiscoveredEsp> = Vec::new();
    let mut i: usize = 0;
    while i < discovered.len()
        invariant
            i <= discovered.len(),
            out.len() == i,
            forall|k: int| 0 <= k < i ==> {
                &&& (#[trigger] out@[k]).hostname@ == discovered@[k].hostname@
                &&& out@[k].ipv4@ == discovered@[k].ipv4@
                &&& out@[k].port == discovered@[k].port
                &&& opt_string_view(out@[k].registered_device_id) == registered_owner(devs@, discovered@[k])
            },
        decreases discovered.len() - i,
    {
        let s = &discovered[i];
        let owner = match find_last_ip_owner(devs, s.ipv4.as_str()) {
            Some(id) => Some(id),
            None => find_last_host_owner(devs, s.hostname.as_str()),
        };
        out.push(DiscoveredEsp {
            hostname: s.hostname.clone(),
            ipv4: s.ipv4.clone(),
            port: s.port,
            registered_device_id: owner,
        });
        i += 1;
    }
    out
}

} // verus!

verus! {

/// The device registry: the registered devices in registration order. Saving and
/// loading the backing `devices.json` is done by the caller.
#[derive(Debug, Clone)]
pub struct DeviceRegistry<T> {
    devices: Vec<DeviceRecord<T>>,
}

impl<T> View for DeviceRegistry<T> {
    type V = Seq<DeviceRecord<T>>;

    closed spec fn view(&self) -> Seq<DeviceRecord<T>> {
        self.devices@
    }
}

impl<T> DeviceRegistry<T> {
    /// A registry holding `devices` as given.
    pub fn from_devices(devices: Vec<DeviceRecord<T>>) -> (r: Self)
        ensures
            r@ == devices@,
    {
        DeviceRegistry { devices }
    }

    pub fn devices(&self) -> (r: &Vec<DeviceRecord<T>>)
        ensures
            r@ == self@,
    {
        &self.devices
    }

    /// Adds `rec`, or replaces the record with the same id. `layout_known` tells whether
    /// the compiled layout for `rec.layout_id` exists. The mDNS host name is stored
    /// normalized.
    pub fn upsert(&mut self, rec: DeviceRecord<T>, layout_known: bool) -> (r: Result<(), DeviceError>)
        ensures
            r is Ok <==> record_ok(rec, layout_known) && forall|i: int|
                0 <= i < old(self)@.len() ==> !ip_conflict(#[trigger] old(self)@[i], rec, Some(rec.id@)),
            r matches Err(e) ==> {
                &&& final(self)@ == old(self)@
                &&& !record_ok(rec, layout_known) ==> record_error_matches(rec, layout_known, e)
                &&& record_ok(rec, layout_known) ==> exists|i: int|
                    0 <= i < old(self)@.len() && ip_conflict(#[trigger] old(self)@[i], rec, Some(rec.id@))
                        && (forall|j: int| 0 <= j < i ==> !ip_conflict(#[trigger] old(self)@[j], rec, Some(rec.id@)))
                        && (e matches DeviceError::IpInUse(id) && id@ == old(self)@[i].id@)
            },
            r is Ok ==> match id_position(old(self)@, rec.id@) {
                Some(p) => {
                    &&& final(self)@.len() == old(self)@.len()
                    &&& upserted(rec, final(self)@[p])
                    &&& forall|j: int| 0 <= j < old(self)@.len() && j != p ==> final(self)@[j] == old(self)@[j]
                },
                None => {
                    &&& final(self)@.len() == old(self)@.len() + 1
                    &&& upserted(rec, final(self)@.last())
                    &&& forall|j: int| 0 <= j < old(self)@.len() ==> final(self)@[j] == old(self)@[j]
                },
            },
            r is Ok && registry_wf(old(self)@) ==> registry_wf(final(self)@),
    {
        let ghost orig = rec;
        let mut rec = rec;
        rec.mdns_hostname = match &rec.mdns_hostname {
            Some(h) => normalize_mdns_hostname(h.as_str()),
            None => None,
        };
        assert(upserted(orig, rec));
        validate_record(&rec, layout_known)?;
        let pos = find_id(&self.devices, rec.id.as_str());
        let replace_id: Option<&str> = match pos {
            Some(_) => Some(rec.id.as_str()),
            None => None,
        };
        let res = validate_unique_ips(&self.devices, &rec, replace_id);
        proof {
            assert forall|i: int| 0 <= i < self.devices@.len() implies
                ip_conflict(self.devices@[i], rec, opt_str_view(replace_id)) == ip_conflict(self.devices@[i], orig, Some(orig.id@)) by {
                if pos is None {
                    assert(self.devices@[i].id@ != rec.id@);
                }
            }
        }
        match res {
            Err(e) => {
                return Err(e);
            },
            Ok(()) => {},
        }
        let ghost before = self.devices@;
        match pos {
            Some(p) => {
                self.devices.remove(p);
                self.devices.insert(p, rec);
                assert forall|j: int| 0 <= j < before.len() && j != p implies self.devices@[j] == before[j] by {
                    if j < p {
                    } else {
                    }
                }
            },
            None => {
                self.devices.push(rec);
            },
        }
        proof {
            if registry_wf(before) {
                let after = self.devices@;
                assert forall|i: int, j: int| 0 <= i < j < after.len() implies (#[trigger] after[i]).id@ != (#[trigger] after[j]).id@ && (
                    after[i].spec_esp_ip_host() is Some ==> after[i].spec_esp_ip_host() != after[j].spec_esp_ip_host()) by {
                    match pos {
                        Some(p) => {
                            let p = p as int;
                            if i == p {
                                assert(!ip_conflict(before[j], orig, Some(orig.id@)));
                                assert(before[j].id@ != before[p].id@);
                            } else if j == p {
                                assert(!ip_conflict(before[i], orig, Some(orig.id@)));
                                assert(before[i].id@ != before[p].id@);
                            } else {
                                assert(after[i] == before[i] && after[j] == before[j]);
                            }
                        },
                        None => {
                            if j == before.len() {
                                assert(!ip_conflict(before[i], orig, Some(orig.id@)));
                                assert(before[i].id@ != orig.id@);
                            } else {
                                assert(after[i] == before[i] && after[j] == before[j]);
                            }
                        },
                    }
                }
            }
        }
        Ok(())
    }

    /// Sets the stored tone of device `id` (the caller clamps it).
    pub fn update_master_tone(&mut self, id: &str, tone: T) -> (r: Result<(), DeviceError>)
        ensures
            r is Ok <==> id_position(old(self)@, id@) is Some,
            r matches Err(e) ==> (e matches DeviceError::NotFound(x) && x@ == id@) && final(self)@ == old(self)@,
            r is Ok ==> ({
                let p = id_position(old(self)@, id@)->0;
                &&& final(self)@ == old(self)@.update(p, DeviceRecord { tone: tone, ..old(self)@[p] })
            }),
            registry_wf(old(self)@) ==> registry_wf(final(self)@),
    {
        let pos = match find_id(&self.devices, id) {
            Some(p) => p,
            None => return Err(DeviceError::NotFound(String::from_str(id))),
        };
        let mut d = self.devices.remove(pos);
        d.tone = tone;
        self.devices.insert(pos, d);
        proof {
            let p = pos as int;
            assert(self.devices@ =~= old(self)@.update(p, DeviceRecord { tone: tone, ..old(self)@[p] }));
            if registry_wf(old(self)@) {
                let after = self.devices@;
                assert forall|i: int, j: int| 0 <= i < j < after.len() implies (#[trigger] after[i]).id@ != (#[trigger] after[j]).id@ && (
                    after[i].spec_esp_ip_host() is Some ==> after[i].spec_esp_ip_host() != after[j].spec_esp_ip_host()) by {
                    assert(old(self)@[i].id@ != old(self)@[j].id@);
                }
            }
        }
        Ok(())
    }

    /// Removes device `id`; the last remaining device cannot be removed.
    pub fn remove(&mut self, id: &str) -> (r: Result<DeviceRecord<T>, DeviceError>)
        ensures
            old(self)@.len() <= 1 ==> (r matches Err(e) && e == DeviceError::LastDevice),
            old(self)@.len() > 1 && id_position(old(self)@, id@) is None ==> (r matches Err(e) && (e matches DeviceError::NotFound(x) && x@ == id@)),
            r is Err ==> final(self)@ == old(self)@,
            r matches Ok(d) ==> old(self)@.len() > 1 && (id_position(old(self)@, id@) matches Some(p)
                && d == old(self)@[p] && final(self)@ == old(self)@.remove(p)),
            old(self)@.len() > 1 && id_position(old(self)@, id@) is Some ==> r is Ok,
            final(self)@.len() >= 1 || old(self)@.len() == 0,
            registry_wf(old(self)@) ==> registry_wf(final(self)@),
    {
        if self.devices.len() <= 1 {
            return Err(DeviceError::LastDevice);
        }
        let pos = match find_id(&self.devices, id) {
            Some(p) => p,
            None => return Err(DeviceError::NotFound(String::from_str(id))),
        };
        let removed = self.devices.remove(pos);
        proof {
            let p = pos as int;
            if registry_wf(old(self)@) {
                let after = self.devices@;
                assert forall|i: int, j: int| 0 <= i < j < after.len() implies (#[trigger] after[i]).id@ != (#[trigger] after[j]).id@ && (
                    after[i].spec_esp_ip_host() is Some ==> after[i].spec_esp_ip_host() != after[j].spec_esp_ip_host()) by {
                    let oi = if i < p { i } else { i + 1 };
                    let oj = if j < p { j } else { j + 1 };
                    assert(after[i] == old(self)@[oi] && after[j] == old(self)@[oj]);
                    assert(oi < oj);
                }
            }
        }
        Ok(removed)
    }
}

/// Duplicate found at index `i`: an earlier record with the same id, or (for a set IP)
/// an earlier record with the same ESP IP.
pub open spec fn dup_id_before<T>(devs: Seq<DeviceRecord<T>>, i: int) -> bool {
    exists|j: int| 0 <= j < i && devs[j].id@ == devs[i].id@
}

pub open spec fn dup_ip_before<T>(devs: Seq<DeviceRecord<T>>, i: int) -> bool {
    devs[i].spec_esp_ip_host() is Some && exists|j: int| 0 <= j < i && devs[j].spec_esp_ip_host() == devs[i].spec_esp_ip_host()
}

/// Record `i` is where `validate_all` stops.
pub open spec fn record_issue<T>(devs: Seq<DeviceRecord<T>>, known: Seq<bool>, i: int) -> bool {
    !record_ok(devs[i], known[i]) || dup_id_before(devs, i) || dup_ip_before(devs, i)
}

/// `e` is the error `validate_all` reports for record `i`.
pub open spec fn issue_error_matches<T>(devs: Seq<DeviceRecord<T>>, known: Seq<bool>, i: int, e: DeviceError) -> bool {
    if !record_ok(devs[i], known[i]) {
        record_error_matches(devs[i], known[i], e)
    } else if dup_id_before(devs, i) {
        e matches DeviceError::DuplicateId(x) && x@ == devs[i].id@
    } else {
        e matches DeviceError::DuplicateIp(x) && Some(x@) == devs[i].spec_esp_ip_host()
    }
}

/// Checks every record in order (`layout_known[i]` for record `i`); the first record that
/// is invalid or duplicates an earlier id or ESP IP is reported.
pub fn validate_all<T>(devs: &Vec<DeviceRecord<T>>, layout_known: &Vec<bool>) -> (r: Result<(), DeviceError>)
    requires
        layout_known.len() == devs.len(),
    ensures
        r is Ok <==> forall|i: int| 0 <= i < devs.len() ==> !record_issue(devs@, layout_known@, i),
        r matches Err(e) ==> exists|i: int|
            0 <= i < devs.len() && record_issue(devs@, layout_known@, i)
                && (forall|j: int| 0 <= j < i ==> !record_issue(devs@, layout_known@, j))
                && issue_error_matches(devs@, layout_known@, i, e),
        r is Ok ==> registry_wf(devs@),
{
    let mut i: usize = 0;
    while i < devs.len()
        invariant
            i <= devs.len() == layout_known.len(),
            forall|j: int| 0 <= j < i ==> !record_issue(devs@, layout_known@, j),
        decreases devs.len() - i,
    {
        let d = &devs[i];
        match validate_record(d, layout_known[i]) {
            Err(e) => {
                assert(record_issue(devs@, layout_known@, i as int));
                return Err(e);
            },
            Ok(()) => {},
        }
        let mut j: usize = 0;
        while j < i
            invariant
                j <= i < devs.len() == layout_known.len(),
                *d == devs@[i as int],
                record_ok(devs@[i as int], layout_known@[i as int]),
                forall|k: int| 0 <= k < i ==> !record_issue(devs@, layout_known@, k),
                forall|k: int| 0 <= k < j ==> devs@[k].id@ != devs@[i as int].id@,
            decreases i - j,
        {
            if str_eq(devs[j].id.as_str(), d.id.as_str()) {
                assert(dup_id_before(devs@, i as int));
                assert(record_issue(devs@, layout_known@, i as int));
                return Err(DeviceError::DuplicateId(d.id.clone()));
            }
            j += 1;
        }
        assert(!dup_id_before(devs@, i as int));
        match d.esp_ip_host() {
            Some(ip) => {
                let mut j: usize = 0;
                while j < i
                    invariant
                        j <= i < devs.len() == layout_known.len(),
                        forall|k: int| 0 <= k < i ==> !record_issue(devs@, layout_known@, k),
                        !dup_id_before(devs@, i as int),
                        record_ok(devs@[i as int], layout_known@[i as int]),
                        opt_str_view(Some(ip)) == devs@[i as int].spec_esp_ip_host(),
                        forall|k: int| 0 <= k < j ==> devs@[k].spec_esp_ip_host() != devs@[i as int].spec_esp_ip_host(),
                    decreases i - j,
                {
                    let same = match devs[j].esp_ip_host() {
                        Some(other) => str_eq(other, ip),
                        None => false,
                    };
                    if same {
                        assert(dup_ip_before(devs@, i as int));
                        assert(record_issue(devs@, layout_known@, i as int));
                        return Err(DeviceError::DuplicateIp(String::from_str(ip)));
                    }
                    j += 1;
                }
            },
            None => {},
        }
        assert(!record_issue(devs@, layout_known@, i as int));
        i += 1;
    }
    proof {
        assert forall|a: int, b: int| 0 <= a < b < devs.len() implies (#[trigger] devs@[a]).id@ != (#[trigger] devs@[b]).id@ && (
            devs@[a].spec_esp_ip_host() is Some ==> devs@[a].spec_esp_ip_host() != devs@[b].spec_esp_ip_host()) by {
            assert(!record_issue(devs@, layout_known@, b));
            if devs@[a].id@ == devs@[b].id@ {
                assert(dup_id_before(devs@, b));
            }
            if devs@[a].spec_esp_ip_host() is Some && devs@[a].spec_esp_ip_host() == devs@[b].spec_esp_ip_host() {
                assert(dup_ip_before(devs@, b));
            }
        }
    }
    Ok(())
}

/// Gives every record whose id is not a UUID v7 a fresh v7 id; returns whether any changed.
pub fn migrate_legacy_device_ids<T>(devices: &mut Vec<DeviceRecord<T>>) -> (changed: bool)
    ensures
        final(devices)@.len() == old(devices)@.len(),
        changed == exists|i: int| 0 <= i < old(devices)@.len() && !spec_is_uuid_v7(#[trigger] old(devices)@[i].id@),
        forall|i: int| 0 <= i < old(devices)@.len() ==> spec_is_uuid_v7((#[trigger] final(devices)@[i]).id@),
        forall|i: int| 0 <= i < old(devices)@.len() && spec_is_uuid_v7(#[trigger] old(devices)@[i].id@) ==> final(devices)@[i] == old(devices)@[i],
        forall|i: int| 0 <= i < old(devices)@.len() ==> (DeviceRecord { id: (#[trigger] final(devices)@[i]).id, ..old(devices)@[i] }) == final(devices)@[i],
{
    let mut changed = false;
    let mut i: usize = 0;
    while i < devices.len()
        invariant
            i <= devices.len() == old(devices)@.len(),
            changed == exists|k: int| 0 <= k < i && !spec_is_uuid_v7(#[trigger] old(devices)@[k].id@),
            forall|k: int| 0 <= k < i ==> spec_is_uuid_v7((#[trigger] devices@[k]).id@),
            forall|k: int| 0 <= k < devices.len() && (k >= i || spec_is_uuid_v7(old(devices)@[k].id@)) ==> #[trigger] devices@[k] == old(devices)@[k],
            forall|k: int| 0 <= k < devices.len() ==> (DeviceRecord { id: (#[trigger] devices@[k]).id, ..old(devices)@[k] }) == devices@[k],
        decreases devices.len() - i,
    {
        if !is_uuid_v7(devices[i].id.as_str()) {
            let new_id = new_device_id();
            let mut d = devices.remove(i);
            d.id = new_id;
            devices.insert(i, d);
            changed = true;
        }
        i += 1;
    }
    changed
}


/// A `devices.json` is read only in format `glowbe-devices`, version 1.
pub fn check_devices_file(format: &str, version: u32) -> (r: Result<(), String>)
    ensures
        (format@ == "glowbe-devices"@ && version == 1) ==> r is Ok,
        !(format@ == "glowbe-devices"@ && version == 1) ==> (r matches Err(e) && e@
            == "unsupported devices file format/version"@),
{
    if str_eq(format, "glowbe-devices") && version == 1 {
        Ok(())
    } else {
        Err(String::from_str("unsupported devices file format/version"))
    }
}

/// Index just past `v[lo..hi]` with its trailing `c`s removed.
fn trim_end_char_bound(v: &Vec<char>, lo: usize, hi: usize, c: char) -> (k: usize)
    requires
        lo <= hi <= v.len(),
    ensures
        lo <= k <= hi,
        trim_end_char(v@.subrange(lo as int, hi as int), c) == v@.subrange(lo as int, k as int),
{
    let mut k = hi;
    while k > lo && v[k - 1] == c
        invariant
            lo <= k <= hi <= v.len(),
            trim_end_char(v@.subrange(lo as int, hi as int), c) == trim_end_char(
                v@.subrange(lo as int, k as int),
                c,
            ),
        decreases k,
    {
        assert(v@.subrange(lo as int, k as int).drop_last() =~= v@.subrange(lo as int, k - 1));
        k -= 1;
    }
    k
}

/// A host name as mDNS reports it, without its trailing dots.
pub fn service_hostname(raw: &str) -> (r: String)
    ensures
        r@ == trim_end_char(raw@, '.'),
{
    let v = chars_vec(raw);
    let k = trim_end_char_bound(&v, 0, v.len(), '.');
    assert(v@.subrange(0, v.len() as int) =~= raw@);
    string_from_chars(&v, 0, k)
}

/// Entry `i` of `v` is the last one resolved for its host name and port.
pub open spec fn is_last_of_key(v: Seq<GlowbeService>, i: int) -> bool {
    forall|j: int| i < j < v.len() ==> !(#[trigger] v[j].hostname@ == v[i].hostname@ && v[j].port == v[i].port)
}

/// The entries among the first `n` of `v` that are the last for their host name and port.
pub open spec fn last_entries_upto(v: Seq<GlowbeService>, n: nat) -> Seq<GlowbeService>
    decreases n,
{
    if n == 0 {
        Seq::empty()
    } else {
        let rest = last_entries_upto(v, (n - 1) as nat);
        if is_last_of_key(v, n - 1) {
            rest.push(v[n - 1])
        } else {
            rest
        }
    }
}

/// Service `x` comes before service `y` of `s` once sorted by host name (ties in order).
pub open spec fn service_before(s: Seq<GlowbeService>, x: int, y: int) -> bool {
    seq_lt(s[x].hostname@, s[y].hostname@) || (s[x].hostname@ == s[y].hostname@ && x < y)
}

/// `p` lists every index of `s` once, sorted by host name.
pub open spec fn is_service_order(s: Seq<GlowbeService>, p: Seq<int>) -> bool {
    &&& p.len() == s.len()
    &&& forall|i: int| 0 <= i < p.len() ==> 0 <= #[trigger] p[i] < s.len()
    &&& forall|i: int, j: int| 0 <= i < j < p.len() ==> service_before(s, #[trigger] p[i], #[trigger] p[j])
}

fn last_of_key(v: &Vec<GlowbeService>, i: usize) -> (r: bool)
    requires
        i < v.len(),
    ensures
        r == is_last_of_key(v@, i as int),
{
    let mut j = i + 1;
    while j < v.len()
        invariant
            i < j <= v.len(),
            forall|k: int| i < k < j ==> !(#[trigger] v@[k].hostname@ == v@[i as int].hostname@ && v@[k].port
                == v@[i as int].port),
        decreases v.len() - j,
    {
        if v[j].hostname == v[i].hostname && v[j].port == v[i].port {
            return false;
        }
        j += 1;
    }
    true
}

/// The services a browse resolved (in arrival order), each host name and port once
/// with its last resolution, sorted by host name.
pub fn collect_glowbe_services(resolved: &Vec<GlowbeService>) -> (r: Vec<GlowbeService>)
    ensures
        exists|p: Seq<int>| {
            &&& #[trigger] is_service_order(last_entries_upto(resolved@, resolved@.len()), p)
            &&& r.len() == p.len()
            &&& forall|i: int| 0 <= i < r.len() ==> {
                &&& (#[trigger] r@[i]).hostname@ == last_entries_upto(resolved@, resolved@.len())[p[i]].hostname@
                &&& r@[i].ipv4@ == last_entries_upto(resolved@, resolved@.len())[p[i]].ipv4@
                &&& r@[i].port == last_entries_upto(resolved@, resolved@.len())[p[i]].port
            }
        },
{
    let mut out: Vec<GlowbeService> = Vec::new();
    let mut keys: Vec<Vec<char>> = Vec::new();
    let ghost mut p: Seq<int> = Seq::empty();
    let mut k: usize = 0;
    while k < resolved.len()
        invariant
            k <= resolved.len(),
            is_service_order(last_entries_upto(resolved@, k as nat), p),
            out.len() == p.len() == keys.len(),
            forall|i: int| 0 <= i < p.len() ==> {
                &&& (#[trigger] out@[i]).hostname@ == last_entries_upto(resolved@, k as nat)[p[i]].hostname@
                &&& out@[i].ipv4@ == last_entries_upto(resolved@, k as nat)[p[i]].ipv4@
                &&& out@[i].port == last_entries_upto(resolved@, k as nat)[p[i]].port
            },
            forall|i: int| 0 <= i < p.len() ==> (#[trigger] keys@[i])@ == last_entries_upto(resolved@, k as nat)[p[i]].hostname@,
        decreases resolved.len() - k,
    {
        let ghost before = last_entries_upto(resolved@, k as nat);
        if last_of_key(resolved, k) {
            let svc = &resolved[k];
            let key = chars_vec(svc.hostname.as_str());
            let m = out.len();
            let mut j: usize = 0;
            while j < keys.len() && !chars_lt(&key, &keys[j])
                invariant
                    j <= keys.len(),
                    key@ == svc.hostname@,
                    forall|i: int| 0 <= i < j ==> !seq_lt(key@, #[trigger] keys@[i]@),
                decreases keys.len() - j,
            {
                j += 1;
            }
            let ghost names = last_entries_upto(resolved@, (k + 1) as nat);
            let ghost p2 = p.insert(j as int, m as int);
            let ghost old_out = out@;
            let ghost old_keys = keys@;
            proof {
                assert(names == before.push(resolved@[k as int]));
                assert forall|i: int| 0 <= i < p2.len() implies 0 <= #[trigger] p2[i] < names.len() by {
                    if i < j {
                        assert(p2[i] == p[i]);
                    } else if i > j {
                        assert(p2[i] == p[i - 1]);
                    }
                }
                assert forall|a: int, b: int| 0 <= a < b < p2.len() implies service_before(names, #[trigger] p2[a], #[trigger] p2[b]) by {
                    if b < j {
                        assert(p2[a] == p[a] && p2[b] == p[b]);
                        assert(service_before(before, p[a], p[b]));
                    } else if a > j {
                        assert(p2[a] == p[a - 1] && p2[b] == p[b - 1]);
                        assert(service_before(before, p[a - 1], p[b - 1]));
                    } else if a < j && b > j {
                        assert(p2[a] == p[a] && p2[b] == p[b - 1]);
                        assert(service_before(before, p[a], p[b - 1]));
                    } else if b == j {
                        assert(p2[a] == p[a]);
                        assert(!seq_lt(key@, old_keys[a]@));
                        lemma_seq_lt_total(key@, old_keys[a]@);
                        assert(p[a] < m);
                    } else {
                        assert(a == j && b > j);
                        assert(p2[b] == p[b - 1]);
                        assert(seq_lt(key@, old_keys[j as int]@));
                        if b - 1 > j {
                            assert(service_before(before, p[j as int], p[b - 1]));
                            if seq_lt(old_keys[j as int]@, old_keys[b - 1]@) {
                                lemma_seq_lt_transitive(key@, old_keys[j as int]@, old_keys[b - 1]@);
                            }
                        }
                    }
                }
            }
            out.insert(j, GlowbeService { hostname: svc.hostname.clone(), ipv4: svc.ipv4.clone(), port: svc.port });
            keys.insert(j, key);
            proof {
                assert forall|i: int| 0 <= i < p2.len() implies {
                    &&& (#[trigger] out@[i]).hostname@ == names[p2[i]].hostname@
                    &&& out@[i].ipv4@ == names[p2[i]].ipv4@
                    &&& out@[i].port == names[p2[i]].port
                } by {
                    if i < j {
                        assert(out@[i] == old_out[i]);
                    } else if i > j {
                        assert(out@[i] == old_out[i - 1]);
                    }
                }
                assert forall|i: int| 0 <= i < p2.len() implies (#[trigger] keys@[i])@ == names[p2[i]].hostname@ by {
                    if i < j {
                        assert(keys@[i] == old_keys[i]);
                    } else if i > j {
                        assert(keys@[i] == old_keys[i - 1]);
                    }
                }
                p = p2;
            }
        } else {
            assert(last_entries_upto(resolved@, (k + 1) as nat) == before);
        }
        k += 1;
    }
    out
}

} // verus!
