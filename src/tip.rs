//! Tip addresses: finding a candidate in profile text or structured data,
//! validating it, and the records kept in the tip cache.

use vstd::prelude::*;

use zcash_address::unified::{self, Receiver};
use zcash_protocol::consensus::NetworkType;

use crate::text::{lower_of, lowercase};

verus! {

/// How many seconds a cached lookup stays fresh.
pub const CACHE_TTL_SECS: u64 = 86400;

/// The pattern that marks a candidate unified address in free text.
pub open spec fn ua_pattern() -> Seq<char> {
    "(?i)u1[0-9a-z]{10,}"@
}

/// Relies on regex::Regex::new and Regex::find: the leftmost-first match of
/// `pattern` in `text`, which depends on the two arguments alone (`None` also
/// when the pattern does not compile).
pub uninterp spec fn regex_first_match(pattern: Seq<char>, text: Seq<char>) -> Option<Seq<char>>;

/// Relies on regex: compiles `pattern` and returns the text of its
/// leftmost-first match in `text`.
#[verifier::external_body]
fn regex_find(pattern: &str, text: &str) -> (r: Option<String>)
    ensures
        r.deep_view() == regex_first_match(pattern@, text@),
{
    let re = regex::Regex::new(pattern).ok()?;
    re.find(text).map(|m| m.as_str().to_string())
}

/// The candidate address in `text`: the first match of the pattern, lower-cased.
pub open spec fn ua_in_text(text: Seq<char>) -> Option<Seq<char>> {
    match regex_first_match(ua_pattern(), text) {
        Some(m) => Some(lower_of(m)),
        None => None,
    }
}

/// The first candidate unified address in `text`, lower-cased.
pub fn extract_unified_address(text: &str) -> (r: Option<String>)
    ensures
        r.deep_view() == ua_in_text(text@),
{
    match regex_find("(?i)u1[0-9a-z]{10,}", text) {
        Some(m) => Some(lowercase(m.as_str())),
        None => None,
    }
}

/// A structured profile payload, as a JSON document holds it.
pub enum JsonValue {
    Null,
    Bool(bool),
    Number(String),
    String(String),
    Array(Vec<JsonValue>),
    Object(Vec<(String, JsonValue)>),
}

/// The first candidate address found in the string values of `v`, searching
/// depth first, array items and object fields in order.
pub open spec fn json_address(v: JsonValue) -> Option<Seq<char>>
    decreases v, 0int,
{
    match v {
        JsonValue::String(s) => ua_in_text(s@),
        JsonValue::Array(vs) => items_address(vs@, 0),
        JsonValue::Object(fs) => fields_address(fs@, 0),
        _ => None,
    }
}

/// The first candidate address in `vs[i..]`.
pub open spec fn items_address(vs: Seq<JsonValue>, i: int) -> Option<Seq<char>>
    decreases vs, vs.len() - i,
{
    if 0 <= i < vs.len() {
        match json_address(vs[i]) {
            Some(a) => Some(a),
            None => items_address(vs, i + 1),
        }
    } else {
        None
    }
}

/// The first candidate address in the values of `fs[i..]`.
pub open spec fn fields_address(fs: Seq<(String, JsonValue)>, i: int) -> Option<Seq<char>>
    decreases fs, fs.len() - i,
{
    if 0 <= i < fs.len() {
        match json_address(fs[i].1) {
            Some(a) => Some(a),
            None => fields_address(fs, i + 1),
        }
    } else {
        None
    }
}

/// The first candidate unified address in the string values of `value`.
pub fn find_address_in_json(value: &JsonValue) -> (r: Option<String>)
    ensures
        r.deep_view() == json_address(*value),
    decreases value,
{
    match value {
        JsonValue::String(s) => extract_unified_address(s.as_str()),
        JsonValue::Array(vs) => {
            let mut i: usize = 0;
            while i < vs.len()
                invariant
                    *value == JsonValue::Array(*vs),
                    i <= vs.len(),
                    json_address(*value) == items_address(vs@, i as int),
                decreases vs.len() - i,
            {
                assert(decreases_to!(value => vs@[i as int]));
                let r = find_address_in_json(&vs[i]);
                if r.is_some() {
                    return r;
                }
                i += 1;
            }
            None
        },
        JsonValue::Object(fs) => {
            let mut i: usize = 0;
            while i < fs.len()
                invariant
                    *value == JsonValue::Object(*fs),
                    i <= fs.len(),
                    json_address(*value) == fields_address(fs@, i as int),
                decreases fs.len() - i,
            {
                assert(decreases_to!(value => fs@[i as int].1));
                let r = find_address_in_json(&fs[i].1);
                if r.is_some() {
                    return r;
                }
                i += 1;
            }
            None
        },
        _ => None,
    }
}


/// The network a unified address is encoded for.
#[derive(Debug, Clone, Copy, PartialEq, Eq, Structural)]
pub enum AddressNetwork {
    Main,
    Test,
    Regtest,
}

/// The kind of one receiver inside a unified address.
#[derive(Debug, Clone, Copy, PartialEq, Eq, Structural)]
pub enum ReceiverKind {
    Orchard,
    Sapling,
    P2pkh,
    P2sh,
    Unknown,
}

/// A decoded unified address: its network and the kinds of its receivers.
pub struct DecodedAddress {
    pub network: AddressNetwork,
    pub receivers: Vec<ReceiverKind>,
}

/// Relies on zcash_address's `unified::Address::decode` (read through
/// `Container::items`): whether `s` decodes, and to which network and
/// receivers, depends on `s` alone.
pub uninterp spec fn unified_decode_of(s: Seq<char>) -> Option<(AddressNetwork, Seq<ReceiverKind>)>;

/// Relies on zcash_address: decodes `s` as a unified address.
#[verifier::external_body]
fn decode_unified(s: &str) -> (r: Option<DecodedAddress>)
    ensures
        match r {
            Some(d) => unified_decode_of(s@) == Some((d.network, d.receivers@)),
            None => unified_decode_of(s@).is_none(),
        },
{
    let (net, addr) = <unified::Address as unified::Encoding>::decode(s).ok()?;
    let network = match net {
        NetworkType::Main => AddressNetwork::Main,
        NetworkType::Test => AddressNetwork::Test,
        NetworkType::Regtest => AddressNetwork::Regtest,
    };
    let receivers = unified::Container::items(&addr).iter().map(|r| match r {
        Receiver::Orchard(_) => ReceiverKind::Orchard,
        Receiver::Sapling(_) => ReceiverKind::Sapling,
        Receiver::P2pkh(_) => ReceiverKind::P2pkh,
        Receiver::P2sh(_) => ReceiverKind::P2sh,
        Receiver::Unknown { .. } => ReceiverKind::Unknown,
    }).collect();
    Some(DecodedAddress { network, receivers })
}

/// A transparent receiver.
pub open spec fn is_transparent(k: ReceiverKind) -> bool {
    k == ReceiverKind::P2pkh || k == ReceiverKind::P2sh
}

/// Some receiver is transparent.
pub open spec fn has_transparent(rs: Seq<ReceiverKind>) -> bool {
    exists|i: int| 0 <= i < rs.len() && is_transparent(#[trigger] rs[i])
}

/// A validated tip address.
#[derive(Debug, Clone)]
pub struct TipInfo {
    pub address: String,
    pub has_transparent: bool,
}

/// What a `TipInfo` holds.
pub struct TipView {
    pub address: Seq<char>,
    pub has_transparent: bool,
}

impl View for TipInfo {
    type V = TipView;

    open spec fn view(&self) -> TipView {
        TipView { address: self.address@, has_transparent: self.has_transparent }
    }
}

/// An optional tip as its view.
pub open spec fn opt_tip_view(t: Option<TipInfo>) -> Option<TipView> {
    match t {
        Some(t) => Some(t@),
        None => None,
    }
}

/// The tip that `candidate` gives when it decodes as `d`: only a mainnet
/// address without a transparent receiver is accepted.
pub open spec fn tip_of(candidate: Seq<char>, d: Option<(AddressNetwork, Seq<ReceiverKind>)>) -> Option<TipView> {
    match d {
        Some((net, rs)) => if net == AddressNetwork::Main && !has_transparent(rs) {
            Some(TipView { address: candidate, has_transparent: false })
        } else {
            None
        },
        None => None,
    }
}

/// Decides on `candidate` given what decoding it gave: a mainnet address
/// without a transparent receiver becomes a tip, anything else is rejected.
pub fn tip_from_decoded(candidate: &str, decoded: Option<DecodedAddress>) -> (r: Option<TipInfo>)
    ensures
        opt_tip_view(r) == tip_of(
            candidate@,
            match decoded {
                Some(d) => Some((d.network, d.receivers@)),
                None => None,
            },
        ),
{
    match decoded {
        None => None,
        Some(d) => {
            if d.network != AddressNetwork::Main {
                return None;
            }
            let mut i: usize = 0;
            while i < d.receivers.len()
                invariant
                    decoded == Some(d),
                    d.network == AddressNetwork::Main,
                    i <= d.receivers.len(),
                    forall|k: int| 0 <= k < i ==> !is_transparent(#[trigger] d.receivers@[k]),
                decreases d.receivers.len() - i,
            {
                let k = d.receivers[i];
                if k == ReceiverKind::P2pkh || k == ReceiverKind::P2sh {
                    assert(is_transparent(d.receivers@[i as int]));
                    return None;
                }
                i += 1;
            }
            assert(!has_transparent(d.receivers@));
            Some(TipInfo { address: candidate.to_string(), has_transparent: false })
        },
    }
}

/// Validates a candidate: it must decode as a unified address for the main
/// network and hold no transparent receiver.
pub fn validate_unified_address(candidate: &str) -> (r: Option<TipInfo>)
    ensures
        opt_tip_view(r) == tip_of(candidate@, unified_decode_of(candidate@)),
{
    let d = decode_unified(candidate);
    tip_from_decoded(candidate, d)
}

/// A cached lookup for one author: when it was made and what it found
/// (no address is a confirmed absence).
#[derive(Debug, Clone)]
pub struct CachedTipEntry {
    pub cached_at: u64,
    pub tip_unified_address: Option<String>,
    pub tip_has_transparent: bool,
}

/// A record made at `cached_at` is fresh at `now`: its age, counted as zero
/// when the clock stands before it, is at most the TTL.
pub open spec fn fresh_at(cached_at: u64, now: u64) -> bool {
    now <= cached_at || now - cached_at <= CACHE_TTL_SECS
}

/// Whether `entry` is still fresh at `now` (seconds since the epoch).
pub fn cache_entry_fresh(entry: &CachedTipEntry, now: u64) -> (r: bool)
    ensures
        r == fresh_at(entry.cached_at, now),
{
    now.saturating_sub(entry.cached_at) <= CACHE_TTL_SECS
}

/// The tip that a cached record stands for.
pub open spec fn cached_tip(e: CachedTipEntry) -> Option<TipView> {
    match e.tip_unified_address {
        Some(a) => Some(TipView { address: a@, has_transparent: e.tip_has_transparent }),
        None => None,
    }
}

/// The tip that a cached record stands for.
pub fn tip_from_cache(entry: &CachedTipEntry) -> (r: Option<TipInfo>)
    ensures
        opt_tip_view(r) == cached_tip(*entry),
{
    match &entry.tip_unified_address {
        Some(a) => Some(TipInfo { address: a.clone(), has_transparent: entry.tip_has_transparent }),
        None => None,
    }
}

/// The record to cache for the outcome `tip`, made at `now`.
pub fn cache_entry_for(tip: &Option<TipInfo>, now: u64) -> (r: CachedTipEntry)
    ensures
        r.cached_at == now,
        cached_tip(r) == opt_tip_view(*tip),
        tip.is_none() ==> !r.tip_has_transparent,
{
    match tip {
        Some(t) => CachedTipEntry {
            cached_at: now,
            tip_unified_address: Some(t.address.clone()),
            tip_has_transparent: t.has_transparent,
        },
        None => CachedTipEntry { cached_at: now, tip_unified_address: None, tip_has_transparent: false },
    }
}

/// The name of the cache directory.
pub open spec fn cache_dir() -> Seq<char> {
    "./target/profile_cache"@
}

/// A handle made safe as a file name: every character that is not ASCII
/// alphanumeric becomes '_'.
pub open spec fn sanitize(s: Seq<char>) -> Seq<char> {
    s.map_values(|c: char| if is_ascii_alnum(c) { c } else { '_' })
}

/// An ASCII letter or digit.
pub open spec fn is_ascii_alnum(c: char) -> bool {
    ('a' <= c && c <= 'z') || ('A' <= c && c <= 'Z') || ('0' <= c && c <= '9')
}

/// Where the cached record for `username` is kept.
pub fn cache_path(username: &str) -> (r: String)
    ensures
        r@ == cache_dir() + seq!['/'] + sanitize(username@) + ".json"@,
{
    let mut s = String::from_str("./target/profile_cache/");
    let n = username.unicode_len();
    let mut i: usize = 0;
    proof {
        reveal_strlit("./target/profile_cache/");
        reveal_strlit("./target/profile_cache");
        reveal_strlit("_");
    }
    while i < n
        invariant
            n == username@.len(),
            i <= n,
            s@ == cache_dir() + seq!['/'] + sanitize(username@).take(i as int),
        decreases n - i,
    {
        let c = username.get_char(i);
        if ('a' <= c && c <= 'z') || ('A' <= c && c <= 'Z') || ('0' <= c && c <= '9') {
            let one = username.substring_char(i, i + 1);
            assert(one@ =~= seq![c]);
            s.append(one);
        } else {
            proof {
                reveal_strlit("_");
            }
            assert("_"@ =~= seq!['_']);
            s.append("_");
        }
        assert(sanitize(username@).take(i + 1) =~= sanitize(username@).take(i as int).push(
            sanitize(username@)[i as int],
        ));
        i += 1;
    }
    assert(sanitize(username@).take(i as int) =~= sanitize(username@));
    s.append(".json");
    s
}

} // verus!
