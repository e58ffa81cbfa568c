//! Container normalizer: maps raw runtime container records into the
//! canonical `ContainerInfo` shape, classifies them, derives the
//! paired-variant name hint, and sorts the listing by name.
//!
//! The raw record is a plain-value mirror of what the runtime lists;
//! the I/O shell converts the runtime's own types into it.

use vstd::multiset::Multiset;
use vstd::prelude::*;

use crate::models::{
    ContainerInfo, ContainerStatus, NetworkInfo, PortMapping, ServiceCategory, spec_classify,
    spec_status_of_state,
};
use crate::stats::ContainerStats;
use crate::strutil::{
    contains_seq, contains_str, concat2, ends_with, leading_slashes, lex_le, lower_seq, opt_view,
    str_eq, suffix_of, take_chars, take_up_to, to_lowercase, to_string_owned, trim_leading_slashes,
};

verus! {

/// Raw container record as delivered by the container runtime, with
/// every field already reduced to plain values.
#[derive(Clone, Debug)]
pub struct RawContainer {
    /// Full runtime-assigned id.
    pub id: String,
    /// Names listed by the runtime, each usually with a leading `/`.
    pub names: Vec<String>,
    /// Image reference.
    pub image: String,
    /// Raw state word (`"running"`, `"exited"`, ...).
    pub state: String,
    /// Human-readable status text (`"Up 2 hours (healthy)"`, ...).
    pub status_text: String,
    /// Raw port entries.
    pub ports: Vec<RawPort>,
    /// Names of the attached networks.
    pub networks: Vec<String>,
    /// Label key/value pairs.
    pub labels: Vec<(String, String)>,
    /// Creation time, in seconds since the Unix epoch.
    pub created: i64,
}

/// Raw port entry of a runtime container record.
#[derive(Clone, Debug)]
pub struct RawPort {
    /// Published host port, when any.
    pub host_port: Option<u16>,
    /// Port inside the container.
    pub container_port: u16,
    /// Protocol name in any case, absent when the runtime gave none.
    pub protocol: Option<String>,
}

/// The canonical display name: the first listed name with its leading
/// slashes stripped, or the 12-character id when no name is listed.
pub open spec fn spec_display_name(raw: RawContainer) -> Seq<char> {
    if raw.names@.len() > 0 {
        raw.names@[0]@.skip(leading_slashes(raw.names@[0]@))
    } else {
        take_up_to(raw.id@, 12)
    }
}

/// Status derived from the status text, falling back to the raw state:
/// the literal token `"(healthy)"` wins, then `"(unhealthy)"`, then the
/// state lookup.
pub open spec fn spec_record_status(raw: RawContainer) -> ContainerStatus {
    if contains_seq(raw.status_text@, "(healthy)"@) {
        ContainerStatus::Healthy
    } else if contains_seq(raw.status_text@, "(unhealthy)"@) {
        ContainerStatus::Unhealthy
    } else {
        spec_status_of_state(raw.state@)
    }
}

/// Health string mirrored from the status text under the same two
/// literal-token checks, absent otherwise.
pub open spec fn spec_health(status_text: Seq<char>) -> Option<Seq<char>> {
    if contains_seq(status_text, "(healthy)"@) {
        Some("healthy"@)
    } else if contains_seq(status_text, "(unhealthy)"@) {
        Some("unhealthy"@)
    } else {
        None
    }
}

/// Paired-variant name hint: absent when the name already contains
/// `"rust"`; otherwise the name with a trailing `"-prod"` replaced by
/// `"-rust-prod"` (the name itself when it has no such suffix).
pub open spec fn spec_hint(name: Seq<char>) -> Option<Seq<char>> {
    if contains_seq(name, "rust"@) {
        None
    } else if suffix_of(name, "-prod"@) {
        Some(name.take(name.len() - 5) + "-rust-prod"@)
    } else {
        Some(name)
    }
}

/// Protocol of a normalized port: the raw protocol lower-cased,
/// `"tcp"` when the runtime gave none.
pub open spec fn spec_protocol(p: Option<String>) -> Seq<char> {
    match p {
        Some(t) => lower_seq(t@),
        None => "tcp"@,
    }
}

/// The port list is the raw list mapped entrywise.
pub open spec fn ports_normalized(ps: Seq<PortMapping>, raws: Seq<RawPort>) -> bool {
    &&& ps.len() == raws.len()
    &&& forall|i: int|
        0 <= i < ps.len() ==> {
            &&& (#[trigger] ps[i]).host_port == raws[i].host_port
            &&& ps[i].container_port == raws[i].container_port
            &&& ps[i].protocol@ == spec_protocol(raws[i].protocol)
        }
}

/// `r` is the canonical record for the raw record `raw`.
pub open spec fn normalized_from(r: ContainerInfo, raw: RawContainer) -> bool {
    &&& r.id@ == take_up_to(raw.id@, 12)
    &&& r.name@ == spec_display_name(raw)
    &&& r.image@ == raw.image@
    &&& r.status == spec_record_status(raw)
    &&& opt_view(r.health) == spec_health(raw.status_text@)
    &&& r.category == spec_classify(spec_display_name(raw))
    &&& ports_normalized(r.ports@, raw.ports@)
    &&& r.networks@ == raw.networks@
    &&& r.created == raw.created
    &&& r.labels@ == raw.labels@
    &&& opt_view(r.rust_equivalent) == spec_hint(spec_display_name(raw))
    &&& r.stats is None
    &&& r.image_size_mb_hundredths is None
}

pub(crate) fn clone_strings(v: &Vec<String>) -> (r: Vec<String>)
    ensures
        r@ == v@,
{
    let mut out: Vec<String> = Vec::new();
    let mut i: usize = 0;
    while i < v.len()
        invariant
            i <= v@.len(),
            out@ == v@.take(i as int),
        decreases v@.len() - i,
    {
        out.push(v[i].clone());
        proof {
            assert(v@.take(i + 1 as int) =~= v@.take(i as int).push(v@[i as int]));
        }
        i += 1;
    }
    proof {
        assert(v@.take(v@.len() as int) =~= v@);
    }
    out
}

pub(crate) fn clone_labels(v: &Vec<(String, String)>) -> (r: Vec<(String, String)>)
    ensures
        r@ == v@,
{
    let mut out: Vec<(String, String)> = Vec::new();
    let mut i: usize = 0;
    while i < v.len()
        invariant
            i <= v@.len(),
            out@ == v@.take(i as int),
        decreases v@.len() - i,
    {
        let pair = (v[i].0.clone(), v[i].1.clone());
        proof {
            assert(pair == v@[i as int]);
        }
        out.push(pair);
        proof {
            assert(v@.take(i + 1 as int) =~= v@.take(i as int).push(v@[i as int]));
        }
        i += 1;
    }
    proof {
        assert(v@.take(v@.len() as int) =~= v@);
    }
    out
}

fn normalize_ports(raws: &Vec<RawPort>) -> (r: Vec<PortMapping>)
    ensures
        ports_normalized(r@, raws@),
{
    let mut out: Vec<PortMapping> = Vec::new();
    let mut i: usize = 0;
    while i < raws.len()
        invariant
            i <= raws@.len(),
            out@.len() == i,
            ports_normalized(out@, raws@.take(i as int)),
        decreases raws@.len() - i,
    {
        let protocol = match &raws[i].protocol {
            Some(t) => to_lowercase(t.as_str()),
            None => to_string_owned("tcp"),
        };
        out.push(
            PortMapping {
                host_port: raws[i].host_port,
                container_port: raws[i].container_port,
                protocol,
            },
        );
        i += 1;
    }
    out
}

/// Normalize one raw record: 12-character id, canonical name, derived
/// status and health, classified category, normalized ports, and the
/// paired-variant hint; stats and image size start absent.
pub fn normalize_container(raw: &RawContainer) -> (r: ContainerInfo)
    ensures
        normalized_from(r, *raw),
{
    let id = take_chars(raw.id.as_str(), 12);
    let name = if raw.names.len() > 0 {
        trim_leading_slashes(raw.names[0].as_str())
    } else {
        id.clone()
    };
    let status = if contains_str(raw.status_text.as_str(), "(healthy)") {
        ContainerStatus::Healthy
    } else if contains_str(raw.status_text.as_str(), "(unhealthy)") {
        ContainerStatus::Unhealthy
    } else {
        ContainerStatus::from_state(raw.state.as_str())
    };
    let health = if contains_str(raw.status_text.as_str(), "(healthy)") {
        Some(to_string_owned("healthy"))
    } else if contains_str(raw.status_text.as_str(), "(unhealthy)") {
        Some(to_string_owned("unhealthy"))
    } else {
        None
    };
    let category = ServiceCategory::from_name(name.as_str());
    let rust_equivalent = if contains_str(name.as_str(), "rust") {
        None
    } else if ends_with(name.as_str(), "-prod") {
        let n = name.as_str().unicode_len();
        proof {
            reveal_strlit("-prod");
        }
        let stem = name.as_str().substring_char(0, n - 5);
        proof {
            assert(stem@ =~= name@.take(name@.len() - 5));
        }
        Some(concat2(stem, "-rust-prod"))
    } else {
        Some(name.clone())
    };
    ContainerInfo {
        id,
        name,
        image: raw.image.clone(),
        status,
        health,
        category,
        ports: normalize_ports(&raw.ports),
        networks: clone_strings(&raw.networks),
        created: raw.created,
        labels: clone_labels(&raw.labels),
        rust_equivalent,
        stats: None,
        image_size_mb_hundredths: None,
    }
}

/// The listing is sorted ascending by name (code-point order, which is
/// byte order for the UTF-8 encodings).
pub open spec fn sorted_by_name(s: Seq<ContainerInfo>) -> bool {
    forall|i: int, j: int| 0 <= i < j < s.len() ==> lex_le(s[i].name@, s[j].name@)
}

fn min_name_index(v: &Vec<ContainerInfo>) -> (mi: usize)
    requires
        v@.len() > 0,
    ensures
        mi < v@.len(),
        forall|j: int| 0 <= j < v@.len() ==> lex_le(v@[mi as int].name@, v@[j].name@),
{
    let mut mi: usize = 0;
    let mut k: usize = 1;
    proof {
        crate::strutil::lemma_lex_le_total(v@[0].name@, v@[0].name@);
    }
    while k < v.len()
        invariant
            mi < k,
            k <= v@.len(),
            forall|j: int| 0 <= j < k ==> lex_le(v@[mi as int].name@, v@[j].name@),
        decreases v@.len() - k,
    {
        if !crate::strutil::str_le(&v[mi].name, &v[k].name) {
            proof {
                crate::strutil::lemma_lex_le_total(v@[mi as int].name@, v@[k as int].name@);
                assert forall|j: int| 0 <= j <= k implies lex_le(
                    v@[k as int].name@,
                    v@[j].name@,
                ) by {
                    if j < k as int {
                        crate::strutil::lemma_lex_le_trans(
                            v@[k as int].name@,
                            v@[mi as int].name@,
                            v@[j].name@,
                        );
                    } else {
                        crate::strutil::lemma_lex_le_total(v@[k as int].name@, v@[k as int].name@);
                    }
                }
            }
            mi = k;
        } else {
            proof {
                crate::strutil::lemma_lex_le_total(v@[k as int].name@, v@[k as int].name@);
            }
        }
        k += 1;
    }
    mi
}

/// Sort a listing by name, ascending; the result holds exactly the
/// input records.
pub fn sort_records_by_name(v: Vec<ContainerInfo>) -> (r: Vec<ContainerInfo>)
    ensures
        r@.to_multiset() == v@.to_multiset(),
        r@.len() == v@.len(),
        sorted_by_name(r@),
{
    broadcast use vstd::seq_lib::group_to_multiset_ensures;
    broadcast use vstd::multiset::group_multiset_axioms;

    let ghost orig = v@;
    let mut rest = v;
    let mut out: Vec<ContainerInfo> = Vec::new();
    while rest.len() > 0
        invariant
            out@.to_multiset().add(rest@.to_multiset()) =~= orig.to_multiset(),
            out@.len() + rest@.len() == orig.len(),
            sorted_by_name(out@),
            forall|a: int, b: int|
                0 <= a < out@.len() && 0 <= b < rest@.len() ==> lex_le(
                    out@[a].name@,
                    rest@[b].name@,
                ),
        decreases rest.len(),
    {
        let ghost rest_old = rest@;
        let ghost out_old = out@;
        let mi = min_name_index(&rest);
        let x = rest.remove(mi);
        out.push(x);
        proof {
            vstd::seq_lib::to_multiset_remove(rest_old, mi as int);
            vstd::seq_lib::to_multiset_build(out_old, rest_old[mi as int]);
            assert(rest@.to_multiset() == rest_old.to_multiset().remove(rest_old[mi as int]));
            assert(out@.to_multiset() == out_old.to_multiset().insert(rest_old[mi as int]));
            assert(rest_old.contains(rest_old[mi as int])) by {
                assert(rest_old[mi as int] == rest_old[mi as int]);
            }
            vstd::seq_lib::to_multiset_contains(rest_old, rest_old[mi as int]);
            assert(rest_old.to_multiset().count(rest_old[mi as int]) > 0);
            assert(out@.to_multiset().add(rest@.to_multiset()) =~= orig.to_multiset());
            assert forall|a: int, b: int|
                0 <= a < out@.len() && 0 <= b < rest@.len() implies lex_le(
                out@[a].name@,
                rest@[b].name@,
            ) by {
                if a < out@.len() - 1 {
                    if b < mi as int {
                        assert(rest@[b] == rest_old[b]);
                    } else {
                        assert(rest@[b] == rest_old[b + 1]);
                    }
                } else {
                    assert(out@[a] == rest_old[mi as int]);
                    if b < mi as int {
                        assert(rest@[b] == rest_old[b]);
                    } else {
                        assert(rest@[b] == rest_old[b + 1]);
                    }
                }
            }
        }
    }
    proof {
        assert(rest@.to_multiset() =~= Multiset::<ContainerInfo>::empty());
        assert(out@.to_multiset() =~= orig.to_multiset());
    }
    out
}

/// Normalize a raw listing: map every record and sort the result by
/// name. The result holds exactly the normalizations of the input
/// records, in ascending name order.
pub fn normalize_containers(raws: &Vec<RawContainer>) -> (r: Vec<ContainerInfo>)
    ensures
        r@.len() == raws@.len(),
        sorted_by_name(r@),
        exists|m: Seq<ContainerInfo>|
            #![trigger m.to_multiset()]
            {
                &&& m.len() == raws@.len()
                &&& forall|i: int| 0 <= i < m.len() ==> normalized_from(#[trigger] m[i], raws@[i])
                &&& r@.to_multiset() == m.to_multiset()
            },
{
    let mut mapped: Vec<ContainerInfo> = Vec::new();
    let mut i: usize = 0;
    while i < raws.len()
        invariant
            i <= raws@.len(),
            mapped@.len() == i,
            forall|k: int| 0 <= k < i ==> normalized_from(#[trigger] mapped@[k], raws@[k]),
        decreases raws@.len() - i,
    {
        let rec = normalize_container(&raws[i]);
        mapped.push(rec);
        i += 1;
    }
    let ghost m = mapped@;
    let r = sort_records_by_name(mapped);
    proof {
        assert(m.len() == raws@.len() && (forall|k: int|
            0 <= k < m.len() ==> normalized_from(#[trigger] m[k], raws@[k])) && r@.to_multiset()
            == m.to_multiset());
    }
    r
}

/// Index of the first record whose id or name equals `key`, -1 when
/// none matches.
pub open spec fn first_match(s: Seq<ContainerInfo>, key: Seq<char>) -> int
    decreases s.len(),
{
    if s.len() == 0 {
        -1
    } else if s[0].id@ == key || s[0].name@ == key {
        0
    } else {
        let rest = first_match(s.skip(1), key);
        if rest < 0 {
            -1
        } else {
            1 + rest
        }
    }
}

pub(crate) proof fn lemma_first_match_at(s: Seq<ContainerInfo>, key: Seq<char>, i: int)
    requires
        0 <= i <= s.len(),
        forall|k: int| 0 <= k < i ==> (#[trigger] s[k]).id@ != key && s[k].name@ != key,
        i < s.len() ==> (s[i].id@ == key || s[i].name@ == key),
    ensures
        i < s.len() ==> first_match(s, key) == i,
        i == s.len() ==> first_match(s, key) == -1,
    decreases s.len(),
{
    if s.len() > 0 {
        if s[0].id@ == key || s[0].name@ == key {
            assert(i == 0);
        } else {
            assert(i >= 1);
            lemma_first_match_at(s.skip(1), key, i - 1);
        }
    }
}

/// Find a record by id or name; the first match in listing order wins.
pub fn find_container<'a>(records: &'a Vec<ContainerInfo>, key: &str) -> (r: Option<
    &'a ContainerInfo,
>)
    ensures
        match r {
            Some(c) => first_match(records@, key@) >= 0 && *c == records@[first_match(
                records@,
                key@,
            )],
            None => first_match(records@, key@) < 0,
        },
{
    let n = records.len();
    let mut i: usize = 0;
    while i < n
        invariant
            n == records@.len(),
            i <= n,
            forall|k: int|
                0 <= k < i ==> (#[trigger] records@[k]).id@ != key@ && records@[k].name@ != key@,
        decreases n - i,
    {
        if str_eq(records[i].id.as_str(), key) || str_eq(records[i].name.as_str(), key) {
            proof {
                lemma_first_match_at(records@, key@, i as int);
            }
            return Some(&records[i]);
        }
        i += 1;
    }
    proof {
        lemma_first_match_at(records@, key@, n as int);
    }
    None
}

/// `r` is `b` with its stats field replaced by `s`.
pub open spec fn same_but_stats(r: ContainerInfo, b: ContainerInfo, s: Option<ContainerStats>) -> bool {
    &&& r.id == b.id
    &&& r.name == b.name
    &&& r.image == b.image
    &&& r.status == b.status
    &&& r.health == b.health
    &&& r.category == b.category
    &&& r.ports == b.ports
    &&& r.networks == b.networks
    &&& r.created == b.created
    &&& r.labels == b.labels
    &&& r.rust_equivalent == b.rust_equivalent
    &&& r.stats == s
    &&& r.image_size_mb_hundredths == b.image_size_mb_hundredths
}

/// Merge per-container samples into a listing, positionally; an absent
/// sample leaves the field absent.
pub fn attach_stats(records: Vec<ContainerInfo>, samples: &Vec<Option<ContainerStats>>) -> (r: Vec<
    ContainerInfo,
>)
    requires
        records@.len() == samples@.len(),
    ensures
        r@.len() == records@.len(),
        forall|i: int|
            0 <= i < r@.len() ==> same_but_stats(#[trigger] r@[i], records@[i], samples@[i]),
{
    let ghost orig = records@;
    let mut rest = records;
    let mut out: Vec<ContainerInfo> = Vec::new();
    proof {
        assert(rest@ =~= orig.skip(0));
    }
    while rest.len() > 0
        invariant
            out@.len() + rest@.len() == orig.len(),
            orig.len() == samples@.len(),
            rest@ =~= orig.skip(out@.len() as int),
            forall|k: int|
                0 <= k < out@.len() ==> same_but_stats(#[trigger] out@[k], orig[k], samples@[k]),
        decreases rest.len(),
    {
        let i = out.len();
        let mut x = rest.remove(0);
        proof {
            assert(orig.skip(i as int)[0] == orig[i as int]);
            assert(orig.skip(i as int).remove(0) =~= orig.skip(i + 1 as int));
        }
        x.stats = samples[i];
        out.push(x);
    }
    out
}

/// Normalize one raw network record: 12-character id, the driver
/// defaulted to `"bridge"` when the runtime gave none.
pub fn normalize_network(
    id: &str,
    name: &str,
    driver: Option<&str>,
    containers: Vec<String>,
) -> (r: NetworkInfo)
    ensures
        r.id@ == take_up_to(id@, 12),
        r.name@ == name@,
        r.driver@ == match driver {
            Some(d) => d@,
            None => "bridge"@,
        },
        r.containers == containers,
{
    NetworkInfo {
        id: take_chars(id, 12),
        name: to_string_owned(name),
        driver: match driver {
            Some(d) => to_string_owned(d),
            None => to_string_owned("bridge"),
        },
        containers,
    }
}

} // verus!
