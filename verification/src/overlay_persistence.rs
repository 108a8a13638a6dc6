//! The file layout of saved overlay data: proposals and user-managed SSH
//! domains, as JSON.
use vstd::prelude::*;
use crate::overlay_data::{SshDomainConfig, SshDomainView};
use crate::overlay_state::ValueMap;
use crate::text::{owned, str_eq};

verus! {

/// A JSON number: an integer that fits `i64`, a larger one that fits `u64`,
/// or a float, held as its IEEE-754 bit pattern.
#[derive(Debug, Clone, Copy, PartialEq, Eq, Structural)]
pub enum JsonNumber {
    Int(i64),
    UInt(u64),
    Float(u64),
}

/// A JSON document; an object lists its members in order.
#[derive(Debug)]
pub enum JsonValue {
    Null,
    Bool(bool),
    Number(JsonNumber),
    String(String),
    Array(Vec<JsonValue>),
    Object(Vec<(String, JsonValue)>),
}

/// The value of the first member of `obj` named `key`.
pub open spec fn member(obj: Seq<(String, JsonValue)>, key: Seq<char>) -> Option<JsonValue>
    decreases obj.len(),
{
    if obj.len() == 0 {
        None
    } else if obj[0].0@ == key {
        Some(obj[0].1)
    } else {
        member(obj.skip(1), key)
    }
}

/// The string member `key` of `obj`, or `default` when it is missing or
/// not a string.
pub open spec fn string_member(obj: Seq<(String, JsonValue)>, key: Seq<char>, default: Seq<char>) -> Seq<char> {
    match member(obj, key) {
        Some(JsonValue::String(s)) => s@,
        _ => default,
    }
}

/// The boolean member `key` of `obj`, or `false` when it is missing or not
/// a boolean.
pub open spec fn bool_member(obj: Seq<(String, JsonValue)>, key: Seq<char>) -> bool {
    match member(obj, key) {
        Some(JsonValue::Bool(b)) => b,
        _ => false,
    }
}

/// The domain a JSON object describes; missing members take their
/// defaults.
pub open spec fn domain_from_object(obj: Seq<(String, JsonValue)>) -> SshDomainView {
    SshDomainView {
        name: string_member(obj, "name"@, Seq::empty()),
        remote_address: string_member(obj, "remote_address"@, Seq::empty()),
        username: string_member(obj, "username"@, Seq::empty()),
        multiplexing: string_member(obj, "multiplexing"@, "None"@),
        ssh_backend: string_member(obj, "ssh_backend"@, "LibSsh"@),
        no_agent_auth: bool_member(obj, "no_agent_auth"@),
        connect_automatically: bool_member(obj, "connect_automatically"@),
    }
}

/// The domains described by the objects among `items`; other items are
/// skipped.
pub open spec fn domains_from_items(items: Seq<JsonValue>) -> Seq<SshDomainView>
    decreases items.len(),
{
    if items.len() == 0 {
        Seq::empty()
    } else {
        let rest = domains_from_items(items.drop_last());
        match items.last() {
            JsonValue::Object(obj) => rest.push(domain_from_object(obj@)),
            _ => rest,
        }
    }
}

/// The domains a saved `ssh_domains` value describes: none unless it is an
/// array.
pub open spec fn spec_parse_ssh_domains(val: JsonValue) -> Seq<SshDomainView> {
    match val {
        JsonValue::Array(items) => domains_from_items(items@),
        _ => Seq::empty(),
    }
}

fn get_member<'a>(obj: &'a Vec<(String, JsonValue)>, key: &str) -> (r: Option<&'a JsonValue>)
    ensures
        match r {
            Some(v) => member(obj@, key@) == Some(*v),
            None => member(obj@, key@) is None,
        },
{
    let mut i: usize = 0;
    assert(obj@.skip(0) =~= obj@);
    while i < obj.len()
        invariant
            i <= obj@.len(),
            member(obj@, key@) == member(obj@.skip(i as int), key@),
        decreases obj@.len() - i,
    {
        assert(obj@.skip(i as int).skip(1) =~= obj@.skip(i + 1));
        assert(obj@.skip(i as int)[0] == obj@[i as int]);
        if str_eq(obj[i].0.as_str(), key) {
            return Some(&obj[i].1);
        }
        i += 1;
    }
    None
}

fn get_string(obj: &Vec<(String, JsonValue)>, key: &str, default: &str) -> (r: String)
    ensures
        r@ == string_member(obj@, key@, default@),
{
    match get_member(obj, key) {
        Some(JsonValue::String(s)) => s.clone(),
        _ => owned(default),
    }
}

fn get_bool(obj: &Vec<(String, JsonValue)>, key: &str) -> (r: bool)
    ensures
        r == bool_member(obj@, key@),
{
    match get_member(obj, key) {
        Some(JsonValue::Bool(b)) => *b,
        _ => false,
    }
}

/// The domains saved under `ssh_domains`: each object of the array gives a
/// domain, its missing members taking their defaults (empty name, address
/// and user; no multiplexing; the libssh backend; both flags off).
pub fn parse_ssh_domains(val: &JsonValue) -> (r: Vec<SshDomainConfig>)
    ensures
        r@.map_values(|c: SshDomainConfig| c@) == spec_parse_ssh_domains(*val),
{
    let mut domains: Vec<SshDomainConfig> = Vec::new();
    if let JsonValue::Array(arr) = val {
        let mut i: usize = 0;
        while i < arr.len()
            invariant
                i <= arr@.len(),
                domains@.map_values(|c: SshDomainConfig| c@) == domains_from_items(arr@.take(i as int)),
            decreases arr@.len() - i,
        {
            assert(arr@.take(i + 1).drop_last() =~= arr@.take(i as int));
            if let JsonValue::Object(obj) = &arr[i] {
                proof {
                    reveal_strlit("None");
                    reveal_strlit("LibSsh");
                }
                let d = SshDomainConfig {
                    name: get_string(obj, "name", ""),
                    remote_address: get_string(obj, "remote_address", ""),
                    username: get_string(obj, "username", ""),
                    multiplexing: get_string(obj, "multiplexing", "None"),
                    ssh_backend: get_string(obj, "ssh_backend", "LibSsh"),
                    no_agent_auth: get_bool(obj, "no_agent_auth"),
                    connect_automatically: get_bool(obj, "connect_automatically"),
                };
                proof {
                    reveal_strlit("");
                    assert(""@ =~= Seq::<char>::empty());
                }
                assert(d@ == domain_from_object(obj@));
                domains.push(d);
                assert(domains@.map_values(|c: SshDomainConfig| c@) =~= domains_from_items(arr@.take(i as int)).push(domain_from_object(obj@)));
            }
            i += 1;
        }
        assert(arr@.take(arr@.len() as int) =~= arr@);
    }
    domains
}

/// `j` is a string holding `s`.
pub open spec fn is_json_string(j: JsonValue, s: Seq<char>) -> bool {
    j matches JsonValue::String(t) && t@ == s
}

/// `j` is the object `domain_to_json` writes for `d`: its seven members,
/// in order.
pub open spec fn is_domain_json(j: JsonValue, d: SshDomainView) -> bool {
    j matches JsonValue::Object(obj) && {
        let o = obj@;
        &&& o.len() == 7
        &&& o[0].0@ == "name"@ && is_json_string(o[0].1, d.name)
        &&& o[1].0@ == "remote_address"@ && is_json_string(o[1].1, d.remote_address)
        &&& o[2].0@ == "username"@ && is_json_string(o[2].1, d.username)
        &&& o[3].0@ == "multiplexing"@ && is_json_string(o[3].1, d.multiplexing)
        &&& o[4].0@ == "ssh_backend"@ && is_json_string(o[4].1, d.ssh_backend)
        &&& o[5].0@ == "no_agent_auth"@ && o[5].1 == JsonValue::Bool(d.no_agent_auth)
        &&& o[6].0@ == "connect_automatically"@ && o[6].1 == JsonValue::Bool(d.connect_automatically)
    }
}

/// The JSON object saved for a domain.
pub fn domain_to_json(dom: &SshDomainConfig) -> (r: JsonValue)
    ensures
        is_domain_json(r, dom@),
{
    let mut obj: Vec<(String, JsonValue)> = Vec::new();
    obj.push((owned("name"), JsonValue::String(dom.name.clone())));
    obj.push((owned("remote_address"), JsonValue::String(dom.remote_address.clone())));
    obj.push((owned("username"), JsonValue::String(dom.username.clone())));
    obj.push((owned("multiplexing"), JsonValue::String(dom.multiplexing.clone())));
    obj.push((owned("ssh_backend"), JsonValue::String(dom.ssh_backend.clone())));
    obj.push((owned("no_agent_auth"), JsonValue::Bool(dom.no_agent_auth)));
    obj.push((owned("connect_automatically"), JsonValue::Bool(dom.connect_automatically)));
    JsonValue::Object(obj)
}

proof fn lemma_member_at(o: Seq<(String, JsonValue)>, k: int)
    requires
        0 <= k < o.len(),
        forall|j: int| 0 <= j < k ==> (#[trigger] o[j]).0@ != o[k].0@,
    ensures
        member(o, o[k].0@) == Some(o[k].1),
    decreases k,
{
    if k > 0 {
        assert forall|j: int| 0 <= j < k - 1 implies (#[trigger] o.skip(1)[j]).0@ != o.skip(1)[k - 1].0@ by {
            assert(o.skip(1)[j] == o[j + 1]);
        }
        lemma_member_at(o.skip(1), k - 1);
        assert(o.skip(1)[k - 1] == o[k]);
        assert(o[0].0@ != o[k].0@);
    }
}

/// A saved domain reads back as the domain that was saved.
pub proof fn lemma_domain_json_round_trip(j: JsonValue, d: SshDomainView)
    requires
        is_domain_json(j, d),
    ensures
        j matches JsonValue::Object(obj) && domain_from_object(obj@) == d,
{
    reveal_strlit("name");
    reveal_strlit("remote_address");
    reveal_strlit("username");
    reveal_strlit("multiplexing");
    reveal_strlit("ssh_backend");
    reveal_strlit("no_agent_auth");
    reveal_strlit("connect_automatically");
    if let JsonValue::Object(obj) = j {
        let o = obj@;
        assert forall|k: int, i: int| 0 <= i < k < 7 implies (#[trigger] o[i]).0@ != (#[trigger] o[k]).0@ by {
            assert(o[i].0@.len() != o[k].0@.len() || o[i].0@[0] != o[k].0@[0]);
        }
        lemma_member_at(o, 0);
        lemma_member_at(o, 1);
        lemma_member_at(o, 2);
        lemma_member_at(o, 3);
        lemma_member_at(o, 4);
        lemma_member_at(o, 5);
        lemma_member_at(o, 6);
    }
}

/// The domains saved as an array of `domain_to_json` objects read back as
/// those domains, in order.
pub proof fn lemma_domains_round_trip(items: Seq<JsonValue>, ds: Seq<SshDomainView>)
    requires
        items.len() == ds.len(),
        forall|i: int| 0 <= i < items.len() ==> is_domain_json(#[trigger] items[i], ds[i]),
    ensures
        domains_from_items(items) == ds,
    decreases items.len(),
{
    if items.len() > 0 {
        let n = items.len() - 1;
        assert forall|i: int| 0 <= i < n implies is_domain_json(#[trigger] items.drop_last()[i], ds.drop_last()[i]) by {
            assert(items.drop_last()[i] == items[i]);
        }
        lemma_domains_round_trip(items.drop_last(), ds.drop_last());
        assert(is_domain_json(items[n], ds[n]));
        lemma_domain_json_round_trip(items.last(), ds.last());
        assert(ds =~= ds.drop_last().push(ds.last()));
    }
}

/// Combined overlay data: proposals + user-managed SSH domains.
#[derive(Debug)]
pub struct OverlayData {
    pub proposals: ValueMap,
    pub ssh_domains: Vec<SshDomainConfig>,
}

impl Default for OverlayData {
    /// No proposals and no domains.
    fn default() -> (r: Self)
        ensures
            r.proposals@.len() == 0,
            r.ssh_domains@.len() == 0,
    {
        OverlayData { proposals: Vec::new(), ssh_domains: Vec::new() }
    }
}

/// Where a saved overlay file keeps its proposals: the `proposals` member
/// of an object that has one (the current layout), the whole object
/// otherwise (the older, flat layout), nowhere if the file is not an
/// object.
pub open spec fn spec_saved_proposals(json: JsonValue) -> Option<JsonValue> {
    match json {
        JsonValue::Object(obj) => match member(obj@, "proposals"@) {
            Some(p) => Some(p),
            None => Some(json),
        },
        _ => None,
    }
}

/// The domains a saved overlay file holds: those of the `ssh_domains`
/// member, in the current layout only.
pub open spec fn spec_saved_domains(json: JsonValue) -> Seq<SshDomainView> {
    match json {
        JsonValue::Object(obj) => match member(obj@, "proposals"@) {
            Some(_) => match member(obj@, "ssh_domains"@) {
                Some(d) => spec_parse_ssh_domains(d),
                None => Seq::empty(),
            },
            None => Seq::empty(),
        },
        _ => Seq::empty(),
    }
}

/// Splits a saved overlay file into the JSON of its proposals and its
/// domains, for both the current and the older flat layout.
pub fn split_overlay_json(json: &JsonValue) -> (r: (Option<&JsonValue>, Vec<SshDomainConfig>))
    ensures
        match r.0 {
            Some(p) => spec_saved_proposals(*json) == Some(*p),
            None => spec_saved_proposals(*json) is None,
        },
        r.1@.map_values(|c: SshDomainConfig| c@) == spec_saved_domains(*json),
{
    match json {
        JsonValue::Object(obj) => match get_member(obj, "proposals") {
            Some(p) => {
                let domains = match get_member(obj, "ssh_domains") {
                    Some(d) => parse_ssh_domains(d),
                    None => Vec::new(),
                };
                assert(domains@.map_values(|c: SshDomainConfig| c@) =~= spec_saved_domains(*json));
                (Some(p), domains)
            },
            None => {
                let domains: Vec<SshDomainConfig> = Vec::new();
                assert(domains@.map_values(|c: SshDomainConfig| c@) =~= spec_saved_domains(*json));
                (Some(json), domains)
            },
        },
        _ => {
            let domains: Vec<SshDomainConfig> = Vec::new();
            assert(domains@.map_values(|c: SshDomainConfig| c@) =~= spec_saved_domains(*json));
            (None, domains)
        },
    }
}

/// `j` is the file `overlay_json` writes: an object whose `proposals`
/// member is `proposals` and whose `ssh_domains` member is the array of the
/// domains' objects.
pub open spec fn is_overlay_json(j: JsonValue, proposals: JsonValue, ds: Seq<SshDomainView>) -> bool {
    j matches JsonValue::Object(obj) && {
        let o = obj@;
        &&& o.len() == 2
        &&& o[0].0@ == "proposals"@ && o[0].1 == proposals
        &&& o[1].0@ == "ssh_domains"@
        &&& o[1].1 matches JsonValue::Array(items) && items@.len() == ds.len() && forall|i: int|
            0 <= i < ds.len() ==> is_domain_json(#[trigger] items@[i], ds[i])
    }
}

/// The saved form of the overlay data: `{"proposals": ..., "ssh_domains": [...]}`.
pub fn overlay_json(proposals: JsonValue, ssh_domains: &Vec<SshDomainConfig>) -> (r: JsonValue)
    ensures
        is_overlay_json(r, proposals, ssh_domains@.map_values(|c: SshDomainConfig| c@)),
{
    let ghost ds = ssh_domains@.map_values(|c: SshDomainConfig| c@);
    let mut items: Vec<JsonValue> = Vec::new();
    let mut i: usize = 0;
    while i < ssh_domains.len()
        invariant
            i <= ssh_domains@.len(),
            ds == ssh_domains@.map_values(|c: SshDomainConfig| c@),
            items@.len() == i,
            forall|k: int| 0 <= k < i ==> is_domain_json(#[trigger] items@[k], ds[k]),
        decreases ssh_domains@.len() - i,
    {
        let j = domain_to_json(&ssh_domains[i]);
        items.push(j);
        i += 1;
    }
    let mut obj: Vec<(String, JsonValue)> = Vec::new();
    obj.push((owned("proposals"), proposals));
    obj.push((owned("ssh_domains"), JsonValue::Array(items)));
    JsonValue::Object(obj)
}

/// Overlay data saved by `overlay_json` reads back as the proposals and
/// domains that were saved.
pub proof fn lemma_overlay_json_round_trip(j: JsonValue, proposals: JsonValue, ds: Seq<SshDomainView>)
    requires
        is_overlay_json(j, proposals, ds),
    ensures
        spec_saved_proposals(j) == Some(proposals),
        spec_saved_domains(j) == ds,
{
    reveal_strlit("proposals");
    reveal_strlit("ssh_domains");
    if let JsonValue::Object(obj) = j {
        let o = obj@;
        assert("proposals"@.len() == 9);
        assert("ssh_domains"@.len() == 11);
        assert(o.skip(1)[0] == o[1]);
        assert(o[0].0@ != "ssh_domains"@);
        assert(member(o, "ssh_domains"@) == member(o.skip(1), "ssh_domains"@));
        assert(member(o.skip(1), "ssh_domains"@) == Some(o[1].1));
        if let JsonValue::Array(items) = o[1].1 {
            lemma_domains_round_trip(items@, ds);
        }
    }
}

} // verus!
