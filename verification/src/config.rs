//! The configuration that the authentication server hands out, and the requests sent to it.
use serde_json::Value;
use vstd::prelude::*;
use vstd::string::StringExecFns;
use crate::htp::opt_text;

verus! {

#[verifier::external_type_specification]
#[verifier::external_body]
pub struct ExJsonValue(serde_json::Value);

/// A JSON value, as the configuration reads it. A number is held as what it reads as
/// a signed and as an unsigned 64-bit integer, `None` where it is not one (a fraction,
/// or out of range). An object keeps its members in the order that the parser gives them.
pub enum Json {
    Null,
    Bool(bool),
    Number(Option<i64>, Option<u64>),
    Str(String),
    Array(Vec<Json>),
    Object(Vec<(String, Json)>),
}

/// What `serde_json::from_str::<Value>` makes of `text`, as a `Json`; `None` where `text`
/// is no JSON text.
pub uninterp spec fn json_of(text: Seq<char>) -> Option<Json>;

/// Parses `s` with `serde_json::from_str` into a `Value` and takes that into a `Json`.
/// An object's map holds each key once (the last of repeated keys wins), so the first
/// member of a name is the one that `Value`'s indexing finds.
#[verifier::external_body]
fn json_parse(s: &str) -> (r: Option<Json>)
    ensures
        r == json_of(s@),
{
    match serde_json::from_str::<Value>(s) {
        Ok(v) => Some(json_from_value(v)),
        Err(_) => None,
    }
}

/// Takes a `serde_json::Value` into a `Json`, variant for variant: a number by
/// `Number::as_i64` and `Number::as_u64`, arrays and objects member by member.
/// It recurses into the tree, so it is part of `json_parse`'s conversion and states nothing.
#[verifier::external_body]
fn json_from_value(v: Value) -> Json {
    match v {
        Value::Null => Json::Null,
        Value::Bool(b) => Json::Bool(b),
        Value::Number(n) => Json::Number(n.as_i64(), n.as_u64()),
        Value::String(t) => Json::Str(t),
        Value::Array(a) => Json::Array(a.into_iter().map(json_from_value).collect()),
        Value::Object(m) => Json::Object(m.into_iter().map(|(k, x)| (k, json_from_value(x))).collect()),
    }
}

/// The value of the first member named `k` among `m`; `Json::Null` where there is none.
pub open spec fn entry_of(m: Seq<(String, Json)>, k: Seq<char>) -> Json
    decreases m.len(),
{
    if m.len() == 0 {
        Json::Null
    } else if m[0].0@ == k {
        m[0].1
    } else {
        entry_of(m.drop_first(), k)
    }
}

/// `v[k]`: the member `k` of the object `v`, `Json::Null` where `v` is no object or has none.
pub open spec fn member(v: Json, k: Seq<char>) -> Json {
    match v {
        Json::Object(m) => entry_of(m@, k),
        _ => Json::Null,
    }
}

/// The text of a string value.
pub open spec fn text_in(v: Json) -> Option<Seq<char>> {
    match v {
        Json::Str(t) => Some(t@),
        _ => None,
    }
}

/// A number that is a non-negative 64-bit integer.
pub open spec fn u64_in(v: Json) -> Option<u64> {
    match v {
        Json::Number(_, u) => u,
        _ => None,
    }
}

/// A number that is a signed 64-bit integer.
pub open spec fn i64_in(v: Json) -> Option<i64> {
    match v {
        Json::Number(i, _) => i,
        _ => None,
    }
}

/// A boolean value.
pub open spec fn bool_in(v: Json) -> Option<bool> {
    match v {
        Json::Bool(b) => Some(b),
        _ => None,
    }
}

/// The strings among `a`, in order; other values are passed over.
pub open spec fn strings_in(a: Seq<Json>) -> Seq<String>
    decreases a.len(),
{
    if a.len() == 0 {
        Seq::empty()
    } else {
        let r = strings_in(a.drop_last());
        match a.last() {
            Json::Str(t) => r.push(t),
            _ => r,
        }
    }
}

/// The strings of the array `v`; none where `v` is no array.
pub open spec fn array_strings(v: Json) -> Seq<String> {
    match v {
        Json::Array(a) => strings_in(a@),
        _ => Seq::empty(),
    }
}

/// `v[key]`, by reference; `None` stands for `Json::Null` where `v` has no such member.
fn member_ref<'a>(v: &'a Json, key: &str) -> (r: Option<&'a Json>)
    ensures
        match r {
            Some(x) => *x == member(*v, key@),
            None => member(*v, key@) == Json::Null,
        },
{
    match v {
        Json::Object(m) => {
            let k = String::from_str(key);
            let n = m.len();
            let mut i: usize = 0;
            assert(m@.subrange(0, n as int) =~= m@);
            while i < n
                invariant
                    n == m@.len(),
                    i <= n,
                    k@ == key@,
                    member(*v, key@) == entry_of(m@, key@),
                    entry_of(m@, key@) == entry_of(m@.subrange(i as int, n as int), key@),
                decreases n - i,
            {
                if m[i].0 == k {
                    assert(m@.subrange(i as int, n as int)[0] == m@[i as int]);
                    return Some(&m[i].1);
                }
                assert(m@.subrange(i as int, n as int).drop_first() =~= m@.subrange(
                    i + 1,
                    n as int,
                ));
                i = i + 1;
            }
            assert(m@.subrange(i as int, n as int) =~= Seq::<(String, Json)>::empty());
            None
        },
        _ => None,
    }
}

/// `v[key].as_str()`, copied.
fn text_at(v: &Json, key: &str) -> (r: Option<String>)
    ensures
        opt_text(r) == text_in(member(*v, key@)),
{
    match member_ref(v, key) {
        Some(x) => match x {
            Json::Str(t) => Some(t.clone()),
            _ => None,
        },
        None => None,
    }
}

/// `v[key].as_u64()`.
fn u64_at(v: &Json, key: &str) -> (r: Option<u64>)
    ensures
        r == u64_in(member(*v, key@)),
{
    match member_ref(v, key) {
        Some(x) => match x {
            Json::Number(_, u) => *u,
            _ => None,
        },
        None => None,
    }
}

/// `v[key].as_i64()`.
fn i64_at(v: &Json, key: &str) -> (r: Option<i64>)
    ensures
        r == i64_in(member(*v, key@)),
{
    match member_ref(v, key) {
        Some(x) => match x {
            Json::Number(i, _) => *i,
            _ => None,
        },
        None => None,
    }
}

/// `v[key].as_bool()`.
fn bool_at(v: &Json, key: &str) -> (r: Option<bool>)
    ensures
        r == bool_in(member(*v, key@)),
{
    match member_ref(v, key) {
        Some(x) => match x {
            Json::Bool(b) => Some(*b),
            _ => None,
        },
        None => None,
    }
}

/// The strings of the array `v[key]`, in order.
fn strings_at(v: &Json, key: &str) -> (r: Vec<String>)
    ensures
        r@ == array_strings(member(*v, key@)),
{
    match member_ref(v, key) {
        Some(x) => match x {
            Json::Array(a) => {
                let mut out: Vec<String> = Vec::new();
                let n = a.len();
                let mut i: usize = 0;
                while i < n
                    invariant
                        n == a@.len(),
                        i <= n,
                        out@ == strings_in(a@.subrange(0, i as int)),
                    decreases n - i,
                {
                    assert(a@.subrange(0, i + 1).drop_last() =~= a@.subrange(0, i as int));
                    match &a[i] {
                        Json::Str(t) => out.push(t.clone()),
                        _ => {},
                    }
                    i = i + 1;
                }
                assert(a@.subrange(0, n as int) =~= a@);
                out
            },
            _ => Vec::new(),
        },
        None => Vec::new(),
    }
}

pub const IPSET_NETHASH_TABLE_NULL: &'static str = "LPROXYN\0";
pub const IPSET_NETHASH_TABLE: &'static str = "LPROXYN";
pub const IPSET_TABLE_NULL: &'static str = "LPROXY\0";
pub const IPSET_TABLE6_NULL: &'static str = "LPROXY6\0";
pub const IPSET_TABLE: &'static str = "LPROXY";
pub const IPSET_TABLE6: &'static str = "LPROXY6";
pub const DEFAULT_DNS_SERVER: &'static str = "223.5.5.5";
pub const LOCAL_SERVER: &'static str = "127.0.0.1";
pub const LOCAL_TPROXY_SERVER_PORT: u16 = 5000;
pub const LOCAL_DNS_SERVER_PORT: u16 = 5001;
pub const KEEP_ALIVE_INTERVAL: u64 = 15 * 1000;
pub const CFG_MONITOR_INTERVAL: u64 = 5 * 60 * 1000;
pub const LPROXY_SCRIPT: &'static str = "lps.sh";

pub struct TunCfg {
    pub tunnel_number: usize,
    pub tunnel_url: String,
    pub tunnel_req_cap: usize,
    pub relay_domain: String,
    pub relay_port: u16,
    pub dns_tunnel_number: usize,
    pub domains_ver: String,
    pub domain_array: Option<Vec<String>>,
    pub local_dns_server: String,
    pub request_quota: usize,
    pub xport_url: String,
    pub token: String,
    pub cfg_monitor_url: String,
    pub cfg_access_report_url: String,
    pub work_as_global: bool,
}

/// The address of the authentication service.
pub fn server_url() -> (r: String)
    ensures
        r@ == "http://103.39.232.231:8002/auth"@,
{
    String::from_str("http://103.39.232.231:8002/auth")
}

pub struct AuthReq {
    pub uuid: String,
    pub current_version: String,
    pub arch: String,
    pub macs: Vec<String>,
}

/// The MAC addresses `macs[..n]`, each in double quotes, separated by commas.
pub open spec fn quoted_list(macs: Seq<Seq<char>>, n: int) -> Seq<char>
    decreases n,
{
    if n <= 0 {
        Seq::empty()
    } else if n == 1 {
        "\""@ + macs[0] + "\""@
    } else {
        quoted_list(macs, n - 1) + ","@ + "\""@ + macs[n - 1] + "\""@
    }
}

/// The JSON text of an authentication request.
pub open spec fn auth_req_json(uuid: Seq<char>, ver: Seq<char>, arch: Seq<char>, macs: Seq<char>) -> Seq<char> {
    "{\"uuid\":\""@ + uuid + "\",\"current_version\":\""@ + ver + "\",\"arch\":\""@ + arch
        + "\", \"macs\":["@ + macs + "]}"@
}

impl AuthReq {
    pub open spec fn spec_macs(&self) -> Seq<Seq<char>> {
        self.macs@.map_values(|m: String| m@)
    }

    pub fn to_json_str(&self) -> (r: String)
        ensures
            r@ == auth_req_json(
                self.uuid@,
                self.current_version@,
                self.arch@,
                quoted_list(self.spec_macs(), self.macs@.len() as int),
            ),
    {
        let macs = self.format_macs();
        let mut s = String::from_str("{\"uuid\":\"");
        s.append(self.uuid.as_str());
        s.append("\",\"current_version\":\"");
        s.append(self.current_version.as_str());
        s.append("\",\"arch\":\"");
        s.append(self.arch.as_str());
        s.append("\", \"macs\":[");
        s.append(macs.as_str());
        s.append("]}");
        s
    }

    fn format_macs(&self) -> (r: String)
        ensures
            r@ == quoted_list(self.spec_macs(), self.macs@.len() as int),
    {
        let mut macs = String::new();
        let len = self.macs.len();
        let mut i: usize = 0;
        while i < len
            invariant
                len == self.macs@.len(),
                i <= len,
                i < len ==> macs@ == quoted_list(self.spec_macs(), i as int) + (if i > 0 {
                    ","@
                } else {
                    Seq::empty()
                }),
                i == len ==> macs@ == quoted_list(self.spec_macs(), i as int),
            decreases len - i,
        {
            let mac = &self.macs[i];
            let ghost before = macs@;
            macs.append("\"");
            macs.append(mac.as_str());
            macs.append("\"");
            if i < len - 1 {
                macs.append(",");
            }
            proof {
                assert(self.spec_macs()[i as int] == mac@);
                if i == 0 {
                    assert(before =~= Seq::<char>::empty());
                }
            }
            i = i + 1;
            proof {
                if i < len {
                    assert(macs@ =~= quoted_list(self.spec_macs(), i as int) + ","@);
                } else {
                    assert(macs@ =~= quoted_list(self.spec_macs(), i as int));
                }
            }
        }
        macs
    }
}

pub struct CfgMonitorReq {
    pub current_version: String,
    pub domains_ver: String,
    pub arch: String,
}

impl CfgMonitorReq {
    pub fn to_json_str(&self) -> (r: String)
        ensures
            r@ == "{\"current_version\":\""@ + self.current_version@ + "\",\"domains_ver\":\""@
                + self.domains_ver@ + "\",\"arch\":\""@ + self.arch@ + "\"}"@,
    {
        let mut s = String::from_str("{\"current_version\":\"");
        s.append(self.current_version.as_str());
        s.append("\",\"domains_ver\":\"");
        s.append(self.domains_ver.as_str());
        s.append("\",\"arch\":\"");
        s.append(self.arch.as_str());
        s.append("\"}");
        s
    }
}

pub struct AuthResp {
    pub error: i64,
    pub token: String,
    pub restart: bool,
    pub need_upgrade: bool,
    pub upgrade_url: String,
    pub tuncfg: Option<TunCfg>,
}

/// The text `o`, or `d` where it is missing.
pub open spec fn seq_or(o: Option<Seq<char>>, d: Seq<char>) -> Seq<char> {
    match o {
        Some(t) => t,
        None => d,
    }
}

/// The number `o`, or `d` where it is missing.
pub open spec fn num_or(o: Option<u64>, d: u64) -> u64 {
    match o {
        Some(t) => t,
        None => d,
    }
}

fn string_or(o: Option<String>, d: &str) -> (r: String)
    ensures
        r@ == seq_or(opt_text(o), d@),
{
    match o {
        Some(t) => t,
        None => String::from_str(d),
    }
}

fn u64_or(o: Option<u64>, d: u64) -> (r: u64)
    ensures
        r == num_or(o, d),
{
    match o {
        Some(t) => t,
        None => d,
    }
}

/// The configuration that the `tuncfg` object `v` gives, with `token`: each member that
/// is missing, or not of its kind, set to its default.
pub open spec fn tuncfg_of_json(v: Json, token: Seq<char>, c: TunCfg) -> bool {
    &&& c.tunnel_number == num_or(u64_in(member(v, "tunnel_number"@)), 2) as usize
    &&& c.request_quota == num_or(u64_in(member(v, "request_quota"@)), 10) as usize
    &&& c.tunnel_url@ == seq_or(text_in(member(v, "tunnel_url"@)), "wss://127.0.0.1/tun"@)
    &&& c.xport_url@ == seq_or(
        text_in(member(v, "xport_url"@)),
        "https://localhost:8000/xportlws"@,
    )
    &&& c.cfg_monitor_url@ == seq_or(
        text_in(member(v, "cfg_monitor_url"@)),
        "https://localhost:8000/cfgmonitor"@,
    )
    &&& c.cfg_access_report_url@ == seq_or(
        text_in(member(v, "cfg_access_report_url"@)),
        "https://localhost:8000/accreport"@,
    )
    &&& c.tunnel_req_cap == num_or(u64_in(member(v, "tunnel_req_cap"@)), 100) as usize
    &&& c.relay_domain@ == seq_or(text_in(member(v, "relay_domain"@)), "127.0.0.1"@)
    &&& c.relay_port == num_or(u64_in(member(v, "relay_port"@)), 12345) as u16
    &&& c.domains_ver@ == seq_or(text_in(member(v, "domains_ver"@)), "0.1.0"@)
    &&& c.local_dns_server@ == seq_or(text_in(member(v, "local_dns_server"@)), "223.5.5.5:53"@)
    &&& c.dns_tunnel_number == num_or(u64_in(member(v, "dns_tunnel_number"@)), 1) as usize
    &&& c.work_as_global == (bool_in(member(v, "work_as_global"@)) == Some(true))
    &&& c.domain_array matches Some(a) && a@ == array_strings(member(v, "domain_array"@))
    &&& c.token@ == token
}

/// The reply that the JSON value `v` holds: each member that is missing, or not of its
/// kind, set to its default; a configuration where `tuncfg` is an object.
pub open spec fn auth_reply_of(v: Json, r: AuthResp) -> bool {
    &&& r.token@ == seq_or(text_in(member(v, "token"@)), ""@)
    &&& r.error == (match i64_in(member(v, "error"@)) {
        Some(e) => e,
        None => 0,
    })
    &&& r.restart == (bool_in(member(v, "restart"@)) == Some(true))
    &&& r.need_upgrade == (bool_in(member(v, "need_upgrade"@)) == Some(true))
    &&& r.upgrade_url@ == seq_or(text_in(member(v, "upgrade_url"@)), ""@)
    &&& (r.tuncfg is Some <==> member(v, "tuncfg"@) is Object)
    &&& (r.tuncfg matches Some(c) ==> tuncfg_of_json(member(v, "tuncfg"@), r.token@, c))
}

impl AuthResp {
    /// The reply that the JSON text `s` holds: each member that is missing, or not of its
    /// kind, set to its default; `None` where `s` is no JSON text.
    pub fn from_json_str(s: &str) -> (r: Option<AuthResp>)
        ensures
            r is Some <==> json_of(s@) is Some,
            r matches Some(a) ==> auth_reply_of(json_of(s@)->0, a),
    {
        match json_parse(s) {
            Some(v) => Some(AuthResp::from_json(&v)),
            None => None,
        }
    }

    /// The reply that the JSON value `v` holds: each member that is missing, or not of
    /// its kind, set to its default.
    pub fn from_json(v: &Json) -> (r: AuthResp)
        ensures
            auth_reply_of(*v, r),
    {
        let token = string_or(text_at(v, "token"), "");
        let error = match i64_at(v, "error") {
            Some(t) => t,
            None => 0,
        };
        let restart = match bool_at(v, "restart") {
            Some(x) => x,
            None => false,
        };
        let need_upgrade = match bool_at(v, "need_upgrade") {
            Some(x) => x,
            None => false,
        };
        let upgrade_url = string_or(text_at(v, "upgrade_url"), "");
        let tuncfg = match member_ref(v, "tuncfg") {
            Some(t) => match t {
                Json::Object(_) => Some(TunCfg::from_json(t, &token)),
                _ => None,
            },
            None => None,
        };
        AuthResp { token, restart, tuncfg, need_upgrade, upgrade_url, error }
    }
}

impl TunCfg {
    /// The configuration that the `tuncfg` object `v` gives, with `token`: each member
    /// that is missing, or not of its kind, set to its default.
    pub fn from_json(v: &Json, token: &String) -> (c: TunCfg)
        ensures
            tuncfg_of_json(*v, token@, c),
    {
        TunCfg {
            tunnel_number: u64_or(u64_at(v, "tunnel_number"), 2) as usize,
            tunnel_url: string_or(text_at(v, "tunnel_url"), "wss://127.0.0.1/tun"),
            tunnel_req_cap: u64_or(u64_at(v, "tunnel_req_cap"), 100) as usize,
            relay_domain: string_or(text_at(v, "relay_domain"), "127.0.0.1"),
            relay_port: u64_or(u64_at(v, "relay_port"), 12345) as u16,
            dns_tunnel_number: u64_or(u64_at(v, "dns_tunnel_number"), 1) as usize,
            domain_array: Some(strings_at(v, "domain_array")),
            local_dns_server: string_or(text_at(v, "local_dns_server"), "223.5.5.5:53"),
            request_quota: u64_or(u64_at(v, "request_quota"), 10) as usize,
            xport_url: string_or(text_at(v, "xport_url"), "https://localhost:8000/xportlws"),
            token: token.clone(),
            domains_ver: string_or(text_at(v, "domains_ver"), "0.1.0"),
            cfg_monitor_url: string_or(
                text_at(v, "cfg_monitor_url"),
                "https://localhost:8000/cfgmonitor",
            ),
            cfg_access_report_url: string_or(
                text_at(v, "cfg_access_report_url"),
                "https://localhost:8000/accreport",
            ),
            work_as_global: match bool_at(v, "work_as_global") {
                Some(t) => t,
                None => false,
            },
        }
    }
}

} // verus!
