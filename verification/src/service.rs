//! The shell commands that set the system up for the proxy and take it down again;
//! the caller runs each command with `sh -c`, in order.
use vstd::prelude::*;
use vstd::string::StringExecFns;
use crate::config::{
    DEFAULT_DNS_SERVER, IPSET_NETHASH_TABLE, IPSET_TABLE, IPSET_TABLE6, LOCAL_DNS_SERVER_PORT,
    LOCAL_SERVER,
};
use crate::textutil::{append_decimal, decimal};
use crate::config::{AuthReq, AuthResp, CfgMonitorReq, TunCfg, LPROXY_SCRIPT, server_url, auth_reply_of, json_of, auth_req_json, quoted_list, Json, member, i64_in, bool_in, text_in};
use crate::acclog::{AccLog, DNSAddRecord, IpAddr, key_of, log_name, visited, names_after, v4_of};
use crate::cv::AccReport;
use crate::htp::{HTTPResponse, parse_url, url_parts};
use vstd::string::StrSliceExecFns;

verus! {

pub const IP_RULES_SET: &'static str = "ip route add local 0.0.0.0/0 dev lo table 100;ip rule add fwmark 1 table 100";
pub const IP_RULES_UNSET: &'static str = "ip route del local 0.0.0.0/0 dev lo table 100;ip rule del fwmark 1 table 100";

pub const IPTABLES_SET: &'static str = "iptables -t mangle -N LPROXY_TCP;iptables -t mangle -A LPROXY_TCP -p tcp -j TPROXY --on-port 5000 --on-ip 127.0.0.1 --tproxy-mark 0x01/0x01;iptables -t mangle -I PREROUTING -p tcp -m set --match-set LPROXYN dst -j LPROXY_TCP;iptables -t mangle -I PREROUTING -p tcp -m set --match-set LPROXY dst -j LPROXY_TCP;ip6tables -t mangle -N LPROXY_TCP;ip6tables -t mangle -A LPROXY_TCP -p tcp -j TPROXY --on-port 5000 --on-ip ::1 --tproxy-mark 0x01/0x01;ip6tables -t mangle -I PREROUTING -p tcp -m set --match-set LPROXY6 dst -j LPROXY_TCP;";
pub const IPTABLES_UNSET: &'static str = "iptables -t mangle -D PREROUTING -p tcp -m set --match-set LPROXY dst -j LPROXY_TCP;iptables -t mangle -D PREROUTING -p tcp -m set --match-set LPROXYN dst -j LPROXY_TCP;ip6tables -t mangle -D PREROUTING -p tcp -m set --match-set LPROXY6 dst -j LPROXY_TCP;iptables -t mangle -F LPROXY_TCP;iptables -t mangle -X LPROXY_TCP;ip6tables -t mangle -F LPROXY_TCP;ip6tables -t mangle -X LPROXY_TCP";
pub const IPTABLES_GLOBAL_SET: &'static str = "iptables -t mangle -N LPROXY_TCP;iptables -t mangle -A LPROXY_TCP -d 0.0.0.0/8 -j RETURN;iptables -t mangle -A LPROXY_TCP -d 10.0.0.0/8 -j RETURN;iptables -t mangle -A LPROXY_TCP -d 127.0.0.0/8 -j RETURN;iptables -t mangle -A LPROXY_TCP -d 169.254.0.0/16 -j RETURN;iptables -t mangle -A LPROXY_TCP -d 172.16.0.0/12 -j RETURN;iptables -t mangle -A LPROXY_TCP -d 192.168.0.0/16 -j RETURN;iptables -t mangle -A LPROXY_TCP -d 224.0.0.0/4 -j RETURN;iptables -t mangle -A LPROXY_TCP -d 240.0.0.0/4 -j RETURN;iptables -t mangle -A LPROXY_TCP -p tcp -j TPROXY --on-port 5000 --on-ip 127.0.0.1 --tproxy-mark 0x01/0x01;iptables -t mangle -I PREROUTING -p tcp -j LPROXY_TCP;";
pub const IPTABLES_GLOBAL_UNSET: &'static str = "iptables -t mangle -D PREROUTING -p tcp -j LPROXY_TCP;iptables -t mangle -F LPROXY_TCP;iptables -t mangle -X LPROXY_TCP;";

/// Routes packets marked 1 to the local table; clears the routes first.
pub fn set_ip_rules() -> (r: Vec<String>)
    ensures
        r@.len() == 2 && r@[0]@ == IP_RULES_UNSET@ && r@[1]@ == IP_RULES_SET@,
{
    let mut r = unset_ip_rules();
    let c = String::from_str(IP_RULES_SET);
    r.push(c);
    r
}

/// Removes the routes of the marked packets.
pub fn unset_ip_rules() -> (r: Vec<String>)
    ensures
        r@.len() == 1 && r@[0]@ == IP_RULES_UNSET@,
{
    let mut r = Vec::new();
    r.push(String::from_str(IP_RULES_UNSET));
    r
}

/// Makes the file at `filepath` executable by everyone.
pub fn fileto_excecutable(filepath: &str) -> (r: String)
    ensures
        r@ == "chmod a+x "@ + filepath@,
{
    let mut s = String::from_str("chmod a+x ");
    s.append(filepath);
    s
}

/// The command that creates and flushes the three ipset sets.
pub open spec fn set_ipset_text() -> Seq<char> {
    "ipset -N "@ + IPSET_TABLE@ + " iphash;ipset -N "@ + IPSET_TABLE6@
        + " iphash family inet6;ipset -N "@ + IPSET_NETHASH_TABLE@ + " nethash;ipset -F "@
        + IPSET_TABLE@ + ";ipset -F "@ + IPSET_TABLE6@ + ";ipset -F "@ + IPSET_NETHASH_TABLE@
}

/// Creates and flushes the three ipset sets.
pub fn set_ipset() -> (r: String)
    ensures
        r@ == set_ipset_text(),
{
    let mut s = String::from_str("ipset -N ");
    s.append(IPSET_TABLE);
    s.append(" iphash;ipset -N ");
    s.append(IPSET_TABLE6);
    s.append(" iphash family inet6;ipset -N ");
    s.append(IPSET_NETHASH_TABLE);
    s.append(" nethash;ipset -F ");
    s.append(IPSET_TABLE);
    s.append(";ipset -F ");
    s.append(IPSET_TABLE6);
    s.append(";ipset -F ");
    s.append(IPSET_NETHASH_TABLE);
    s
}

/// The command that destroys the three ipset sets.
pub open spec fn ipset_unset_text() -> Seq<char> {
    "ipset -X "@ + IPSET_TABLE@ + ";ipset -X "@ + IPSET_TABLE6@ + ";ipset -X "@ + IPSET_NETHASH_TABLE@
}

/// The command that points dnsmasq at the default DNS server.
pub open spec fn uci_default_text() -> Seq<char> {
    "uci -q delete dhcp.@dnsmasq[0].server;uci -q add_list dhcp.@dnsmasq[0].server=\""@
        + DEFAULT_DNS_SERVER@
        + "\";uci -q set dhcp.@dnsmasq[0].noresolv='1';uci commit dhcp;/etc/init.d/dnsmasq restart"@
}

/// Destroys the three ipset sets.
pub fn unset_ipset() -> (r: String)
    ensures
        r@ == ipset_unset_text(),
{
    let mut s = String::from_str("ipset -X ");
    s.append(IPSET_TABLE);
    s.append(";ipset -X ");
    s.append(IPSET_TABLE6);
    s.append(";ipset -X ");
    s.append(IPSET_NETHASH_TABLE);
    s
}

/// Sends TCP towards the ipset sets to the local transparent proxy; clears the rules first.
pub fn set_iptables_rules() -> (r: Vec<String>)
    ensures
        r@.len() == 2 && r@[0]@ == IPTABLES_UNSET@ && r@[1]@ == IPTABLES_SET@,
{
    let mut r = unset_iptables_rules();
    let c = String::from_str(IPTABLES_SET);
    r.push(c);
    r
}

/// Removes the rules of `set_iptables_rules`.
pub fn unset_iptables_rules() -> (r: Vec<String>)
    ensures
        r@.len() == 1 && r@[0]@ == IPTABLES_UNSET@,
{
    let mut r = Vec::new();
    r.push(String::from_str(IPTABLES_UNSET));
    r
}

/// Sends all TCP but to private and special networks to the local transparent proxy;
/// clears the rules first.
pub fn set_iptables_rules_for_global() -> (r: Vec<String>)
    ensures
        r@.len() == 2 && r@[0]@ == IPTABLES_GLOBAL_UNSET@ && r@[1]@ == IPTABLES_GLOBAL_SET@,
{
    let mut r = unset_iptables_rules_for_global();
    let c = String::from_str(IPTABLES_GLOBAL_SET);
    r.push(c);
    r
}

/// Removes the rules of `set_iptables_rules_for_global`.
pub fn unset_iptables_rules_for_global() -> (r: Vec<String>)
    ensures
        r@.len() == 1 && r@[0]@ == IPTABLES_GLOBAL_UNSET@,
{
    let mut r = Vec::new();
    r.push(String::from_str(IPTABLES_GLOBAL_UNSET));
    r
}

/// Points dnsmasq at the default DNS server.
pub fn set_uci_dnsmasq_to_default() -> (r: String)
    ensures
        r@ == uci_default_text(),
{
    let mut s = String::from_str(
        "uci -q delete dhcp.@dnsmasq[0].server;uci -q add_list dhcp.@dnsmasq[0].server=\"",
    );
    s.append(DEFAULT_DNS_SERVER);
    s.append(
        "\";uci -q set dhcp.@dnsmasq[0].noresolv='1';uci commit dhcp;/etc/init.d/dnsmasq restart",
    );
    s
}

/// The command that points dnsmasq at the local DNS forwarder.
pub open spec fn uci_me_text() -> Seq<char> {
    "uci -q delete dhcp.@dnsmasq[0].server;uci -q add_list dhcp.@dnsmasq[0].server=\""@
        + LOCAL_SERVER@ + "#"@ + decimal(LOCAL_DNS_SERVER_PORT as nat)
        + "\";uci commit dhcp;/etc/init.d/dnsmasq restart"@
}

/// Points dnsmasq at the local DNS forwarder.
pub fn set_uci_dnsmasq_to_me() -> (r: String)
    ensures
        r@ == uci_me_text(),
{
    let mut s = String::from_str(
        "uci -q delete dhcp.@dnsmasq[0].server;uci -q add_list dhcp.@dnsmasq[0].server=\"",
    );
    s.append(LOCAL_SERVER);
    s.append("#");
    append_decimal(&mut s, LOCAL_DNS_SERVER_PORT as u64);
    s.append("\";uci commit dhcp;/etc/init.d/dnsmasq restart");
    s
}

pub const STATE_STOPPED: u8 = 0;
pub const STATE_STARTING: u8 = 1;
pub const STATE_RUNNING: u8 = 2;
pub const STATE_STOPPING: u8 = 3;

/// An access that the proxy saw: from `src` to `dst`; `src_text` is `src` written out.
pub struct AccessRecord {
    pub src: IpAddr,
    pub dst: IpAddr,
    pub src_text: String,
}

/// The work that the service posts to itself.
pub enum Instruction {
    Auth,
    StartSubServices,
    ServerCfgMonitor,
    Restart,
    AccessLog(Vec<AccessRecord>),
    DNSAdd(DNSAddRecord),
}

/// The kinds of the parts that run beside the service, each on a thread of its own.
pub enum SubServiceType {
    Forwarder,
    RegMgr,
    TunMgr,
    XTunnel,
    UdpX,
}

/// An HTTP exchange for the caller to make: `body` goes to `url` (a `GET` where there is
/// none), names resolved with `dns_server`, given up after `timeout_secs` seconds.
pub struct HttpPlan {
    pub url: String,
    pub body: Option<String>,
    pub dns_server: String,
    pub timeout_secs: u64,
}

/// What authenticating begins with: wait and post `Auth` again, or send the request.
pub enum AuthStep {
    RetryAfter(u64),
    Send(HttpPlan),
}

/// What follows an authentication reply: a release to fetch, whether to start the
/// parts, and after how many seconds to authenticate again.
pub struct AuthDecision {
    pub upgrade_url: Option<String>,
    pub start_subservices: bool,
    pub retry_after: Option<u64>,
}

/// What follows a configuration check: new domains for the forwarder, whether the tunnel
/// managers get the new configuration, a release to fetch, and whether to restart.
pub struct MonitorDecision {
    pub update_domains: Option<Vec<String>>,
    pub cfg_updated: bool,
    pub upgrade_url: Option<String>,
    pub restart: bool,
}

/// An access report to send: the report goes to `url`, names resolved with `dns_server`.
pub struct ReportPlan {
    pub url: String,
    pub dns_server: String,
    pub report: AccReport,
}

/// What fetching a release begins with.
pub enum DownloadStep {
    /// A fetch is already under way.
    Busy,
    /// The address does not parse as a URL.
    BadUrl,
    /// The service has no configuration to resolve names with.
    NoConfig,
    Fetch(HttpPlan),
}

/// Where a release goes: the directory, the binary in it, and the script that restarts.
pub struct UpgradePaths {
    pub dir: String,
    pub binary: String,
    pub script: String,
}

/// The first position at or after `i` of a `:` in `h`, or its length.
pub open spec fn first_colon(h: Seq<char>, i: int) -> int
    decreases h.len() - i,
{
    if i >= h.len() {
        h.len() as int
    } else if h[i] == ':' {
        i
    } else {
        first_colon(h, i + 1)
    }
}

proof fn lemma_first_colon(h: Seq<char>, i: int)
    requires
        0 <= i <= h.len(),
    ensures
        i <= first_colon(h, i) <= h.len(),
    decreases h.len() - i,
{
    if i < h.len() && h[i] != ':' {
        lemma_first_colon(h, i + 1);
    }
}

/// The DNS server that the service starts with: `h` up to its first `:` (a port is no
/// part of it), or the default server where `h` is empty.
pub open spec fn dns_server_of(h: Seq<char>) -> Seq<char> {
    if h.len() == 0 {
        DEFAULT_DNS_SERVER@
    } else {
        h.subrange(0, first_colon(h, 0))
    }
}

/// `t` with the server's address of `tok`.
pub open spec fn with_token(url: Seq<char>, tok: Seq<char>) -> Seq<char> {
    url + "?tok="@ + tok
}

/// The text of a directory path up to its last `/`, and the last component.
pub open spec fn last_slash(p: Seq<char>, i: int) -> int
    decreases i,
{
    if i <= 0 {
        -1
    } else if p[i - 1] == '/' {
        i - 1
    } else {
        last_slash(p, i - 1)
    }
}

proof fn lemma_last_slash(p: Seq<char>, i: int)
    requires
        0 <= i <= p.len(),
    ensures
        -1 <= last_slash(p, i) < i,
        last_slash(p, i) >= 0 ==> p[last_slash(p, i)] == '/',
        forall|k: int| last_slash(p, i) < k < i ==> p[k] != '/',
    decreases i,
{
    if i > 0 && p[i - 1] != '/' {
        lemma_last_slash(p, i - 1);
    }
}

/// `dir` joined with the relative path `rel`.
pub open spec fn join(dir: Seq<char>, rel: Seq<char>) -> Seq<char> {
    if dir.len() == 0 {
        rel
    } else if dir.last() == '/' {
        dir + rel
    } else {
        dir + "/"@ + rel
    }
}

/// Where a release goes when the running binary is in the directory `p`: a directory
/// named `a` swaps with a sibling `b` and the other way round; any other directory has no
/// place for it.
pub open spec fn upgrade_spec(p: Seq<char>) -> Option<(Seq<char>, Seq<char>, Seq<char>)> {
    let i = last_slash(p, p.len() as int);
    let last = p.subrange(i + 1, p.len() as int);
    let parent = if i < 0 {
        Seq::<char>::empty()
    } else if i == 0 {
        "/"@
    } else {
        p.subrange(0, i)
    };
    if last == "b"@ || last == "a"@ {
        let other = if last == "b"@ { "a"@ } else { "b"@ };
        Some((join(parent, other), join(parent, other + "/lproxy-cv"@), join(parent, LPROXY_SCRIPT@)))
    } else {
        None
    }
}

fn join_exec(dir: &str, rel: &str) -> (r: String)
    ensures
        r@ == join(dir@, rel@),
{
    let n = dir.unicode_len();
    let mut r = String::from_str(dir);
    if n == 0 {
        return String::from_str(rel);
    }
    if dir.get_char(n - 1) != '/' {
        r.append("/");
    }
    r.append(rel);
    r
}

/// Where a release goes when the running binary is in the directory `exe_dir`.
pub fn upgrade_target(exe_dir: &str) -> (r: Option<UpgradePaths>)
    ensures
        match r {
            Some(u) => upgrade_spec(exe_dir@) == Some((u.dir@, u.binary@, u.script@)),
            None => upgrade_spec(exe_dir@) is None,
        },
{
    let n = exe_dir.unicode_len();
    let mut i: usize = n;
    let mut found = false;
    proof {
        lemma_last_slash(exe_dir@, n as int);
    }
    while i > 0
        invariant
            i <= n == exe_dir@.len(),
            last_slash(exe_dir@, i as int) == last_slash(exe_dir@, n as int),
            found ==> i > 0 && exe_dir@[i - 1] == '/',
        ensures
            i <= n,
            last_slash(exe_dir@, i as int) == last_slash(exe_dir@, n as int),
            found ==> i > 0 && exe_dir@[i - 1] == '/',
            found || i == 0,
        decreases i,
    {
        if exe_dir.get_char(i - 1) == '/' {
            found = true;
            break;
        }
        i = i - 1;
    }
    let ghost ls = last_slash(exe_dir@, n as int);
    let start = if found { i } else { 0 };
    assert(start == ls + 1);
    let last = exe_dir.substring_char(start, n);
    let parent: &str = if !found {
        ""
    } else if i == 1 {
        "/"
    } else {
        exe_dir.substring_char(0, i - 1)
    };
    proof {
        reveal_strlit("a");
        reveal_strlit("b");
        reveal_strlit("");
        reveal_strlit("/");
    }
    let is_b = last.unicode_len() == 1 && last.get_char(0) == 'b';
    let is_a = last.unicode_len() == 1 && last.get_char(0) == 'a';
    proof {
        assert(is_b <==> last@ =~= "b"@);
        assert(is_a <==> last@ =~= "a"@);
    }
    if !is_a && !is_b {
        return None;
    }
    let other = if is_b { "a" } else { "b" };
    let mut bin_rel = String::from_str(other);
    bin_rel.append("/lproxy-cv");
    Some(UpgradePaths {
        dir: join_exec(parent, other),
        binary: join_exec(parent, bin_rel.as_str()),
        script: join_exec(parent, LPROXY_SCRIPT),
    })
}

/// The number of tunnels that each of `cpus` tunnel managers runs: an even share of
/// `tunnel_number`, at least one.
pub fn tunnels_per_mgr(tunnel_number: usize, cpus: usize) -> (r: usize)
    requires
        cpus > 0,
    ensures
        r == (if tunnel_number / cpus < 1 { 1 } else { tunnel_number / cpus }),
{
    let t = tunnel_number / cpus;
    if t < 1 {
        1
    } else {
        t
    }
}

/// The managers that started among the outcomes `s` (`None` for one that failed), in order.
pub open spec fn started<C>(s: Seq<Option<C>>) -> Seq<C>
    decreases s.len(),
{
    if s.len() == 0 {
        Seq::empty()
    } else {
        (match s[0] {
            Some(c) => seq![c],
            None => Seq::empty(),
        }) + started(s.drop_first())
    }
}

/// Every manager of the outcomes `s` started.
pub open spec fn all_started<C>(s: Seq<Option<C>>) -> bool {
    forall|i: int| 0 <= i < s.len() ==> #[trigger] s[i] is Some
}

/// The outcome of starting the tunnel managers, one outcome each (`None` for one that
/// failed): the controls of those that started, in order; `Ok` where every one started.
pub fn tunmgr_outcome<C>(outcomes: Vec<Option<C>>) -> (r: Result<Vec<C>, Vec<C>>)
    ensures
        r is Ok <==> all_started(outcomes@),
        match r {
            Ok(v) => v@ == started(outcomes@),
            Err(v) => v@ == started(outcomes@),
        },
{
    let ghost orig = outcomes@;
    let mut cur = outcomes;
    let mut kept: Vec<C> = Vec::new();
    let mut failed = false;
    while cur.len() > 0
        invariant
            kept@ + started(cur@) == started(orig),
            all_started(orig) == (!failed && all_started(cur@)),
        decreases cur@.len(),
    {
        let ghost c0 = cur@;
        let o = cur.remove(0);
        assert(c0.drop_first() =~= cur@);
        assert(all_started(c0) == (o is Some && all_started(cur@))) by {
            if o is Some && all_started(cur@) {
                assert forall|i: int| 0 <= i < c0.len() implies #[trigger] c0[i] is Some by {
                    if i > 0 {
                        assert(c0[i] == cur@[i - 1]);
                    }
                }
            }
            if all_started(c0) {
                assert(c0[0] is Some);
                assert forall|i: int| 0 <= i < cur@.len() implies #[trigger] cur@[i] is Some by {
                    assert(c0[i + 1] == cur@[i]);
                }
            }
        }
        match o {
            Some(c) => {
                let ghost k0 = kept@;
                kept.push(c);
                assert(kept@ + started(cur@) =~= k0 + (seq![c] + started(cur@)));
            },
            None => {
                failed = true;
                assert(Seq::<C>::empty() + started(cur@) =~= started(cur@));
            },
        }
    }
    assert(kept@ + started(cur@) =~= kept@);
    if failed {
        Err(kept)
    } else {
        Ok(kept)
    }
}

/// The reply that an authentication or configuration response holds: the JSON of its
/// body where the status is 200.
pub fn parse_auth_reply(response: &HTTPResponse) -> (r: Option<AuthResp>)
    ensures
        response.status != 200 ==> r is None,
        response.body is None ==> r is None,
        response.status == 200 ==> (response.body matches Some(b) ==> match r {
            Some(a) => json_of(b@) is Some && auth_reply_of(json_of(b@)->0, a),
            None => json_of(b@) is None,
        }),
{
    if response.status != 200 {
        return None;
    }
    match &response.body {
        Some(b) => AuthResp::from_json_str(b.as_str()),
        None => None,
    }
}

/// The JSON reply `v` reports no error: its `error` is 0 or not an integer.
pub open spec fn reply_ok(v: Json) -> bool {
    match i64_in(member(v, "error"@)) {
        Some(e) => e == 0,
        None => true,
    }
}

/// The release that the JSON reply `v` asks to fetch: its `upgrade_url` where
/// `need_upgrade` is true and that address is not empty.
pub open spec fn reply_upgrade(v: Json) -> Option<Seq<char>> {
    if bool_in(member(v, "need_upgrade"@)) == Some(true) {
        match text_in(member(v, "upgrade_url"@)) {
            Some(u) => if u.len() > 0 {
                Some(u)
            } else {
                None
            },
            None => None,
        }
    } else {
        None
    }
}

pub struct Service {
    pub state: u8,
    pub tuncfg: Option<TunCfg>,
    pub domains: Option<Vec<String>>,
    pub is_upgrading: bool,
    pub uuid: String,
    pub default_dns_server: String,
    pub user_specify_dns_server: bool,
    pub monitor_running: bool,
    pub acc_log: AccLog,
}

/// The configuration `c` as the service keeps it: where the user named a DNS server,
/// that one.
pub open spec fn cfg_kept(c: TunCfg, user_dns: bool, dns: Seq<char>, k: TunCfg) -> bool {
    &&& k.tunnel_number == c.tunnel_number
    &&& k.tunnel_url == c.tunnel_url
    &&& k.tunnel_req_cap == c.tunnel_req_cap
    &&& k.relay_domain == c.relay_domain
    &&& k.relay_port == c.relay_port
    &&& k.dns_tunnel_number == c.dns_tunnel_number
    &&& k.domains_ver == c.domains_ver
    &&& k.domain_array is None
    &&& k.local_dns_server@ == (if user_dns { dns } else { c.local_dns_server@ })
    &&& k.request_quota == c.request_quota
    &&& k.xport_url == c.xport_url
    &&& k.token == c.token
    &&& k.cfg_monitor_url == c.cfg_monitor_url
    &&& k.cfg_access_report_url == c.cfg_access_report_url
    &&& k.work_as_global == c.work_as_global
}

impl Service {
    /// A stopped service for the device `uuid`; `hardcore_dns`, where not empty, is the
    /// DNS server that the user names, without a port.
    pub fn new(uuid: String, hardcore_dns: String) -> (r: Service)
        ensures
            r.state == STATE_STOPPED,
            r.tuncfg is None,
            r.domains is None,
            !r.is_upgrading,
            !r.monitor_running,
            r.uuid == uuid,
            r.user_specify_dns_server == (hardcore_dns@.len() > 0),
            r.default_dns_server@ == dns_server_of(hardcore_dns@),
            r.acc_log.wf(),
            r.acc_log.visits().dom() == Set::<Seq<char>>::empty(),
            r.acc_log.names().dom() == Set::<(u8, u128)>::empty(),
    {
        let n = hardcore_dns.as_str().unicode_len();
        let user_specify_dns_server = n > 0;
        let default_dns_server = if n > 0 {
            let h = hardcore_dns.as_str();
            let mut i: usize = 0;
            while i < n
                invariant
                    n == h@.len(),
                    i <= n,
                    first_colon(h@, 0) == first_colon(h@, i as int),
                ensures
                    i <= n,
                    first_colon(h@, 0) == i,
                decreases n - i,
            {
                if h.get_char(i) == ':' {
                    break;
                }
                i = i + 1;
            }
            proof {
                lemma_first_colon(h@, i as int);
            }
            String::from_str(h.substring_char(0, i))
        } else {
            String::from_str(DEFAULT_DNS_SERVER)
        };
        Service {
            state: STATE_STOPPED,
            tuncfg: None,
            domains: None,
            is_upgrading: false,
            uuid,
            default_dns_server,
            user_specify_dns_server,
            monitor_running: false,
            acc_log: AccLog::new(),
        }
    }

    /// Starts a stopped service: points dnsmasq at the default server (the command
    /// returned); the caller then posts `Auth`.
    pub fn start(&mut self) -> (r: String)
        requires
            old(self).state == STATE_STOPPED,
        ensures
            final(self).state == STATE_STARTING,
            r@ == uci_default_text(),
            final(self).tuncfg == old(self).tuncfg,
            final(self).domains == old(self).domains,
            final(self).is_upgrading == old(self).is_upgrading,
            final(self).monitor_running == old(self).monitor_running,
    {
        self.state = STATE_STARTING;
        set_uci_dnsmasq_to_default()
    }

    /// Stops the service: the timer stops, and the commands returned, run after the parts
    /// are stopped, take the system set-up down.
    pub fn stop(&mut self) -> (r: Vec<String>)
        ensures
            final(self).state == STATE_STOPPED,
            !final(self).monitor_running,
            final(self).tuncfg == old(self).tuncfg,
            final(self).domains == old(self).domains,
            final(self).is_upgrading == old(self).is_upgrading,
            r@.len() == 5,
            r@[0]@ == IPTABLES_UNSET@,
            r@[1]@ == IPTABLES_GLOBAL_UNSET@,
            r@[2]@ == IP_RULES_UNSET@,
            r@[3]@ == ipset_unset_text(),
            r@[4]@ == uci_default_text(),
    {
        self.state = STATE_STOPPING;
        self.monitor_running = false;
        let r = self.restore_sys();
        self.state = STATE_STOPPED;
        r
    }

    /// Stops and starts the service again: the commands of `stop`, then that of `start`.
    pub fn do_restart(&mut self) -> (r: Vec<String>)
        ensures
            final(self).state == STATE_STARTING,
            !final(self).monitor_running,
            r@.len() == 6,
            r@[0]@ == IPTABLES_UNSET@,
            r@[1]@ == IPTABLES_GLOBAL_UNSET@,
            r@[2]@ == IP_RULES_UNSET@,
            r@[3]@ == ipset_unset_text(),
            r@[4]@ == uci_default_text(),
            r@[5]@ == uci_default_text(),
    {
        let mut r = self.stop();
        let c = self.start();
        r.push(c);
        r
    }

    /// The commands that set the system up for the configuration: all TCP or only that to
    /// the listed addresses goes to the proxy, then the routes of the marked packets.
    pub fn config_sys(&self) -> (r: Vec<String>)
        requires
            self.tuncfg is Some,
        ensures
            r@.len() == 4,
            r@[0]@ == (if self.tuncfg->0.work_as_global { IPTABLES_GLOBAL_UNSET@ } else { IPTABLES_UNSET@ }),
            r@[1]@ == (if self.tuncfg->0.work_as_global { IPTABLES_GLOBAL_SET@ } else { IPTABLES_SET@ }),
            r@[2]@ == IP_RULES_UNSET@,
            r@[3]@ == IP_RULES_SET@,
    {
        let global = match &self.tuncfg {
            Some(c) => c.work_as_global,
            None => false,
        };
        let mut r = if global {
            set_iptables_rules_for_global()
        } else {
            set_iptables_rules()
        };
        let mut ip = set_ip_rules();
        r.append(&mut ip);
        r
    }

    /// The commands that take the system set-up down.
    pub fn restore_sys(&self) -> (r: Vec<String>)
        ensures
            r@.len() == 5,
            r@[0]@ == IPTABLES_UNSET@,
            r@[1]@ == IPTABLES_GLOBAL_UNSET@,
            r@[2]@ == IP_RULES_UNSET@,
            r@[3]@ == ipset_unset_text(),
            r@[4]@ == uci_default_text(),
    {
        let mut r = unset_iptables_rules();
        let mut g = unset_iptables_rules_for_global();
        r.append(&mut g);
        let mut ip = unset_ip_rules();
        r.append(&mut ip);
        r.push(unset_ipset());
        r.push(set_uci_dnsmasq_to_default());
        r
    }

    /// The configuration `cfg` with the user's DNS server, where the user named one.
    fn replace_user_default_dns_server(&self, cfg: &mut TunCfg)
        ensures
            final(cfg).local_dns_server@ == (if self.user_specify_dns_server {
                self.default_dns_server@
            } else {
                old(cfg).local_dns_server@
            }),
            final(cfg).tunnel_number == old(cfg).tunnel_number,
            final(cfg).tunnel_url == old(cfg).tunnel_url,
            final(cfg).tunnel_req_cap == old(cfg).tunnel_req_cap,
            final(cfg).relay_domain == old(cfg).relay_domain,
            final(cfg).relay_port == old(cfg).relay_port,
            final(cfg).dns_tunnel_number == old(cfg).dns_tunnel_number,
            final(cfg).domains_ver == old(cfg).domains_ver,
            final(cfg).domain_array == old(cfg).domain_array,
            final(cfg).request_quota == old(cfg).request_quota,
            final(cfg).xport_url == old(cfg).xport_url,
            final(cfg).token == old(cfg).token,
            final(cfg).cfg_monitor_url == old(cfg).cfg_monitor_url,
            final(cfg).cfg_access_report_url == old(cfg).cfg_access_report_url,
            final(cfg).work_as_global == old(cfg).work_as_global,
    {
        if self.user_specify_dns_server {
            cfg.local_dns_server = self.default_dns_server.clone();
        }
    }

    /// The server to resolve the authentication server's name with.
    fn auth_dns(&self) -> (r: String)
        ensures
            r@ == (if self.default_dns_server@.len() > 0 { self.default_dns_server@ } else { DEFAULT_DNS_SERVER@ }),
    {
        if self.default_dns_server.as_str().unicode_len() > 0 {
            self.default_dns_server.clone()
        } else {
            String::from_str(DEFAULT_DNS_SERVER)
        }
    }

    /// Authenticating begins: while a release is being fetched, again in 30 seconds;
    /// else the request of this device (`version`, `arch`, `macs`) to the authentication
    /// server.
    pub fn do_auth(&self, version: &str, arch: &str, macs: Vec<String>) -> (r: AuthStep)
        ensures
            self.is_upgrading ==> r == AuthStep::RetryAfter(30),
            !self.is_upgrading ==> ({
                &&& r matches AuthStep::Send(p)
                &&& p.url@ == "http://103.39.232.231:8002/auth"@
                &&& p.timeout_secs == 10
                &&& p.dns_server@ == (if self.default_dns_server@.len() > 0 { self.default_dns_server@ } else { DEFAULT_DNS_SERVER@ })
                &&& p.body matches Some(b)
                &&& b@ == auth_req_json(
                    self.uuid@,
                    version@,
                    arch@,
                    quoted_list(macs@.map_values(|m: String| m@), macs@.len() as int),
                )
            }),
    {
        if self.is_upgrading {
            return AuthStep::RetryAfter(30);
        }
        let ar = AuthReq {
            uuid: self.uuid.clone(),
            current_version: String::from_str(version),
            arch: String::from_str(arch),
            macs,
        };
        let arstr = ar.to_json_str();
        AuthStep::Send(HttpPlan {
            url: server_url(),
            body: Some(arstr),
            dns_server: self.auth_dns(),
            timeout_secs: 10,
        })
    }
}


impl Service {
    /// Takes in the authentication reply `rsp` (`None` where there was none to read).
    /// A reply without error asks for an upgrade, which is fetched while authentication
    /// goes on, or hands a configuration over, which the service keeps (the user's DNS
    /// server put in) before it starts the parts; anything else authenticates again in 30
    /// seconds.
    pub fn on_auth_reply(&mut self, rsp: Option<AuthResp>) -> (r: AuthDecision)
        ensures
            final(self).state == old(self).state,
            final(self).is_upgrading == old(self).is_upgrading,
            final(self).monitor_running == old(self).monitor_running,
            final(self).default_dns_server == old(self).default_dns_server,
            final(self).user_specify_dns_server == old(self).user_specify_dns_server,
            match rsp {
                Some(a) if a.error == 0 && a.need_upgrade && a.upgrade_url@.len() > 0 => {
                    &&& r.upgrade_url matches Some(u) && u@ == a.upgrade_url@
                    &&& !r.start_subservices
                    &&& r.retry_after == Some(30u64)
                    &&& final(self).tuncfg == old(self).tuncfg
                    &&& final(self).domains == old(self).domains
                },
                Some(a) if a.error == 0 && a.tuncfg is Some => {
                    &&& r.upgrade_url is None
                    &&& r.start_subservices
                    &&& r.retry_after is None
                    &&& final(self).domains == a.tuncfg->0.domain_array
                    &&& final(self).tuncfg matches Some(k) && cfg_kept(
                        a.tuncfg->0,
                        old(self).user_specify_dns_server,
                        old(self).default_dns_server@,
                        k,
                    )
                },
                _ => {
                    &&& r.upgrade_url is None
                    &&& !r.start_subservices
                    &&& r.retry_after == Some(30u64)
                    &&& final(self).tuncfg == old(self).tuncfg
                    &&& final(self).domains == old(self).domains
                },
            },
    {
        let retry = AuthDecision { upgrade_url: None, start_subservices: false, retry_after: Some(30) };
        match rsp {
            Some(a) => {
                if a.error != 0 {
                    return retry;
                }
                if a.need_upgrade && a.upgrade_url.as_str().unicode_len() > 0 {
                    return AuthDecision {
                        upgrade_url: Some(a.upgrade_url),
                        start_subservices: false,
                        retry_after: Some(30),
                    };
                }
                match a.tuncfg {
                    Some(mut cfg) => {
                        let mut d: Option<Vec<String>> = None;
                        std::mem::swap(&mut d, &mut cfg.domain_array);
                        self.domains = d;
                        self.replace_user_default_dns_server(&mut cfg);
                        self.tuncfg = Some(cfg);
                        AuthDecision { upgrade_url: None, start_subservices: true, retry_after: None }
                    },
                    None => retry,
                }
            },
            None => retry,
        }
    }

    /// Takes in the response of the authentication request, `None` where the request
    /// failed: then authentication goes on in 15 seconds; else as `on_auth_reply` with the
    /// reply that the response holds.
    pub fn on_auth_response(&mut self, response: Option<&HTTPResponse>) -> (r: AuthDecision)
        ensures
            final(self).state == old(self).state,
            final(self).is_upgrading == old(self).is_upgrading,
            response is None ==> r.upgrade_url is None && !r.start_subservices && r.retry_after
                == Some(15u64) && final(self).tuncfg == old(self).tuncfg,
            response matches Some(h) && (h.status != 200 || h.body is None) ==> r.upgrade_url is None
                && !r.start_subservices && r.retry_after == Some(30u64)
                && final(self).tuncfg == old(self).tuncfg,
            r.start_subservices ==> r.retry_after is None && final(self).tuncfg is Some,
            !r.start_subservices ==> r.retry_after is Some,
            response matches Some(h) ==> (h.status == 200 ==> (h.body matches Some(b) ==> match json_of(b@) {
                Some(v) => if reply_ok(v) && reply_upgrade(v) is Some {
                    &&& r.upgrade_url matches Some(u) && Some(u@) == reply_upgrade(v)
                    &&& !r.start_subservices
                    &&& r.retry_after == Some(30u64)
                    &&& final(self).tuncfg == old(self).tuncfg
                    &&& final(self).domains == old(self).domains
                } else if reply_ok(v) && member(v, "tuncfg"@) is Object {
                    &&& r.upgrade_url is None
                    &&& r.start_subservices
                    &&& r.retry_after is None
                    &&& exists|a: AuthResp| #[trigger] auth_reply_of(v, a)
                        && final(self).domains == a.tuncfg->0.domain_array
                        && (final(self).tuncfg matches Some(k) && cfg_kept(
                        a.tuncfg->0,
                        old(self).user_specify_dns_server,
                        old(self).default_dns_server@,
                        k,
                    ))
                } else {
                    &&& r.upgrade_url is None
                    &&& !r.start_subservices
                    &&& r.retry_after == Some(30u64)
                    &&& final(self).tuncfg == old(self).tuncfg
                    &&& final(self).domains == old(self).domains
                },
                None => {
                    &&& r.upgrade_url is None
                    &&& !r.start_subservices
                    &&& r.retry_after == Some(30u64)
                    &&& final(self).tuncfg == old(self).tuncfg
                    &&& final(self).domains == old(self).domains
                },
            })),
    {
        match response {
            Some(h) => {
                let rsp = parse_auth_reply(h);
                proof {
                    reveal_strlit("");
                }
                self.on_auth_reply(rsp)
            },
            None => AuthDecision { upgrade_url: None, start_subservices: false, retry_after: Some(15) },
        }
    }

    /// The configuration check: the device's versions (`version`, `arch`, the domain list
    /// version of the configuration) sent to the monitor address with the token; none
    /// where the configuration has no token or that address does not parse.
    pub fn do_cfg_monitor(&self, version: &str, arch: &str) -> (r: Option<HttpPlan>)
        requires
            self.tuncfg is Some,
        ensures
            ({
                let c = self.tuncfg->0;
                &&& r is None <==> (c.token@.len() == 0 || url_parts(
                    with_token(c.cfg_monitor_url@, c.token@),
                ) is None)
                &&& r matches Some(p) ==> {
                    &&& p.url@ == with_token(c.cfg_monitor_url@, c.token@)
                    &&& p.timeout_secs == 10
                    &&& p.dns_server@ == c.local_dns_server@
                    &&& p.body matches Some(b)
                    &&& b@ == "{\"current_version\":\""@ + version@ + "\",\"domains_ver\":\""@
                        + c.domains_ver@ + "\",\"arch\":\""@ + arch@ + "\"}"@
                }
            }),
    {
        let c = match &self.tuncfg {
            Some(c) => c,
            None => {
                return None;
            },
        };
        let mut url = c.cfg_monitor_url.clone();
        url.append("?tok=");
        url.append(c.token.as_str());
        if url.as_str().unicode_len() < 1 || c.token.as_str().unicode_len() < 1 {
            return None;
        }
        if parse_url(url.as_str()).is_none() {
            return None;
        }
        let ar = CfgMonitorReq {
            current_version: String::from_str(version),
            domains_ver: c.domains_ver.clone(),
            arch: String::from_str(arch),
        };
        Some(HttpPlan {
            url,
            body: Some(ar.to_json_str()),
            dns_server: c.local_dns_server.clone(),
            timeout_secs: 10,
        })
    }

    /// Takes in the configuration reply `rsp`. A reply without error hands a new
    /// configuration over, which the service keeps (a non-empty domain list goes to the
    /// forwarder, the rest to the tunnel managers), and asks for an upgrade or else,
    /// maybe, a restart.
    pub fn on_cfg_monitor_reply(&mut self, rsp: Option<AuthResp>) -> (r: MonitorDecision)
        ensures
            final(self).state == old(self).state,
            final(self).is_upgrading == old(self).is_upgrading,
            final(self).domains == old(self).domains,
            match rsp {
                Some(a) if a.error == 0 => {
                    &&& (a.tuncfg matches Some(c) ==> {
                        &&& r.cfg_updated
                        &&& final(self).tuncfg matches Some(k) && cfg_kept(
                            c,
                            old(self).user_specify_dns_server,
                            old(self).default_dns_server@,
                            k,
                        )
                        &&& match c.domain_array {
                            Some(d) if d@.len() > 0 => r.update_domains == Some(d),
                            _ => r.update_domains is None,
                        }
                    })
                    &&& (a.tuncfg is None ==> !r.cfg_updated && r.update_domains is None
                        && final(self).tuncfg == old(self).tuncfg)
                    &&& if a.need_upgrade && a.upgrade_url@.len() > 0 {
                        r.upgrade_url matches Some(u) && u@ == a.upgrade_url@ && !r.restart
                    } else {
                        r.upgrade_url is None && r.restart == a.restart
                    }
                },
                _ => {
                    &&& r.update_domains is None
                    &&& !r.cfg_updated
                    &&& r.upgrade_url is None
                    &&& !r.restart
                    &&& final(self).tuncfg == old(self).tuncfg
                },
            },
    {
        let mut r = MonitorDecision { update_domains: None, cfg_updated: false, upgrade_url: None, restart: false };
        let a = match rsp {
            Some(a) => a,
            None => {
                return r;
            },
        };
        if a.error != 0 {
            return r;
        }
        match a.tuncfg {
            Some(mut cfg) => {
                let mut d: Option<Vec<String>> = None;
                std::mem::swap(&mut d, &mut cfg.domain_array);
                match d {
                    Some(domains) => {
                        if domains.len() > 0 {
                            r.update_domains = Some(domains);
                        }
                    },
                    None => {},
                }
                self.replace_user_default_dns_server(&mut cfg);
                self.tuncfg = Some(cfg);
                r.cfg_updated = true;
            },
            None => {},
        }
        if a.need_upgrade && a.upgrade_url.as_str().unicode_len() > 0 {
            r.upgrade_url = Some(a.upgrade_url);
        } else if a.restart {
            r.restart = true;
        }
        r
    }

    /// The access report: where the configuration has a token, the log so far goes to
    /// the report address with the token and the log is cleared; with no token the log is
    /// cleared and nothing is sent; an empty log sends nothing.
    pub fn do_access_report(&mut self) -> (r: Option<ReportPlan>)
        requires
            old(self).tuncfg is Some,
            old(self).acc_log.wf(),
        ensures
            final(self).acc_log.wf(),
            final(self).tuncfg == old(self).tuncfg,
            final(self).state == old(self).state,
            final(self).acc_log.names() == old(self).acc_log.names(),
            ({
                let c = old(self).tuncfg->0;
                let empty = old(self).acc_log.visits().dom() == Set::<Seq<char>>::empty();
                &&& r is None <==> (c.token@.len() == 0 || empty)
                &&& c.token@.len() == 0 || !empty ==> final(self).acc_log.visits().dom() == Set::<Seq<char>>::empty()
                &&& c.token@.len() > 0 && empty ==> final(self).acc_log.visits() == old(self).acc_log.visits()
                &&& r matches Some(p) ==> {
                    &&& p.url@ == with_token(c.cfg_access_report_url@, c.token@)
                    &&& p.dns_server@ == c.local_dns_server@
                    &&& forall|i: int| 0 <= i < p.report.domains@.len() ==> old(self).acc_log.visits().contains_key(
                        #[trigger] p.report.domains@[i].domain@,
                    )
                    &&& forall|d: Seq<char>| #[trigger] old(self).acc_log.visits().contains_key(d) ==> exists|i: int|
                        0 <= i < p.report.domains@.len() && #[trigger] p.report.domains@[i].domain@ == d
                    &&& forall|i: int| 0 <= i < p.report.domains@.len() ==> (#[trigger] p.report.domains@[i]).srcIP@.no_duplicates()
                        && p.report.domains@[i].srcIP@.to_set() == v4_of(old(self).acc_log.visits()[p.report.domains@[i].domain@])
                }
            }),
    {
        let (url, token_empty, dns) = match &self.tuncfg {
            Some(c) => {
                let mut url = c.cfg_access_report_url.clone();
                url.append("?tok=");
                url.append(c.token.as_str());
                let e = url.as_str().unicode_len() < 1 || c.token.as_str().unicode_len() < 1;
                (url, e, c.local_dns_server.clone())
            },
            None => {
                return None;
            },
        };
        if token_empty {
            self.acc_log.clear_log();
            return None;
        }
        if self.acc_log.is_empty() {
            return None;
        }
        let ghost v0 = self.acc_log.visits();
        let report = self.acc_log.dump_to_pb();
        let ghost rep = report;
        proof {
            assert forall|d: Seq<char>| v0.contains_key(d) implies exists|i: int|
                0 <= i < rep.domains@.len() && #[trigger] rep.domains@[i].domain@ == d by {
                assert(self.acc_log.visits().contains_key(d));
            }
        }
        self.acc_log.clear_log();
        let p = ReportPlan { url, dns_server: dns, report };
        proof {
            assert forall|d: Seq<char>| v0.contains_key(d) implies exists|i: int|
                0 <= i < p.report.domains@.len() && #[trigger] p.report.domains@[i].domain@ == d by {
                let i = choose|i: int| 0 <= i < rep.domains@.len() && #[trigger] rep.domains@[i].domain@ == d;
                assert(p.report.domains@[i].domain@ == d);
            }
        }
        Some(p)
    }

    /// Fetching the release at `url` begins, unless one is under way or `url` does not
    /// parse; the service is then upgrading until `on_download_done`.
    pub fn do_download(&mut self, url: &str) -> (r: DownloadStep)
        ensures
            final(self).tuncfg == old(self).tuncfg,
            final(self).state == old(self).state,
            old(self).is_upgrading ==> r is Busy && final(self).is_upgrading,
            !old(self).is_upgrading && url_parts(url@) is None ==> r is BadUrl
                && !final(self).is_upgrading,
            !old(self).is_upgrading && url_parts(url@) is Some ==> final(self).is_upgrading,
            !old(self).is_upgrading && url_parts(url@) is Some && old(self).tuncfg is None
                ==> r is NoConfig,
            !old(self).is_upgrading && url_parts(url@) is Some ==> (old(self).tuncfg matches Some(c) ==> ({
                &&& r matches DownloadStep::Fetch(p)
                &&& p.url@ == url@
                &&& p.body is None
                &&& p.timeout_secs == 60
                &&& p.dns_server@ == c.local_dns_server@
            })),
    {
        if self.is_upgrading {
            return DownloadStep::Busy;
        }
        if parse_url(url).is_none() {
            return DownloadStep::BadUrl;
        }
        self.is_upgrading = true;
        match &self.tuncfg {
            Some(c) => DownloadStep::Fetch(HttpPlan {
                url: String::from_str(url),
                body: None,
                dns_server: c.local_dns_server.clone(),
                timeout_secs: 60,
            }),
            None => DownloadStep::NoConfig,
        }
    }

    /// Ends a fetch of a release: the body to write where the response (`None` where the
    /// request failed) has status 200 and a body.
    pub fn on_download_done(&mut self, response: Option<HTTPResponse>) -> (r: Option<String>)
        ensures
            !final(self).is_upgrading,
            final(self).tuncfg == old(self).tuncfg,
            final(self).state == old(self).state,
            match response {
                Some(h) if h.status == 200 => r == h.body,
                _ => r is None,
            },
    {
        self.is_upgrading = false;
        match response {
            Some(h) => {
                if h.status == 200 {
                    h.body
                } else {
                    None
                }
            },
            None => None,
        }
    }

    /// Starting the parts begins: the domains of the configuration are taken; the first
    /// command creates the ipset sets, the second points dnsmasq at the forwarder.
    pub fn do_start_subservices(&mut self) -> (r: (Vec<String>, String, String))
        ensures
            final(self).domains is None,
            r.0@ == (match old(self).domains {
                Some(d) => d@,
                None => Seq::<String>::empty(),
            }),
            r.1@ == set_ipset_text(),
            r.2@ == uci_me_text(),
            final(self).tuncfg == old(self).tuncfg,
            final(self).state == old(self).state,
    {
        let mut d: Option<Vec<String>> = None;
        std::mem::swap(&mut d, &mut self.domains);
        let domains = match d {
            Some(v) => v,
            None => Vec::new(),
        };
        (domains, set_ipset(), set_uci_dnsmasq_to_me())
    }

    /// The parts started (`ok`) or failed to: once started, the service runs, its timer
    /// runs and the returned commands set the system up; else authentication begins
    /// again in 5 seconds (the returned number).
    pub fn on_subservices_started(&mut self, ok: bool) -> (r: Result<Vec<String>, u64>)
        requires
            old(self).tuncfg is Some,
        ensures
            ok ==> ({
                &&& final(self).state == STATE_RUNNING
                &&& final(self).monitor_running
                &&& r matches Ok(c)
                &&& c@.len() == 4
                &&& c@[0]@ == (if old(self).tuncfg->0.work_as_global { IPTABLES_GLOBAL_UNSET@ } else { IPTABLES_UNSET@ })
                &&& c@[1]@ == (if old(self).tuncfg->0.work_as_global { IPTABLES_GLOBAL_SET@ } else { IPTABLES_SET@ })
                &&& c@[2]@ == IP_RULES_UNSET@
                &&& c@[3]@ == IP_RULES_SET@
            }),
            !ok ==> r == Err::<Vec<String>, u64>(5) && final(self).state == old(self).state
                && final(self).monitor_running == old(self).monitor_running,
            final(self).tuncfg == old(self).tuncfg,
    {
        if ok {
            self.state = STATE_RUNNING;
            let c = self.config_sys();
            self.monitor_running = true;
            Ok(c)
        } else {
            Err(5)
        }
    }

    /// A tick of the monitor timer: a configuration check where the configuration has a
    /// monitor address.
    pub fn on_monitor_tick(&self) -> (r: bool)
        requires
            self.tuncfg is Some,
        ensures
            r <==> self.tuncfg->0.cfg_monitor_url@.len() > 0,
    {
        match &self.tuncfg {
            Some(c) => c.cfg_monitor_url.as_str().unicode_len() > 0,
            None => false,
        }
    }

    /// Logs the accesses `v`, in order.
    pub fn do_access_log(&mut self, v: Vec<AccessRecord>)
        requires
            old(self).acc_log.wf(),
        ensures
            final(self).acc_log.wf(),
            final(self).acc_log.names() == old(self).acc_log.names(),
            final(self).acc_log.visits() == visits_after(old(self).acc_log.visits(), old(self).acc_log.names(), v@),
            final(self).tuncfg == old(self).tuncfg,
            final(self).state == old(self).state,
    {
        let n = v.len();
        let mut i: usize = 0;
        while i < n
            invariant
                n == v@.len(),
                i <= n,
                self.acc_log.wf(),
                self.acc_log.names() == old(self).acc_log.names(),
                self.acc_log.visits() == visits_after(old(self).acc_log.visits(), old(self).acc_log.names(), v@.take(i as int)),
                self.tuncfg == old(self).tuncfg,
                self.state == old(self).state,
            decreases n - i,
        {
            let a = &v[i];
            self.acc_log.log(a.src, a.dst, a.src_text.as_str());
            proof {
                assert(v@.take(i + 1).drop_last() =~= v@.take(i as int));
            }
            i = i + 1;
        }
        assert(v@.take(n as int) =~= v@);
    }

    /// Learns the domain names of the name lookups `da`.
    pub fn do_dns_add(&mut self, da: DNSAddRecord)
        requires
            old(self).acc_log.wf(),
        ensures
            final(self).acc_log.wf(),
            final(self).acc_log.names() == names_after(old(self).acc_log.names(), da.dns_records@),
            final(self).acc_log.visits() == old(self).acc_log.visits(),
            final(self).tuncfg == old(self).tuncfg,
            final(self).state == old(self).state,
    {
        self.acc_log.domain_add(da);
    }
}

/// The visits `v` after logging each of `recs` in order, with the domain names `names`.
pub open spec fn visits_after(
    v: Map<Seq<char>, Set<(u8, u128)>>,
    names: Map<(u8, u128), Seq<char>>,
    recs: Seq<AccessRecord>,
) -> Map<Seq<char>, Set<(u8, u128)>>
    decreases recs.len(),
{
    if recs.len() == 0 {
        v
    } else {
        let a = recs.last();
        visited(
            visits_after(v, names, recs.drop_last()),
            log_name(names, key_of(a.src), a.src_text@),
            key_of(a.dst),
        )
    }
}


/// The upper case hex digit of `d`, below 16.
pub open spec fn hex_digit(d: u8) -> char {
    if d < 10 { (48 + d) as char } else { (55 + d) as char }
}

/// The text of a MAC address: six two-digit upper case hex groups, separated by colons.
pub open spec fn mac_text(b: Seq<u8>) -> Seq<char> {
    seq![hex_digit(b[0] / 16), hex_digit(b[0] % 16), ':', hex_digit(b[1] / 16), hex_digit(b[1] % 16), ':',
        hex_digit(b[2] / 16), hex_digit(b[2] % 16), ':', hex_digit(b[3] / 16), hex_digit(b[3] % 16), ':',
        hex_digit(b[4] / 16), hex_digit(b[4] % 16), ':', hex_digit(b[5] / 16), hex_digit(b[5] % 16)]
}

/// The text of the MAC address `b` as `mac_address::MacAddress` displays it.
#[verifier::external_body]
fn mac_to_string(b: [u8; 6]) -> (r: String)
    ensures
        r@ == mac_text(b@),
{
    mac_address::MacAddress::new(b).to_string()
}

/// The address `b` is set: not all six bytes are zero.
pub open spec fn mac_set(b: Seq<u8>) -> bool {
    exists|i: int| 0 <= i < 6 && b[i] != 0
}

/// The MAC addresses of the device that go into the authentication request: the text of
/// each address in `addrs` that is set, in order.
pub fn fetch_all_macs(addrs: &Vec<[u8; 6]>) -> (r: Vec<String>)
    ensures
        r@.map_values(|s: String| s@) == macs_spec(addrs@),
{
    let mut r: Vec<String> = Vec::new();
    let n = addrs.len();
    let mut i: usize = 0;
    while i < n
        invariant
            n == addrs@.len(),
            i <= n,
            r@.map_values(|s: String| s@) == macs_spec(addrs@.take(i as int)),
        decreases n - i,
    {
        let b = addrs[i];
        proof {
            assert(addrs@.take(i + 1).drop_last() =~= addrs@.take(i as int));
            assert(addrs@.take(i + 1).last() == addrs@[i as int]);
        }
        let set = b[0] != 0 || b[1] != 0 || b[2] != 0 || b[3] != 0 || b[4] != 0 || b[5] != 0;
        proof {
            if !set {
                assert(!mac_set(b@));
            } else {
                if b[0] != 0 { assert(b@[0] != 0); }
                if b[1] != 0 { assert(b@[1] != 0); }
                if b[2] != 0 { assert(b@[2] != 0); }
                if b[3] != 0 { assert(b@[3] != 0); }
                if b[4] != 0 { assert(b@[4] != 0); }
                if b[5] != 0 { assert(b@[5] != 0); }
                assert(mac_set(b@));
            }
        }
        if set {
            let t = mac_to_string(b);
            r.push(t);
        }
        proof {
            assert(r@.map_values(|s: String| s@) =~= macs_spec(addrs@.take(i + 1)));
        }
        i = i + 1;
    }
    assert(addrs@.take(n as int) =~= addrs@);
    r
}

/// The texts of the addresses among `addrs` that are set, in order.
pub open spec fn macs_spec(addrs: Seq<[u8; 6]>) -> Seq<Seq<char>>
    decreases addrs.len(),
{
    if addrs.len() == 0 {
        Seq::empty()
    } else {
        let rest = macs_spec(addrs.drop_last());
        if mac_set(addrs.last()@) {
            rest.push(mac_text(addrs.last()@))
        } else {
            rest
        }
    }
}

} // verus!
