//! The DNS side of the proxy: tunnels that carry DNS queries to the relay, the local
//! resolver that remembers who asked what, the forwarder that routes each query, and the
//! lookup of one name.
use fnv::FnvHashMap;
use vstd::prelude::*;
use vstd::string::StringExecFns;
use crate::acclog::{IpAddr, DNSAddRecord};
use crate::config::{TunCfg, KEEP_ALIVE_INTERVAL, LOCAL_SERVER, LOCAL_DNS_SERVER_PORT};
use crate::domap::{DomainMap, domain_labels, name_hits};
use crate::netlink::{le16, le32};
use crate::htp::{UrlParts, parse_url, url_parts};
use crate::textutil::{append_decimal, decimal};
use crate::tunnels::{RTT_BOUND, rtt_total, lemma_rtt_total_update, lemma_rtt_total_bounds, read_u64_le, u64_from_le};

verus! {

/// A socket address: an IP address and a port.
#[derive(Clone, Copy, PartialEq, Eq, Structural)]
pub struct SockAddr {
    pub ip: IpAddr,
    pub port: u16,
}

/// The frame that carries a DNS message `m` of the client at IPv4 `ip`, `port` through a
/// DNS tunnel: the port and the address, least significant byte first, then `m`.
pub open spec fn dns_frame(port: u16, ip: u32, m: Seq<u8>) -> Seq<u8> {
    le16(port) + le32(ip) + m
}

/// The client and the message of a frame: `None` where it is shorter than six bytes.
pub open spec fn dns_unframe(b: Seq<u8>) -> Option<(u16, u32, Seq<u8>)> {
    if b.len() < 6 {
        None
    } else {
        Some((
            (b[0] as int + b[1] as int * 256) as u16,
            (b[2] as int + b[3] as int * 256 + b[4] as int * 65536 + b[5] as int * 16777216) as u32,
            b.subrange(6, b.len() as int),
        ))
    }
}

/// Frames `m` of the client at IPv4 `ip`, `port`.
pub fn encode_dns_frame(port: u16, ip: u32, m: &[u8]) -> (r: Vec<u8>)
    ensures
        r@ == dns_frame(port, ip, m@),
{
    let mut r: Vec<u8> = Vec::new();
    r.push((port % 256) as u8);
    r.push((port / 256) as u8);
    r.push((ip % 256) as u8);
    r.push(((ip / 256) % 256) as u8);
    r.push(((ip / 65536) % 256) as u8);
    r.push((ip / 16777216) as u8);
    let n = m.len();
    let mut i: usize = 0;
    while i < n
        invariant
            n == m@.len(),
            i <= n,
            r@ == le16(port) + le32(ip) + m@.subrange(0, i as int),
        decreases n - i,
    {
        r.push(m[i]);
        i = i + 1;
        assert(r@ =~= le16(port) + le32(ip) + m@.subrange(0, i as int));
    }
    assert(m@.subrange(0, n as int) =~= m@);
    r
}

/// Reads the client and the message of the frame `b`; `None` where it is too short.
pub fn decode_dns_frame(b: &[u8]) -> (r: Option<(u16, u32, Vec<u8>)>)
    ensures
        match r {
            Some((p, ip, m)) => dns_unframe(b@) == Some((p, ip, m@)),
            None => dns_unframe(b@) is None,
        },
{
    let n = b.len();
    if n < 6 {
        return None;
    }
    let port = (b[0] as u16) + (b[1] as u16) * 256;
    let ip = (b[2] as u32) + (b[3] as u32) * 256 + (b[4] as u32) * 65536 + (b[5] as u32) * 16777216;
    let mut m: Vec<u8> = Vec::new();
    let mut i: usize = 6;
    while i < n
        invariant
            n == b@.len(),
            6 <= i <= n,
            m@ == b@.subrange(6, i as int),
        decreases n - i,
    {
        m.push(b[i]);
        i = i + 1;
        assert(m@ =~= b@.subrange(6, i as int));
    }
    Some((port, ip, m))
}

/// Reading a frame gives back what was framed.
pub proof fn lemma_dns_frame_roundtrip(port: u16, ip: u32, m: Seq<u8>)
    ensures
        dns_unframe(dns_frame(port, ip, m)) == Some((port, ip, m)),
{
    let b = dns_frame(port, ip, m);
    assert(b[0] == (port % 256) as u8);
    assert(b[1] == (port / 256) as u8);
    assert(b[2] == (ip % 256) as u8);
    assert(b[3] == ((ip / 256) % 256) as u8);
    assert(b[4] == ((ip / 65536) % 256) as u8);
    assert(b[5] == (ip / 16777216) as u8);
    assert(b.subrange(6, b.len() as int) =~= m);
}

/// The kind of a websocket message.
#[derive(PartialEq, Eq, Structural)]
pub enum WsKind {
    Ping,
    Pong,
    Data,
}

/// A tunnel that carries DNS queries to the relay, with a window of its last five
/// round trip times.
pub struct DnsTunnel<S, U> {
    pub tx: S,
    pub index: usize,
    pub rtt_queue: Vec<i64>,
    pub rtt_index: usize,
    pub rtt_sum: i64,
    pub ping_count: u8,
    pub udp_tx: Option<U>,
    pub rawfd: i32,
}

impl<S, U> DnsTunnel<S, U> {
    /// The window holds five times within bounds, and their sum.
    pub open spec fn wf(&self) -> bool {
        &&& self.rtt_queue@.len() == 5
        &&& self.rtt_index < 5
        &&& self.rtt_sum == rtt_total(self.rtt_queue@)
        &&& forall|j: int| 0 <= j < 5 ==> 0 <= #[trigger] self.rtt_queue@[j] <= RTT_BOUND
    }

    /// The mean of the round trip times in the window.
    pub open spec fn spec_rtt(&self) -> i64 {
        (self.rtt_sum / 5) as i64
    }

    /// The tunnel `idx` that sends with `tx`, its socket `rawfd`, whose replies go out
    /// with `udp_tx`.
    pub fn new(tx: S, rawfd: i32, udp_tx: U, idx: usize) -> (t: DnsTunnel<S, U>)
        ensures
            t.wf(),
            t.tx == tx,
            t.index == idx,
            t.rawfd == rawfd,
            t.udp_tx == Some(udp_tx),
            t.rtt_queue@ == seq![0i64, 0, 0, 0, 0],
            t.rtt_index == 0,
            t.ping_count == 0,
    {
        let rtt_queue: Vec<i64> = vec![0i64, 0, 0, 0, 0];
        let t = DnsTunnel { tx, index: idx, rtt_queue, rtt_index: 0, rtt_sum: 0, ping_count: 0, udp_tx: Some(udp_tx), rawfd };
        proof {
            assert(t.rtt_queue@ =~= seq![0i64, 0, 0, 0, 0]);
            reveal_with_fuel(rtt_total, 6);
        }
        t
    }

    /// Puts `rtt` into the window in place of the oldest time.
    pub fn append_rtt(&mut self, rtt: i64)
        requires
            old(self).wf(),
            0 <= rtt <= RTT_BOUND,
        ensures
            final(self).wf(),
            final(self).rtt_queue@ == old(self).rtt_queue@.update(old(self).rtt_index as int, rtt),
            final(self).rtt_index == (old(self).rtt_index + 1) % 5,
            final(self).ping_count == old(self).ping_count,
            final(self).index == old(self).index,
            final(self).rawfd == old(self).rawfd,
            final(self).udp_tx == old(self).udp_tx,
    {
        let ghost q = self.rtt_queue@;
        let rtt_remove = self.rtt_queue[self.rtt_index];
        self.rtt_queue.set(self.rtt_index, rtt);
        let len = self.rtt_queue.len();
        self.rtt_index = (self.rtt_index + 1) % len;
        proof {
            lemma_rtt_total_update(q, old(self).rtt_index as int, rtt);
            lemma_rtt_total_bounds(self.rtt_queue@);
            lemma_rtt_total_bounds(q);
        }
        self.rtt_sum = self.rtt_sum + rtt - rtt_remove;
    }

    /// The mean round trip time of the window.
    pub fn get_rtt(&self) -> (r: i64)
        requires
            self.wf(),
        ensures
            r == self.spec_rtt(),
            0 <= r <= RTT_BOUND,
    {
        proof {
            lemma_rtt_total_bounds(self.rtt_queue@);
        }
        self.rtt_sum / (self.rtt_queue.len() as i64)
    }

    /// A ping is due: fewer than eleven have gone unanswered.
    pub fn ping_due(&self) -> (r: bool)
        ensures
            r <==> self.ping_count <= 10,
    {
        self.ping_count <= 10
    }

    /// A ping went out: one more is unanswered, and each unanswered one before it counts
    /// as a keepalive interval of round trip time.
    pub fn on_ping_sent(&mut self)
        requires
            old(self).wf(),
            old(self).ping_count <= 10,
        ensures
            final(self).wf(),
            final(self).ping_count == old(self).ping_count + 1,
            old(self).ping_count == 0 ==> final(self).rtt_queue@ == old(self).rtt_queue@,
            old(self).ping_count > 0 ==> final(self).rtt_queue@ == old(self).rtt_queue@.update(
                old(self).rtt_index as int,
                (old(self).ping_count * KEEP_ALIVE_INTERVAL) as i64,
            ),
            final(self).index == old(self).index,
    {
        let c = self.ping_count;
        if c > 0 {
            let rtt = (c as i64) * (KEEP_ALIVE_INTERVAL as i64);
            self.append_rtt(rtt);
        }
        self.ping_count = c + 1;
    }

    /// Handles a message of the tunnel, received at `now_ms` milliseconds into its life:
    /// a pong of eight bytes gives a round trip time; data is a reply, which goes to the
    /// client that the frame names where replies can go out.
    pub fn on_tunnel_msg(&mut self, kind: WsKind, data: &[u8], now_ms: u64) -> (r: Option<(Vec<u8>, SockAddr)>)
        requires
            old(self).wf(),
            kind == WsKind::Pong ==> now_ms <= RTT_BOUND,
            kind == WsKind::Pong && data@.len() == 8 ==> read_u64_le(data@) <= now_ms,
        ensures
            final(self).wf(),
            final(self).index == old(self).index,
            final(self).udp_tx == old(self).udp_tx,
            kind != WsKind::Data ==> r is None,
            kind == WsKind::Pong && data@.len() == 8 ==> final(self).ping_count == 0
                && final(self).rtt_queue@ == old(self).rtt_queue@.update(
                    old(self).rtt_index as int,
                    (now_ms - read_u64_le(data@)) as i64,
                ),
            kind == WsKind::Data ==> final(self).rtt_queue@ == old(self).rtt_queue@ && match r {
                Some((m, a)) => {
                    &&& old(self).udp_tx is Some
                    &&& dns_unframe(data@) matches Some((p, ip, mm))
                    &&& m@ == mm
                    &&& a == (SockAddr { ip: IpAddr::V4(ip), port: p })
                },
                None => old(self).udp_tx is None || dns_unframe(data@) is None,
            },
    {
        match kind {
            WsKind::Ping => None,
            WsKind::Pong => {
                if data.len() == 8 {
                    self.ping_count = 0;
                    let timestamp = u64_from_le(data);
                    let rtt = (now_ms - timestamp) as i64;
                    self.append_rtt(rtt);
                }
                None
            },
            WsKind::Data => {
                if self.udp_tx.is_none() {
                    return None;
                }
                match decode_dns_frame(data) {
                    Some((port, ip, m)) => Some((m, SockAddr { ip: IpAddr::V4(ip), port })),
                    None => None,
                }
            },
        }
    }

    /// The frame that carries the query `message` of the client `addr` to the relay; an
    /// IPv6 client goes as address 0.
    pub fn on_dns_udp_msg(&self, message: &[u8], addr: SockAddr) -> (r: Vec<u8>)
        ensures
            r@ == dns_frame(addr.port, match addr.ip {
                IpAddr::V4(a) => a,
                IpAddr::V6(_) => 0u32,
            }, message@),
    {
        let ip: u32 = match addr.ip {
            IpAddr::V4(a) => a,
            IpAddr::V6(_) => 0,
        };
        encode_dns_frame(addr.port, ip, message)
    }
}

pub type MemoMap = FnvHashMap<String, SockAddr>;

/// Who asked each pending query, by its key.
pub uninterp spec fn memo_entries(m: MemoMap) -> Map<Seq<char>, SockAddr>;

/// An empty map made with `FnvHashMap::default`.
#[verifier::external_body]
fn memo_new() -> (m: MemoMap)
    ensures
        memo_entries(m).dom() == Set::<Seq<char>>::empty(),
{
    FnvHashMap::default()
}

/// Whether `k` has an entry, by `HashMap::contains_key`.
#[verifier::external_body]
fn memo_contains(m: &MemoMap, k: &str) -> (r: bool)
    ensures
        r == memo_entries(*m).contains_key(k@),
{
    m.contains_key(k)
}

/// Takes the entry of `k` out with `HashMap::remove`.
#[verifier::external_body]
fn memo_remove(m: &mut MemoMap, k: &str) -> (r: Option<SockAddr>)
    ensures
        memo_entries(*final(m)) == memo_entries(*old(m)).remove(k@),
        r is Some <==> memo_entries(*old(m)).contains_key(k@),
        r matches Some(v) ==> v == memo_entries(*old(m))[k@],
{
    m.remove(k)
}

/// Puts `v` under `k` with `HashMap::insert`.
#[verifier::external_body]
fn memo_insert(m: &mut MemoMap, k: String, v: SockAddr)
    ensures
        memo_entries(*final(m)) == memo_entries(*old(m)).insert(k@, v),
{
    m.insert(k, v);
}

/// Removes every entry with `HashMap::clear`.
#[verifier::external_body]
fn memo_clear(m: &mut MemoMap)
    ensures
        memo_entries(*final(m)).dom() == Set::<Seq<char>>::empty(),
{
    m.clear();
}

/// The key of the query for `qname` with the identifier `id`.
pub open spec fn memo_key(qname: Seq<char>, id: u16) -> Seq<char> {
    qname + ":"@ + decimal(id as nat)
}

fn memo_key_exec(qname: &str, id: u16) -> (r: String)
    ensures
        r@ == memo_key(qname@, id),
{
    let mut k = String::from_str(qname);
    k.append(":");
    append_decimal(&mut k, id as u64);
    k
}

/// What a query for the local resolver needs.
pub enum ResolveStep<S> {
    /// The resolver has no socket and cannot make one.
    Fail,
    /// The resolver's socket is to be made again, and the query asked again.
    Rebuild,
    /// Send the query with this sender to this DNS server.
    Send(S, SockAddr),
}

/// The resolver that sends the queries of other names to a DNS server and remembers who
/// asked each, for two keepalive periods.
pub struct LocalResolver<S, G> {
    pub listen_addr: String,
    pub tx: Option<S>,
    pub trigger: Option<G>,
    pub request_memo_history: MemoMap,
    pub request_memo: MemoMap,
    pub dns_server_addr: SockAddr,
    pub has_fw: bool,
}

/// The answer to `take` with the recent and the older queries.
pub open spec fn take_spec(memo: Map<Seq<char>, SockAddr>, history: Map<Seq<char>, SockAddr>, k: Seq<char>) -> Option<SockAddr> {
    if history.contains_key(k) {
        Some(history[k])
    } else if memo.contains_key(k) {
        Some(memo[k])
    } else {
        None
    }
}

impl<S, G> LocalResolver<S, G> {
    /// The queries of this period.
    pub closed spec fn memo(&self) -> Map<Seq<char>, SockAddr> {
        memo_entries(self.request_memo)
    }

    /// The queries of the period before.
    pub closed spec fn history(&self) -> Map<Seq<char>, SockAddr> {
        memo_entries(self.request_memo_history)
    }

    /// A resolver that asks `dns_server_addr`, with no socket yet.
    pub fn new(dns_server_addr: SockAddr) -> (r: LocalResolver<S, G>)
        ensures
            r.dns_server_addr == dns_server_addr,
            r.listen_addr@ == "0.0.0.0:0"@,
            r.tx is None,
            r.trigger is None,
            !r.has_fw,
            r.memo().dom() == Set::<Seq<char>>::empty(),
            r.history().dom() == Set::<Seq<char>>::empty(),
    {
        LocalResolver {
            listen_addr: String::from_str("0.0.0.0:0"),
            tx: None,
            trigger: None,
            request_memo_history: memo_new(),
            request_memo: memo_new(),
            dns_server_addr,
            has_fw: false,
        }
    }

    /// The resolver's socket is up: it sends with `tx`, is stopped with `trigger`, and
    /// belongs to the forwarder.
    pub fn on_started(&mut self, tx: S, trigger: G)
        ensures
            final(self).tx == Some(tx),
            final(self).trigger == Some(trigger),
            final(self).has_fw,
            final(self).memo() == old(self).memo(),
            final(self).history() == old(self).history(),
            final(self).dns_server_addr == old(self).dns_server_addr,
    {
        self.tx = Some(tx);
        self.trigger = Some(trigger);
        self.has_fw = true;
    }

    /// The socket closed: the resolver has no sender.
    pub fn invalid_tx(&mut self)
        ensures
            final(self).tx is None,
            final(self).trigger is None,
            final(self).has_fw == old(self).has_fw,
            final(self).memo() == old(self).memo(),
            final(self).history() == old(self).history(),
            final(self).dns_server_addr == old(self).dns_server_addr,
    {
        self.tx = None;
        self.trigger = None;
    }

    /// A copy of the sender, where there is one.
    pub fn get_tx(&self) -> (r: Option<S>)
        where S: Clone
        ensures
            r is Some <==> self.tx is Some,
            r matches Some(t) ==> cloned::<S>(self.tx->0, t),
    {
        match &self.tx {
            Some(t) => Some(t.clone()),
            None => None,
        }
    }

    /// Stops the resolver: no sender, no forwarder.
    pub fn stop(&mut self)
        ensures
            final(self).tx is None,
            final(self).trigger is None,
            !final(self).has_fw,
            final(self).memo() == old(self).memo(),
            final(self).history() == old(self).history(),
    {
        self.tx = None;
        self.trigger = None;
        self.has_fw = false;
    }

    /// Takes out who asked the query for `qname` with the identifier `identify`: the
    /// older queries first.
    pub fn take(&mut self, qname: &str, identify: u16) -> (r: Option<SockAddr>)
        ensures
            r == take_spec(old(self).memo(), old(self).history(), memo_key(qname@, identify)),
            old(self).history().contains_key(memo_key(qname@, identify)) ==> final(self).history()
                == old(self).history().remove(memo_key(qname@, identify)) && final(self).memo() == old(self).memo(),
            !old(self).history().contains_key(memo_key(qname@, identify)) ==> final(self).memo()
                == old(self).memo().remove(memo_key(qname@, identify)) && final(self).history() == old(self).history(),
            final(self).tx == old(self).tx,
            final(self).has_fw == old(self).has_fw,
            final(self).dns_server_addr == old(self).dns_server_addr,
    {
        let key = memo_key_exec(qname, identify);
        if memo_contains(&self.request_memo_history, key.as_str()) {
            memo_remove(&mut self.request_memo_history, key.as_str())
        } else {
            memo_remove(&mut self.request_memo, key.as_str())
        }
    }

    /// A keepalive period ends: the queries of this period become the older ones, and the
    /// older ones are forgotten.
    pub fn keepalive(&mut self)
        ensures
            final(self).history() == old(self).memo(),
            final(self).memo().dom() == Set::<Seq<char>>::empty(),
            final(self).tx == old(self).tx,
            final(self).has_fw == old(self).has_fw,
            final(self).dns_server_addr == old(self).dns_server_addr,
    {
        memo_clear(&mut self.request_memo_history);
        std::mem::swap(&mut self.request_memo_history, &mut self.request_memo);
    }

    /// A query for `qname` with the identifier `identify` from `src_addr`: remembered
    /// and sent where the resolver has a sender; else its socket is made again where it
    /// belongs to a forwarder.
    pub fn request(&mut self, qname: &str, identify: u16, src_addr: SockAddr) -> (r: ResolveStep<S>)
        where S: Clone
        ensures
            old(self).tx is None && !old(self).has_fw ==> r is Fail && final(self).memo() == old(self).memo(),
            old(self).tx is None && old(self).has_fw ==> r is Rebuild && final(self).memo() == old(self).memo(),
            old(self).tx is Some ==> ({
                &&& final(self).memo() == old(self).memo().insert(memo_key(qname@, identify), src_addr)
                &&& r matches ResolveStep::Send(t, a)
                &&& cloned::<S>(old(self).tx->0, t)
                &&& a == old(self).dns_server_addr
            }),
            final(self).history() == old(self).history(),
            final(self).tx == old(self).tx,
            final(self).has_fw == old(self).has_fw,
            final(self).dns_server_addr == old(self).dns_server_addr,
    {
        match self.get_tx() {
            Some(tx) => {
                let key = memo_key_exec(qname, identify);
                memo_insert(&mut self.request_memo, key, src_addr);
                ResolveStep::Send(tx, self.dns_server_addr)
            },
            None => {
                if !self.has_fw {
                    ResolveStep::Fail
                } else {
                    ResolveStep::Rebuild
                }
            },
        }
    }
}


/// An entry of the domain list: a domain name, or an IPv4 range (address and mask
/// length) as the range parser reads it.
pub enum DomainItem {
    Name(String),
    Range(u32, u8),
}

/// An address or network to put into an ipset set.
#[derive(PartialEq, Eq, Structural)]
pub enum IpsetAdd {
    /// An IPv4 address, into the IPv4 address set.
    Ip4(u32),
    /// An IPv6 address, into the IPv6 address set.
    Ip6(u128),
    /// An IPv4 network, into the network set.
    Net4(u32, u8),
}

/// An answer record of a DNS reply: an IPv4 or IPv6 address of a name, or another kind.
pub enum DnsAnswer {
    A(String, u32),
    AAAA(String, u128),
    Other,
}

/// The IPv4 address `a` is a loopback (127.0.0.0/8) or multicast (224.0.0.0/4) one.
pub open spec fn v4_special(a: u32) -> bool {
    a / 0x1000000 == 127 || (224 <= a / 0x1000000 <= 239)
}

/// The IPv6 address `a` is the loopback one (::1) or a multicast one (ff00::/8).
pub open spec fn v6_special(a: u128) -> bool {
    a == 1 || a / 0x1000000000000000000000000000000 == 255
}

fn is_v4_special(a: u32) -> (r: bool)
    ensures
        r == v4_special(a),
{
    let top = a / 0x1000000;
    top == 127 || (224 <= top && top <= 239)
}

fn is_v6_special(a: u128) -> (r: bool)
    ensures
        r == v6_special(a),
{
    a == 1 || a / 0x1000000000000000000000000000000 == 255
}

/// The names after inserting `d` into a domain map with the names `names`.
pub open spec fn with_name(names: Set<Seq<Seq<char>>>, d: Seq<char>) -> Set<Seq<Seq<char>>> {
    let r = domain_labels(d);
    if r.len() < 2 || r[0].len() == 0 {
        names
    } else {
        names.insert(r)
    }
}

/// The names of the domain map made from `items`.
pub open spec fn items_names(items: Seq<DomainItem>) -> Set<Seq<Seq<char>>>
    decreases items.len(),
{
    if items.len() == 0 {
        Set::empty()
    } else {
        match items.last() {
            DomainItem::Name(d) => with_name(items_names(items.drop_last()), d@),
            DomainItem::Range(_, _) => items_names(items.drop_last()),
        }
    }
}

/// The ipset additions for the ranges among `items`: loopback and multicast ranges are
/// left out; a mask shorter than 32 bits is a network, a full one an address.
pub open spec fn items_adds(items: Seq<DomainItem>) -> Seq<IpsetAdd>
    decreases items.len(),
{
    if items.len() == 0 {
        Seq::empty()
    } else {
        let rest = items_adds(items.drop_last());
        match items.last() {
            DomainItem::Range(a, m) => if v4_special(a) {
                rest
            } else if m < 32 {
                rest.push(IpsetAdd::Net4(a, m))
            } else {
                rest.push(IpsetAdd::Ip4(a))
            },
            DomainItem::Name(_) => rest,
        }
    }
}

/// The ipset additions for the answers `ans`, loopback and multicast addresses left out.
pub open spec fn answer_adds(ans: Seq<DnsAnswer>) -> Seq<IpsetAdd>
    decreases ans.len(),
{
    if ans.len() == 0 {
        Seq::empty()
    } else {
        let rest = answer_adds(ans.drop_last());
        match ans.last() {
            DnsAnswer::A(_, a) => if v4_special(a) { rest } else { rest.push(IpsetAdd::Ip4(a)) },
            DnsAnswer::AAAA(_, a) => if v6_special(a) { rest } else { rest.push(IpsetAdd::Ip6(a)) },
            DnsAnswer::Other => rest,
        }
    }
}

/// The name records of the answers `ans`: each address with its name.
pub open spec fn answer_records(ans: Seq<DnsAnswer>) -> Seq<(Seq<char>, IpAddr)>
    decreases ans.len(),
{
    if ans.len() == 0 {
        Seq::empty()
    } else {
        let rest = answer_records(ans.drop_last());
        match ans.last() {
            DnsAnswer::A(d, a) => rest.push((d@, IpAddr::V4(a))),
            DnsAnswer::AAAA(d, a) => rest.push((d@, IpAddr::V6(a))),
            DnsAnswer::Other => rest,
        }
    }
}

/// Where a query goes.
pub enum Route {
    /// The forwarder is stopped: the query is dropped.
    Dropped,
    /// To the DNS tunnel in this slot.
    Tunnel(usize),
    /// To a tunnel, but there is none.
    NoTunnel,
    /// To the local resolver.
    Local,
}

/// Tunnel `i` is the first of the tunnels with the shortest round trip time.
pub open spec fn best_dns_tunnel<S, U>(ts: Seq<Option<DnsTunnel<S, U>>>, i: int) -> bool {
    &&& 0 <= i < ts.len()
    &&& ts[i] is Some
    &&& forall|j: int| 0 <= j < i && (#[trigger] ts[j]) is Some ==> ts[i]->0.spec_rtt() < ts[j]->0.spec_rtt()
    &&& forall|j: int| i < j < ts.len() && (#[trigger] ts[j]) is Some ==> ts[i]->0.spec_rtt() <= ts[j]->0.spec_rtt()
}

/// The forwarder: it answers the local DNS server, sends the queries of the listed
/// domains through its DNS tunnels and the others to the local resolver.
pub struct Forwarder<S, U, G> {
    pub udp_addr: String,
    pub relay_domain: String,
    pub relay_port: u16,
    pub dns_tun_url: String,
    pub dns_server: String,
    pub tunnels: Vec<Option<DnsTunnel<S, U>>>,
    pub reconnect_queue: Vec<u16>,
    pub capacity: usize,
    pub discarded: bool,
    pub domap: DomainMap,
    pub lresolver: LocalResolver<U, G>,
    pub token: String,
    pub work_as_global: bool,
}

impl<S, U, G> Forwarder<S, U, G> {
    /// The domain map is well formed; every tunnel in place is well formed and sits at
    /// its own slot; each slot has a 16-bit number.
    pub open spec fn wf(&self) -> bool {
        &&& self.domap.wf()
        &&& self.tunnels@.len() <= u16::MAX + 1
        &&& forall|i: int| 0 <= i < self.tunnels@.len() && (#[trigger] self.tunnels@[i]) is Some
            ==> self.tunnels@[i]->0.wf() && self.tunnels@[i]->0.index == i
    }

    /// The domain map and the ipset additions of the domain list `items`.
    pub fn new_domap(items: &Vec<DomainItem>) -> (r: (DomainMap, Vec<IpsetAdd>))
        ensures
            r.0.wf(),
            r.0.names() == items_names(items@),
            r.1@ == items_adds(items@),
    {
        let mut domap = DomainMap::new();
        let mut adds: Vec<IpsetAdd> = Vec::new();
        let n = items.len();
        let mut i: usize = 0;
        while i < n
            invariant
                n == items@.len(),
                i <= n,
                domap.wf(),
                domap.names() == items_names(items@.take(i as int)),
                adds@ == items_adds(items@.take(i as int)),
            decreases n - i,
        {
            proof {
                assert(items@.take(i + 1).drop_last() =~= items@.take(i as int));
                assert(items@.take(i + 1).last() == items@[i as int]);
            }
            match &items[i] {
                DomainItem::Range(a, m) => {
                    if !is_v4_special(*a) {
                        if *m < 32 {
                            adds.push(IpsetAdd::Net4(*a, *m));
                        } else {
                            adds.push(IpsetAdd::Ip4(*a));
                        }
                    }
                },
                DomainItem::Name(d) => {
                    domap.insert(d.as_str());
                },
            }
            i = i + 1;
        }
        assert(items@.take(n as int) =~= items@);
        (domap, adds)
    }

    /// A forwarder for the configuration `cfg` and the domain list `items`, with no
    /// tunnel yet; its resolver asks `dns_server_addr`, the configuration's DNS server.
    /// Returns the ipset additions of the list too.
    pub fn new(cfg: &TunCfg, items: &Vec<DomainItem>, dns_server_addr: SockAddr) -> (r: (Forwarder<S, U, G>, Vec<IpsetAdd>))
        requires
            cfg.dns_tunnel_number <= u16::MAX + 1,
        ensures
            r.0.wf(),
            r.0.udp_addr@ == LOCAL_SERVER@ + ":"@ + decimal(LOCAL_DNS_SERVER_PORT as nat),
            r.0.dns_tun_url@ == cfg.tunnel_url@,
            r.0.relay_domain@ == cfg.relay_domain@,
            r.0.relay_port == cfg.relay_port,
            r.0.dns_server@ == cfg.local_dns_server@,
            r.0.token@ == cfg.token@,
            r.0.work_as_global == cfg.work_as_global,
            r.0.capacity == cfg.dns_tunnel_number,
            r.0.tunnels@.len() == cfg.dns_tunnel_number,
            forall|i: int| 0 <= i < r.0.tunnels@.len() ==> #[trigger] r.0.tunnels@[i] is None,
            r.0.reconnect_queue@.len() == 0,
            !r.0.discarded,
            r.0.domap.names() == items_names(items@),
            r.0.lresolver.dns_server_addr == dns_server_addr,
            r.0.lresolver.tx is None,
            r.1@ == items_adds(items@),
    {
        let capacity = cfg.dns_tunnel_number;
        let mut vec: Vec<Option<DnsTunnel<S, U>>> = Vec::new();
        let mut n: usize = 0;
        while n < capacity
            invariant
                n <= capacity,
                vec@.len() == n,
                forall|i: int| 0 <= i < n ==> #[trigger] vec@[i] is None,
            decreases capacity - n,
        {
            vec.push(None);
            n = n + 1;
        }
        let (domap, adds) = Forwarder::<S, U, G>::new_domap(items);
        let mut udp_addr = String::from_str(LOCAL_SERVER);
        udp_addr.append(":");
        append_decimal(&mut udp_addr, LOCAL_DNS_SERVER_PORT as u64);
        let f = Forwarder {
            udp_addr,
            relay_domain: cfg.relay_domain.clone(),
            relay_port: cfg.relay_port,
            dns_tun_url: cfg.tunnel_url.clone(),
            dns_server: cfg.local_dns_server.clone(),
            tunnels: vec,
            reconnect_queue: Vec::new(),
            capacity,
            discarded: false,
            domap,
            lresolver: LocalResolver::new(dns_server_addr),
            token: cfg.token.clone(),
            work_as_global: cfg.work_as_global,
        };
        (f, adds)
    }

    /// A new domain list: a new domain map; returns the ipset additions of the list.
    pub fn update_domains(&mut self, items: &Vec<DomainItem>) -> (r: Vec<IpsetAdd>)
        requires
            old(self).wf(),
        ensures
            final(self).wf(),
            final(self).domap.names() == items_names(items@),
            r@ == items_adds(items@),
            final(self).tunnels == old(self).tunnels,
            final(self).discarded == old(self).discarded,
    {
        let (domap, adds) = Forwarder::<S, U, G>::new_domap(items);
        self.domap = domap;
        adds
    }

    /// Places a connected tunnel in its slot; an error once the forwarder is stopped.
    pub fn on_tunnel_created(&mut self, tun: DnsTunnel<S, U>) -> (r: Result<(), ()>)
        requires
            old(self).wf(),
            tun.wf(),
            !old(self).discarded ==> tun.index < old(self).tunnels@.len()
                && old(self).tunnels@[tun.index as int] is None,
        ensures
            final(self).wf(),
            r is Err <==> old(self).discarded,
            r is Err ==> final(self).tunnels@ == old(self).tunnels@,
            r is Ok ==> final(self).tunnels@ == old(self).tunnels@.update(tun.index as int, Some(tun)),
            final(self).reconnect_queue@ == old(self).reconnect_queue@,
            final(self).discarded == old(self).discarded,
    {
        if self.discarded {
            return Err(());
        }
        let index = tun.index;
        self.tunnels.set(index, Some(tun));
        Ok(())
    }

    /// Takes the closed tunnel `index` out and queues its slot for reconnection.
    pub fn on_tunnel_closed(&mut self, index: usize)
        requires
            old(self).wf(),
            index < old(self).tunnels@.len(),
        ensures
            final(self).wf(),
            final(self).tunnels@ == old(self).tunnels@.update(index as int, None),
            final(self).reconnect_queue@ == (if old(self).tunnels@[index as int] is Some {
                old(self).reconnect_queue@.push(index as u16)
            } else {
                old(self).reconnect_queue@
            }),
            final(self).discarded == old(self).discarded,
    {
        let t = self.tunnels.remove(index);
        self.tunnels.insert(index, None);
        proof {
            assert(self.tunnels@ =~= old(self).tunnels@.update(index as int, None));
        }
        if t.is_some() {
            self.reconnect_queue.push(index as u16);
        }
    }

    /// Queues slot `index` for reconnection unless the forwarder is stopped.
    pub fn on_tunnel_build_error(&mut self, index: usize)
        ensures
            final(self).tunnels@ == old(self).tunnels@,
            final(self).reconnect_queue@ == (if old(self).discarded {
                old(self).reconnect_queue@
            } else {
                old(self).reconnect_queue@.push(index as u16)
            }),
            final(self).discarded == old(self).discarded,
    {
        if self.discarded {
            return;
        }
        self.reconnect_queue.push(index as u16);
    }

    /// Takes the queued slots out for reconnection, the last queued first, where the
    /// local DNS server can send replies (`has_udp_tx`); nothing otherwise.
    pub fn process_reconnect(&mut self, has_udp_tx: bool) -> (r: Vec<u16>)
        ensures
            !has_udp_tx ==> r@.len() == 0 && final(self).reconnect_queue@ == old(self).reconnect_queue@,
            has_udp_tx ==> r@ == old(self).reconnect_queue@.reverse() && final(self).reconnect_queue@.len() == 0,
            final(self).tunnels@ == old(self).tunnels@,
            final(self).discarded == old(self).discarded,
    {
        let mut r: Vec<u16> = Vec::new();
        if !has_udp_tx {
            return r;
        }
        let ghost q = self.reconnect_queue@;
        while self.reconnect_queue.len() > 0
            invariant
                self.tunnels@ == old(self).tunnels@,
                self.discarded == old(self).discarded,
                q == old(self).reconnect_queue@,
                self.reconnect_queue@.len() <= q.len(),
                self.reconnect_queue@ == q.subrange(0, self.reconnect_queue@.len() as int),
                r@ == q.subrange(self.reconnect_queue@.len() as int, q.len() as int).reverse(),
            decreases self.reconnect_queue@.len(),
        {
            let ghost before = self.reconnect_queue@;
            let index = self.reconnect_queue.pop().unwrap();
            r.push(index);
            proof {
                let k = self.reconnect_queue@.len() as int;
                assert(self.reconnect_queue@ == before.drop_last());
                assert(index == before.last());
                assert(self.reconnect_queue@ =~= q.subrange(0, k));
                assert(q.subrange(k, q.len() as int) =~= seq![index] + q.subrange(k + 1, q.len() as int));
                assert(r@ =~= q.subrange(k, q.len() as int).reverse());
            }
        }
        assert(r@ =~= q.reverse());
        r
    }

    /// The first of the tunnels with the shortest round trip time; `None` where there is
    /// no tunnel.
    pub fn alloc_tunnel_for_req(&self) -> (r: Option<usize>)
        requires
            self.wf(),
        ensures
            match r {
                Some(i) => best_dns_tunnel(self.tunnels@, i as int),
                None => forall|j: int| 0 <= j < self.tunnels@.len() ==> (#[trigger] self.tunnels@[j]) is None,
            },
    {
        let n = self.tunnels.len();
        let mut tselected: Option<usize> = None;
        let mut rtt: i64 = i64::MAX;
        let mut i: usize = 0;
        while i < n
            invariant
                n == self.tunnels@.len(),
                self.wf(),
                i <= n,
                match tselected {
                    Some(k) => k < i && self.tunnels@[k as int] is Some && rtt == self.tunnels@[k as int]->0.spec_rtt()
                        && (forall|j: int| 0 <= j < k && (#[trigger] self.tunnels@[j]) is Some
                            ==> rtt < self.tunnels@[j]->0.spec_rtt())
                        && (forall|j: int| k < j < i && (#[trigger] self.tunnels@[j]) is Some
                            ==> rtt <= self.tunnels@[j]->0.spec_rtt()),
                    None => rtt == i64::MAX && forall|j: int| 0 <= j < i ==> (#[trigger] self.tunnels@[j]) is None,
                },
            decreases n - i,
        {
            match &self.tunnels[i] {
                Some(tun) => {
                    let rtt_tun = tun.get_rtt();
                    if rtt_tun < rtt {
                        proof {
                            assert forall|j: int| 0 <= j < i && (#[trigger] self.tunnels@[j]) is Some
                                implies rtt_tun < self.tunnels@[j]->0.spec_rtt() by {
                                match tselected {
                                    Some(k) => {
                                        if j != k && j > k {
                                            assert(rtt <= self.tunnels@[j]->0.spec_rtt());
                                        }
                                    },
                                    None => {},
                                }
                            }
                        }
                        rtt = rtt_tun;
                        tselected = Some(i);
                    }
                },
                None => {},
            }
            i = i + 1;
        }
        tselected
    }

    /// Where the query for `qname` goes: nowhere once the forwarder is stopped; to the
    /// best tunnel where the forwarder works for all names or the name is listed; to the
    /// local resolver otherwise.
    pub fn on_dns_udp_msg(&self, qname: &str) -> (r: Route)
        requires
            self.wf(),
        ensures
            self.discarded ==> r is Dropped,
            !self.discarded && (self.work_as_global || (domain_labels(qname@).len() >= 2
                && name_hits(self.domap.names(), domain_labels(qname@)))) ==> match r {
                Route::Tunnel(i) => best_dns_tunnel(self.tunnels@, i as int),
                Route::NoTunnel => forall|j: int| 0 <= j < self.tunnels@.len() ==> (#[trigger] self.tunnels@[j]) is None,
                _ => false,
            },
            !self.discarded && !(self.work_as_global || (domain_labels(qname@).len() >= 2
                && name_hits(self.domap.names(), domain_labels(qname@)))) ==> r is Local,
    {
        if self.discarded {
            return Route::Dropped;
        }
        if self.work_as_global || self.domap.has(qname) {
            match self.alloc_tunnel_for_req() {
                Some(i) => Route::Tunnel(i),
                None => Route::NoTunnel,
            }
        } else {
            Route::Local
        }
    }

    /// A reply from the DNS server for `qname` with the identifier `identify`: who asked
    /// it, taken out of the resolver's memory; nothing once the forwarder is stopped.
    pub fn on_resolver_udp_msg(&mut self, qname: &str, identify: u16) -> (r: Option<SockAddr>)
        ensures
            old(self).discarded ==> r is None && final(self).lresolver.memo() == old(self).lresolver.memo()
                && final(self).lresolver.history() == old(self).lresolver.history(),
            !old(self).discarded ==> r == take_spec(
                old(self).lresolver.memo(),
                old(self).lresolver.history(),
                memo_key(qname@, identify),
            ),
            final(self).tunnels == old(self).tunnels,
            final(self).domap == old(self).domap,
            final(self).discarded == old(self).discarded,
    {
        if self.discarded {
            return None;
        }
        self.lresolver.take(qname, identify)
    }

    /// What the answers `ans` of a reply give: the addresses for the ipset sets (none
    /// where the forwarder works for all names) and the records of the names.
    pub fn save_ipset(&self, ans: &Vec<DnsAnswer>) -> (r: (Vec<IpsetAdd>, DNSAddRecord))
        ensures
            self.work_as_global ==> r.0@.len() == 0,
            !self.work_as_global ==> r.0@ == answer_adds(ans@),
            r.1.dns_records@.len() == answer_records(ans@).len(),
            forall|k: int| 0 <= k < r.1.dns_records@.len() ==> (#[trigger] r.1.dns_records@[k]).0@
                == answer_records(ans@)[k].0 && r.1.dns_records@[k].1 == answer_records(ans@)[k].1,
    {
        let mut adds: Vec<IpsetAdd> = Vec::new();
        let mut da = DNSAddRecord::new();
        let n = ans.len();
        let mut i: usize = 0;
        while i < n
            invariant
                n == ans@.len(),
                i <= n,
                self.work_as_global ==> adds@.len() == 0,
                !self.work_as_global ==> adds@ == answer_adds(ans@.take(i as int)),
                da.dns_records@.len() == answer_records(ans@.take(i as int)).len(),
                forall|k: int| 0 <= k < da.dns_records@.len() ==> (#[trigger] da.dns_records@[k]).0@
                    == answer_records(ans@.take(i as int))[k].0 && da.dns_records@[k].1 == answer_records(ans@.take(i as int))[k].1,
            decreases n - i,
        {
            proof {
                assert(ans@.take(i + 1).drop_last() =~= ans@.take(i as int));
                assert(ans@.take(i + 1).last() == ans@[i as int]);
            }
            let ghost d0 = da.dns_records@;
            match &ans[i] {
                DnsAnswer::A(d, a) => {
                    if !self.work_as_global && !is_v4_special(*a) {
                        adds.push(IpsetAdd::Ip4(*a));
                    }
                    da.add(IpAddr::V4(*a), d);
                },
                DnsAnswer::AAAA(d, a) => {
                    if !self.work_as_global && !is_v6_special(*a) {
                        adds.push(IpsetAdd::Ip6(*a));
                    }
                    da.add(IpAddr::V6(*a), d);
                },
                DnsAnswer::Other => {},
            }
            proof {
                assert forall|k: int| 0 <= k < da.dns_records@.len() implies (#[trigger] da.dns_records@[k]).0@
                    == answer_records(ans@.take(i + 1))[k].0 && da.dns_records@[k].1 == answer_records(ans@.take(i + 1))[k].1 by {
                    if k < d0.len() {
                        assert(da.dns_records@[k] == d0[k]);
                    }
                }
            }
            i = i + 1;
        }
        assert(ans@.take(n as int) =~= ans@);
        (adds, da)
    }

    /// The keepalive tick: nothing once the forwarder is stopped (false); else the
    /// resolver's period ends (true), and the caller sends the pings and reconnects.
    pub fn keepalive(&mut self) -> (r: bool)
        ensures
            r == !old(self).discarded,
            r ==> final(self).lresolver.history() == old(self).lresolver.memo()
                && final(self).lresolver.memo().dom() == Set::<Seq<char>>::empty(),
            !r ==> final(self).lresolver.memo() == old(self).lresolver.memo()
                && final(self).lresolver.history() == old(self).lresolver.history(),
            final(self).tunnels == old(self).tunnels,
            final(self).discarded == old(self).discarded,
    {
        if self.discarded {
            return false;
        }
        self.lresolver.keepalive();
        true
    }

    /// Stops the forwarder: its resolver stops, and the sockets of its tunnels, returned
    /// in slot order, are to be shut down; nothing where it was stopped already.
    pub fn stop(&mut self) -> (r: Vec<i32>)
        ensures
            final(self).discarded,
            final(self).tunnels@ == old(self).tunnels@,
            old(self).discarded ==> r@.len() == 0,
            !old(self).discarded ==> r@ == dns_rawfds_of(old(self).tunnels@) && final(self).lresolver.tx is None,
    {
        let mut r: Vec<i32> = Vec::new();
        if self.discarded {
            return r;
        }
        self.discarded = true;
        self.lresolver.stop();
        let n = self.tunnels.len();
        let mut i: usize = 0;
        while i < n
            invariant
                n == self.tunnels@.len(),
                i <= n,
                r@ == dns_rawfds_of(self.tunnels@.subrange(0, i as int)),
            decreases n - i,
        {
            proof {
                assert(self.tunnels@.subrange(0, i + 1).drop_last() =~= self.tunnels@.subrange(0, i as int));
            }
            match &self.tunnels[i] {
                Some(tun) => {
                    r.push(tun.rawfd);
                },
                None => {},
            }
            i = i + 1;
        }
        assert(self.tunnels@.subrange(0, n as int) =~= self.tunnels@);
        r
    }
}

impl<S, U, G> Forwarder<S, U, G> {
    /// The address a DNS tunnel connects to: the tunnel URL asking for DNS, with the token.
    pub fn ws_url(&self) -> (r: String)
        ensures
            r@ == self.dns_tun_url@ + "?dns=1&tok="@ + self.token@,
    {
        let mut s = self.dns_tun_url.clone();
        s.append("?dns=1&tok=");
        s.append(self.token.as_str());
        s
    }

    /// The parts of the address a DNS tunnel connects to; `None` where it does not parse.
    pub fn connect_target(&self) -> (r: Option<UrlParts>)
        ensures
            match r {
                Some(p) => url_parts(self.dns_tun_url@ + "?dns=1&tok="@ + self.token@) == Some(p.spec_parts()),
                None => url_parts(self.dns_tun_url@ + "?dns=1&tok="@ + self.token@) is None,
            },
    {
        let s = self.ws_url();
        parse_url(s.as_str())
    }
}

/// The sockets of the tunnels in place, in slot order.
pub open spec fn dns_rawfds_of<S, U>(ts: Seq<Option<DnsTunnel<S, U>>>) -> Seq<i32>
    decreases ts.len(),
{
    if ts.len() == 0 {
        Seq::empty()
    } else {
        let rest = dns_rawfds_of(ts.drop_last());
        match ts.last() {
            Some(t) => rest.push(t.rawfd),
            None => rest,
        }
    }
}


/// The IPv4 addresses of the A records among `ans`, in order.
pub open spec fn a_records(ans: Seq<DnsAnswer>) -> Seq<u32>
    decreases ans.len(),
{
    if ans.len() == 0 {
        Seq::empty()
    } else {
        let rest = a_records(ans.drop_last());
        match ans.last() {
            DnsAnswer::A(_, a) => rest.push(a),
            _ => rest,
        }
    }
}

/// The addresses that a lookup gives: those of the A records of the reply, in order.
pub fn query_result(ans: &Vec<DnsAnswer>) -> (r: Vec<IpAddr>)
    ensures
        r@.len() == a_records(ans@).len(),
        forall|k: int| 0 <= k < r@.len() ==> #[trigger] r@[k] == IpAddr::V4(a_records(ans@)[k]),
{
    let mut r: Vec<IpAddr> = Vec::new();
    let n = ans.len();
    let mut i: usize = 0;
    while i < n
        invariant
            n == ans@.len(),
            i <= n,
            r@.len() == a_records(ans@.take(i as int)).len(),
            forall|k: int| 0 <= k < r@.len() ==> #[trigger] r@[k] == IpAddr::V4(a_records(ans@.take(i as int))[k]),
        decreases n - i,
    {
        proof {
            assert(ans@.take(i + 1).drop_last() =~= ans@.take(i as int));
            assert(ans@.take(i + 1).last() == ans@[i as int]);
        }
        match &ans[i] {
            DnsAnswer::A(_, a) => {
                r.push(IpAddr::V4(*a));
            },
            _ => {},
        }
        i = i + 1;
    }
    assert(ans@.take(n as int) =~= ans@);
    r
}

/// The states of a lookup of one name.
#[derive(PartialEq, Eq, Structural)]
pub enum MyDnsState {
    Init,
    Send,
    Recv,
    Done,
}

/// A lookup of one name: an IPv4 literal is its own answer, any other name is asked of
/// the default DNS server and its first A record is the answer.
pub struct MyDns {
    pub domain: String,
    pub state: MyDnsState,
    pub result: Option<IpAddr>,
}

impl MyDns {
    pub fn new(domain: String) -> (r: MyDns)
        ensures
            r.domain == domain,
            r.state == MyDnsState::Init,
            r.result is None,
    {
        MyDns { domain, state: MyDnsState::Init, result: None }
    }

    /// The first step: `raw` is the name read as an IPv4 literal, where it is one; then
    /// the lookup is done; else the query is to be sent.
    pub fn on_init(&mut self, raw: Option<u32>)
        requires
            old(self).state == MyDnsState::Init,
        ensures
            final(self).domain == old(self).domain,
            raw matches Some(a) ==> final(self).state == MyDnsState::Done && final(self).result == Some(IpAddr::V4(a)),
            raw is None ==> final(self).state == MyDnsState::Send && final(self).result == old(self).result,
    {
        match raw {
            Some(a) => {
                self.result = Some(IpAddr::V4(a));
                self.state = MyDnsState::Done;
            },
            None => {
                self.state = MyDnsState::Send;
            },
        }
    }

    /// The query went out: the reply is awaited.
    pub fn on_sent(&mut self)
        requires
            old(self).state == MyDnsState::Send,
        ensures
            final(self).state == MyDnsState::Recv,
            final(self).result == old(self).result,
            final(self).domain == old(self).domain,
    {
        self.state = MyDnsState::Recv;
    }

    /// The reply came with the answers `ans`: its first A record is the answer; an error
    /// where it has none.
    pub fn on_reply(&mut self, ans: &Vec<DnsAnswer>) -> (r: Result<(), ()>)
        requires
            old(self).state == MyDnsState::Recv,
        ensures
            final(self).domain == old(self).domain,
            a_records(ans@).len() > 0 ==> r is Ok && final(self).state == MyDnsState::Done
                && final(self).result == Some(IpAddr::V4(a_records(ans@)[0])),
            a_records(ans@).len() == 0 ==> r is Err && *final(self) == *old(self),
    {
        let addrs = query_result(ans);
        if addrs.len() == 0 {
            return Err(());
        }
        self.result = Some(addrs[0]);
        self.state = MyDnsState::Done;
        Ok(())
    }

    /// The answer of a finished lookup, taken out.
    pub fn finish(&mut self) -> (r: Option<IpAddr>)
        requires
            old(self).state == MyDnsState::Done,
        ensures
            r == old(self).result,
            final(self).result is None,
            final(self).state == MyDnsState::Done,
    {
        let mut t: Option<IpAddr> = None;
        std::mem::swap(&mut t, &mut self.result);
        t
    }
}

} // verus!
