//! The access log: which hosts reached which domains, kept for the access report.
use fnv::FnvHashMap;
use fnv::FnvHashSet;
use vstd::prelude::*;
use vstd::string::StringExecFns;
use crate::cv::{AccDomain, AccReport};

verus! {

/// An IP address.
#[derive(Clone, Copy, PartialEq, Eq, Structural)]
pub enum IpAddr {
    V4(u32),
    V6(u128),
}

/// An address as the log keys it: the family (4 or 6) and the address as a number.
pub type IpKey = (u8, u128);

/// The key of `ip`.
pub open spec fn key_of(ip: IpAddr) -> IpKey {
    match ip {
        IpAddr::V4(a) => (4u8, a as u128),
        IpAddr::V6(a) => (6u8, a),
    }
}

/// `k` is the key of some address.
pub open spec fn valid_key(k: IpKey) -> bool {
    (k.0 == 4 && k.1 <= u32::MAX) || k.0 == 6
}

/// Returns the key of `ip`.
pub fn ip_key(ip: IpAddr) -> (k: IpKey)
    ensures
        k == key_of(ip),
        valid_key(k),
{
    match ip {
        IpAddr::V4(a) => (4u8, a as u128),
        IpAddr::V6(a) => (6u8, a),
    }
}

pub type IpSet = FnvHashSet<IpKey>;

pub type DomainByIp = FnvHashMap<IpKey, String>;

pub type AccMap = FnvHashMap<String, AccDomainRecord>;

/// The addresses in a set of addresses.
pub uninterp spec fn ip_items(s: IpSet) -> Set<IpKey>;

/// The domain name known for each address.
pub uninterp spec fn domain_names(m: DomainByIp) -> Map<IpKey, Seq<char>>;

/// The record of each domain.
pub uninterp spec fn acc_records(m: AccMap) -> Map<Seq<char>, AccDomainRecord>;

/// An empty set made with `FnvHashSet::default`.
#[verifier::external_body]
fn ip_set_new() -> (s: IpSet)
    ensures
        ip_items(s) == Set::<IpKey>::empty(),
{
    FnvHashSet::default()
}

/// Adds `k` with `HashSet::insert`.
#[verifier::external_body]
fn ip_set_insert(s: &mut IpSet, k: IpKey)
    ensures
        ip_items(*final(s)) == ip_items(*old(s)).insert(k),
{
    s.insert(k);
}

/// The addresses of `s` in the order in which `HashSet::iter` walks them: each once.
#[verifier::external_body]
fn ip_set_list(s: &IpSet) -> (r: Vec<IpKey>)
    ensures
        r@.no_duplicates(),
        r@.to_set() == ip_items(*s),
{
    s.iter().copied().collect()
}

/// An empty map made with `FnvHashMap::default`.
#[verifier::external_body]
fn names_new() -> (m: DomainByIp)
    ensures
        domain_names(m).dom() == Set::<IpKey>::empty(),
{
    FnvHashMap::default()
}

/// Looks `k` up with `HashMap::get` and copies the name.
#[verifier::external_body]
fn names_get(m: &DomainByIp, k: IpKey) -> (r: Option<String>)
    ensures
        r is Some <==> domain_names(*m).contains_key(k),
        r matches Some(v) ==> v@ == domain_names(*m)[k],
{
    match m.get(&k) {
        Some(v) => Some(v.clone()),
        None => None,
    }
}

/// Puts `v` under `k` with `HashMap::insert`.
#[verifier::external_body]
fn names_insert(m: &mut DomainByIp, k: IpKey, v: String)
    ensures
        domain_names(*final(m)) == domain_names(*old(m)).insert(k, v@),
{
    m.insert(k, v);
}

/// An empty map made with `FnvHashMap::default`.
#[verifier::external_body]
fn records_new() -> (m: AccMap)
    ensures
        acc_records(m).dom() == Set::<Seq<char>>::empty(),
{
    FnvHashMap::default()
}

/// Takes the record of `k` out with `HashMap::remove`.
#[verifier::external_body]
fn records_remove(m: &mut AccMap, k: &str) -> (r: Option<AccDomainRecord>)
    ensures
        acc_records(*final(m)) == acc_records(*old(m)).remove(k@),
        r is Some <==> acc_records(*old(m)).contains_key(k@),
        r matches Some(v) ==> v == acc_records(*old(m))[k@],
{
    m.remove(k)
}

/// Puts `v` under `k` with `HashMap::insert`.
#[verifier::external_body]
fn records_insert(m: &mut AccMap, k: String, v: AccDomainRecord)
    ensures
        acc_records(*final(m)) == acc_records(*old(m)).insert(k@, v),
{
    m.insert(k, v);
}

/// Removes every record with `HashMap::clear`.
#[verifier::external_body]
fn records_clear(m: &mut AccMap)
    ensures
        acc_records(*final(m)).dom() == Set::<Seq<char>>::empty(),
{
    m.clear();
}

/// Whether the map has no record, by `HashMap::is_empty`.
#[verifier::external_body]
fn records_is_empty(m: &AccMap) -> (r: bool)
    ensures
        r <==> acc_records(*m).dom() == Set::<Seq<char>>::empty(),
{
    m.is_empty()
}

/// Looks the record of `k` up with `HashMap::get`.
#[verifier::external_body]
fn records_get<'a>(m: &'a AccMap, k: &str) -> (r: Option<&'a AccDomainRecord>)
    ensures
        r is Some <==> acc_records(*m).contains_key(k@),
        r matches Some(v) ==> *v == acc_records(*m)[k@],
{
    m.get(k)
}

/// The domains of the map in the order in which `HashMap::keys` walks them: each once.
#[verifier::external_body]
fn records_domains(m: &AccMap) -> (r: Vec<String>)
    ensures
        forall|i: int, j: int| 0 <= i < j < r@.len() ==> r@[i]@ != r@[j]@,
        forall|i: int| 0 <= i < r@.len() ==> acc_records(*m).contains_key(#[trigger] r@[i]@),
        forall|d: Seq<char>| acc_records(*m).contains_key(d) ==> exists|i: int|
            0 <= i < r@.len() && #[trigger] r@[i]@ == d,
{
    m.keys().cloned().collect()
}

/// Records of name lookups: each name with one of its addresses.
pub struct DNSAddRecord {
    pub dns_records: Vec<(String, IpAddr)>,
}

impl DNSAddRecord {
    pub fn new() -> (r: DNSAddRecord)
        ensures
            r.dns_records@.len() == 0,
    {
        DNSAddRecord { dns_records: Vec::new() }
    }

    /// Records that `name` has the address `ip`.
    pub fn add(&mut self, ip: IpAddr, name: &String)
        ensures
            final(self).dns_records@.len() == old(self).dns_records@.len() + 1,
            final(self).dns_records@.drop_last() == old(self).dns_records@,
            final(self).dns_records@.last().0@ == name@,
            final(self).dns_records@.last().1 == ip,
    {
        self.dns_records.push((name.clone(), ip));
    }
}

/// The addresses that reached one domain.
pub struct AccDomainRecord {
    src_addrs: IpSet,
}

impl AccDomainRecord {
    /// The addresses recorded.
    pub closed spec fn addrs(&self) -> Set<IpKey> {
        ip_items(self.src_addrs)
    }

    pub fn new() -> (r: AccDomainRecord)
        ensures
            r.addrs() == Set::<IpKey>::empty(),
    {
        AccDomainRecord { src_addrs: ip_set_new() }
    }

    /// Records `dst_ip`.
    pub fn log(&mut self, dst_ip: IpAddr)
        ensures
            final(self).addrs() == old(self).addrs().insert(key_of(dst_ip)),
    {
        let k = ip_key(dst_ip);
        ip_set_insert(&mut self.src_addrs, k);
    }
}

/// The name under which an access from `src` is logged: its domain name where one is
/// known, else `src_text`, the address written out.
pub open spec fn log_name(names: Map<IpKey, Seq<char>>, src: IpKey, src_text: Seq<char>) -> Seq<
    char,
> {
    if names.contains_key(src) {
        names[src]
    } else {
        src_text
    }
}

/// The visits `v` with one more visit of `ip` under `d`.
pub open spec fn visited(v: Map<Seq<char>, Set<IpKey>>, d: Seq<char>, ip: IpKey) -> Map<
    Seq<char>,
    Set<IpKey>,
> {
    v.insert(
        d,
        if v.contains_key(d) {
            v[d].insert(ip)
        } else {
            Set::empty().insert(ip)
        },
    )
}

/// The names `m` after recording each of `recs`, in order.
pub open spec fn names_after(m: Map<IpKey, Seq<char>>, recs: Seq<(String, IpAddr)>) -> Map<
    IpKey,
    Seq<char>,
>
    decreases recs.len(),
{
    if recs.len() == 0 {
        m
    } else {
        names_after(m, recs.drop_last()).insert(key_of(recs.last().1), recs.last().0@)
    }
}

/// The IPv4 addresses among `s`.
pub open spec fn v4_of(s: Set<IpKey>) -> Set<u32> {
    Set::new(|a: u32| s.contains((4u8, a as u128)))
}

pub struct AccLog {
    domains: DomainByIp,
    acc_domains: AccMap,
}

impl AccLog {
    /// The domain name known for each address.
    pub closed spec fn names(&self) -> Map<IpKey, Seq<char>> {
        domain_names(self.domains)
    }

    /// The addresses that reached each domain.
    pub closed spec fn visits(&self) -> Map<Seq<char>, Set<IpKey>> {
        Map::new(
            |d: Seq<char>| acc_records(self.acc_domains).contains_key(d),
            |d: Seq<char>| acc_records(self.acc_domains)[d].addrs(),
        )
    }

    /// Every address logged is the key of an address.
    pub open spec fn wf(&self) -> bool {
        forall|d: Seq<char>, k: IpKey| #[trigger] self.visits().contains_key(d) && #[trigger] self.visits()[d].contains(k)
            ==> valid_key(k)
    }

    pub fn new() -> (r: AccLog)
        ensures
            r.wf(),
            r.names().dom() == Set::<IpKey>::empty(),
            r.visits().dom() == Set::<Seq<char>>::empty(),
    {
        let r = AccLog { domains: names_new(), acc_domains: records_new() };
        assert(r.visits().dom() =~= Set::<Seq<char>>::empty());
        r
    }

    /// Logs an access from `src_ip` to `dst_ip`; `src_text` is `src_ip` written out.
    pub fn log(&mut self, src_ip: IpAddr, dst_ip: IpAddr, src_text: &str)
        requires
            old(self).wf(),
        ensures
            final(self).wf(),
            final(self).names() == old(self).names(),
            final(self).visits() == visited(
                old(self).visits(),
                log_name(old(self).names(), key_of(src_ip), src_text@),
                key_of(dst_ip),
            ),
    {
        let domain = match names_get(&self.domains, ip_key(src_ip)) {
            Some(d) => d,
            None => String::from_str(src_text),
        };
        let ghost d = domain@;
        let ghost v0 = self.visits();
        let rec = records_remove(&mut self.acc_domains, domain.as_str());
        let mut rec = match rec {
            Some(r) => r,
            None => AccDomainRecord::new(),
        };
        rec.log(dst_ip);
        records_insert(&mut self.acc_domains, domain, rec);
        proof {
            let v1 = visited(v0, d, key_of(dst_ip));
            assert(self.visits().dom() =~= v1.dom());
            assert forall|x: Seq<char>| #[trigger] self.visits().contains_key(x) implies self.visits()[x]
                =~= v1[x] by {
                if x != d {
                    assert(acc_records(self.acc_domains)[x] == acc_records(old(self).acc_domains)[x]);
                }
            }
            assert(self.visits() =~= v1);
            assert forall|x: Seq<char>, k: IpKey| #[trigger] self.visits().contains_key(x)
                && #[trigger] self.visits()[x].contains(k) implies valid_key(k) by {
                if x == d && k != key_of(dst_ip) {
                    assert(v0.contains_key(d) && v0[d].contains(k));
                } else if x != d {
                    assert(v0.contains_key(x) && v0[x].contains(k));
                }
            }
        }
    }

    /// Learns the domain name of each address of `domain`, the later records winning.
    pub fn domain_add(&mut self, domain: DNSAddRecord)
        requires
            old(self).wf(),
        ensures
            final(self).wf(),
            final(self).names() == names_after(old(self).names(), domain.dns_records@),
            final(self).visits() == old(self).visits(),
    {
        let n = domain.dns_records.len();
        let mut i: usize = 0;
        while i < n
            invariant
                n == domain.dns_records@.len(),
                i <= n,
                self.names() == names_after(old(self).names(), domain.dns_records@.take(i as int)),
                self.acc_domains == old(self).acc_domains,
            decreases n - i,
        {
            let name = domain.dns_records[i].0.clone();
            let ip = domain.dns_records[i].1;
            names_insert(&mut self.domains, ip_key(ip), name);
            proof {
                assert(domain.dns_records@.take(i + 1).drop_last() =~= domain.dns_records@.take(
                    i as int,
                ));
            }
            i = i + 1;
        }
        assert(domain.dns_records@.take(n as int) =~= domain.dns_records@);
        assert(self.visits() == old(self).visits());
    }

    /// Forgets every access, keeping the domain names.
    pub fn clear_log(&mut self)
        ensures
            final(self).wf(),
            final(self).names() == old(self).names(),
            final(self).visits().dom() == Set::<Seq<char>>::empty(),
    {
        records_clear(&mut self.acc_domains);
        assert(self.visits().dom() =~= Set::<Seq<char>>::empty());
    }

    /// Whether no access is logged.
    pub fn is_empty(&self) -> (r: bool)
        ensures
            r <==> self.visits().dom() == Set::<Seq<char>>::empty(),
    {
        let r = records_is_empty(&self.acc_domains);
        assert(self.visits().dom() =~= acc_records(self.acc_domains).dom());
        r
    }

    /// The report of the log: one entry per domain, with the IPv4 addresses that reached
    /// it, each once.
    pub fn dump_to_pb(&self) -> (r: AccReport)
        requires
            self.wf(),
        ensures
            forall|i: int, j: int| 0 <= i < j < r.domains@.len() ==> r.domains@[i].domain@
                != r.domains@[j].domain@,
            forall|i: int| 0 <= i < r.domains@.len() ==> self.visits().contains_key(
                #[trigger] r.domains@[i].domain@,
            ),
            forall|d: Seq<char>| #[trigger] self.visits().contains_key(d) ==> exists|i: int|
                0 <= i < r.domains@.len() && #[trigger] r.domains@[i].domain@ == d,
            forall|i: int| 0 <= i < r.domains@.len() ==> (#[trigger] r.domains@[i]).srcIP@.no_duplicates()
                && r.domains@[i].srcIP@.to_set() == v4_of(self.visits()[r.domains@[i].domain@]),
    {
        let keys = records_domains(&self.acc_domains);
        let mut out: Vec<AccDomain> = Vec::new();
        let n = keys.len();
        let mut i: usize = 0;
        while i < n
            invariant
                n == keys@.len(),
                i <= n,
                self.wf(),
                out@.len() == i,
                forall|a: int| 0 <= a < i ==> (#[trigger] out@[a]).domain@ == keys@[a]@,
                forall|a: int| 0 <= a < i ==> (#[trigger] out@[a]).srcIP@.no_duplicates()
                    && out@[a].srcIP@.to_set() == v4_of(self.visits()[keys@[a]@]),
                forall|a: int| 0 <= a < n ==> acc_records(self.acc_domains).contains_key(#[trigger] keys@[a]@),
            decreases n - i,
        {
            let k = &keys[i];
            let rec = records_get(&self.acc_domains, k.as_str());
            let mut pad = AccDomain::new();
            pad.set_domain(k.clone());
            match rec {
                Some(rec) => {
                    let ips = ip_set_list(&rec.src_addrs);
                    let ghost s = self.visits()[k@];
                    assert(s == rec.addrs());
                    assert forall|x: IpKey| s.contains(x) implies valid_key(x) by {
                        assert(self.visits().contains_key(k@));
                    }
                    let m = ips.len();
                    let mut j: usize = 0;
                    let mut v4s: Vec<u32> = Vec::new();
                    while j < m
                        invariant
                            m == ips@.len(),
                            j <= m,
                            ips@.no_duplicates(),
                            ips@.to_set() == s,
                            forall|x: IpKey| s.contains(x) ==> valid_key(x),
                            v4s@.no_duplicates(),
                            forall|a: u32| v4s@.contains(a) <==> exists|b: int|
                                0 <= b < j && #[trigger] ips@[b] == (4u8, a as u128),
                        decreases m - j,
                    {
                        let ip = ips[j];
                        if ip.0 == 4 {
                            proof {
                                assert(s.contains(ip)) by {
                                    assert(ips@.contains(ip));
                                }
                            }
                            assert(valid_key(ip));
                            assert(ip.1 <= u32::MAX);
                            let a = ip.1 as u32;
                            proof {
                                assert(a == ip.1);
                                assert(ip == (4u8, a as u128));
                                if v4s@.contains(a) {
                                    let b = choose|b: int| 0 <= b < j && #[trigger] ips@[b] == (
                                        4u8,
                                        a as u128,
                                    );
                                    assert(ips@[b] == ips@[j as int]);
                                }
                            }
                            let ghost v0 = v4s@;
                            v4s.push(a);
                            proof {
                                assert forall|x: u32| v4s@.contains(x) <==> exists|b: int|
                                    0 <= b < j + 1 && #[trigger] ips@[b] == (4u8, x as u128) by {
                                    if x == a {
                                        assert(ips@[j as int] == (4u8, x as u128));
                                        assert(v4s@[v0.len() as int] == x);
                                    } else {
                                        if v4s@.contains(x) {
                                            let c = choose|c: int| 0 <= c < v4s@.len() && v4s@[c] == x;
                                            assert(v0[c] == x);
                                            assert(v0.contains(x));
                                        }
                                        if v0.contains(x) {
                                            let c = choose|c: int| 0 <= c < v0.len() && v0[c] == x;
                                            assert(v4s@[c] == x);
                                        }
                                    }
                                }
                            }
                        } else {
                            proof {
                                assert forall|x: u32| v4s@.contains(x) <==> exists|b: int|
                                    0 <= b < j + 1 && #[trigger] ips@[b] == (4u8, x as u128) by {
                                    if exists|b: int| 0 <= b < j + 1 && #[trigger] ips@[b] == (4u8, x as u128) {
                                        let b = choose|b: int| 0 <= b < j + 1 && #[trigger] ips@[b] == (4u8, x as u128);
                                        assert(b != j);
                                    }
                                }
                            }
                        }
                        j = j + 1;
                    }
                    proof {
                        assert forall|a: u32| #[trigger] v4s@.to_set().contains(a) == v4_of(s).contains(a) by {
                            if v4_of(s).contains(a) {
                                assert(ips@.to_set().contains((4u8, a as u128)));
                                let b = choose|b: int| 0 <= b < ips@.len() && ips@[b] == (4u8, a as u128);
                                assert(ips@[b] == (4u8, a as u128));
                            }
                            if v4s@.contains(a) {
                                let b = choose|b: int| 0 <= b < m && #[trigger] ips@[b] == (4u8, a as u128);
                                assert(ips@.to_set().contains(ips@[b]));
                            }
                        }
                        assert(v4s@.to_set() =~= v4_of(s));
                    }
                    pad.srcIP = v4s;
                },
                None => {},
            }
            out.push(pad);
            i = i + 1;
        }
        let r = AccReport { domains: out };
        proof {
            assert forall|d: Seq<char>| self.visits().contains_key(d) implies exists|a: int|
                0 <= a < r.domains@.len() && #[trigger] r.domains@[a].domain@ == d by {
                assert(acc_records(self.acc_domains).contains_key(d));
                let a = choose|a: int| 0 <= a < keys@.len() && #[trigger] keys@[a]@ == d;
                assert(r.domains@[a].domain@ == keys@[a]@);
            }
        }
        r
    }
}

} // verus!
