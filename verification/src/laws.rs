//! What holds across the operations of the library.
use vstd::prelude::*;
use crate::tunnels::{alloc_spec, free_spec, next_tag, rtt_total, Tunnel, best_choice, has_room};
use crate::cv::{domain_bytes, report_bytes, varint, AccDomain};
use crate::dns::memo_key;
use crate::config::{auth_reply_of, member, text_in, u64_in, i64_in, bool_in, Json, AuthResp};
use crate::xport::read_u16_le;
use crate::textutil::{decimal, digit_char};
use vstd::utf8::encode_utf8;
use crate::domap::{domain_labels, is_prefix, name_hits};
use crate::dns::{DnsTunnel, SockAddr, take_spec};
use crate::acclog::{IpKey, visited, log_name, key_of, v4_of};
use crate::service::{AccessRecord, visits_after};
use vstd::arithmetic::div_mod::{lemma_add_mod_noop_right, lemma_small_mod, lemma_mod_self_0};

verus! {

/// A slot that was handed out can be freed with the slot and tag that came with it, and
/// freeing it puts the free stack back as it was before the allocation (slots are numbered
/// by 16 bits, the last number standing for failure).
pub proof fn law_alloc_then_free(tags: Seq<u16>, free: Seq<usize>)
    requires
        forall|j: int| 0 <= j < free.len() ==> free[j] < tags.len(),
        free.len() > 0,
        tags.len() <= u16::MAX,
    ensures
        ({
            let (tags1, free1, res) = alloc_spec(tags, free);
            let (tags2, free2, ok) = free_spec(tags1, free1, res.0, res.1);
            &&& ok
            &&& free2 == free
            &&& tags2[free.last() as int] == next_tag(next_tag(tags[free.last() as int]))
        }),
{
    let i = free.last();
    assert(i < tags.len());
    let (tags1, free1, res) = alloc_spec(tags, free);
    assert(i < 65535);
    assert(res.0 as int == i as int);
    assert(free1.push(res.0 as usize) =~= free);
}

/// A slot that was freed cannot be freed again with the same tag: its tag has moved on.
pub proof fn law_no_double_free(tags: Seq<u16>, free: Seq<usize>, idx: u16, tag: u16)
    requires
        free_spec(tags, free, idx, tag).2,
    ensures
        ({
            let (tags1, free1, _) = free_spec(tags, free, idx, tag);
            !free_spec(tags1, free1, idx, tag).2
        }),
{
}

/// With no free slot, allocating fails and changes nothing: so after `clear_all` no
/// request can be placed in the tunnel.
pub proof fn law_alloc_after_clear(tags: Seq<u16>)
    ensures
        alloc_spec(tags, Seq::<usize>::empty()) == (tags, Seq::<usize>::empty(), (u16::MAX, u16::MAX)),
{
}

/// An inserted name is found: a name with at least two labels and a non-empty top level
/// label, once in the map, is found, and so is every name below it.
pub proof fn law_inserted_name_found(names: Set<Seq<Seq<char>>>, d: Seq<char>, q: Seq<char>)
    requires
        domain_labels(d).len() >= 2,
        domain_labels(d)[0].len() > 0,
        is_prefix(domain_labels(d), domain_labels(q)),
    ensures
        domain_labels(q).len() >= 2,
        name_hits(names.insert(domain_labels(d)), domain_labels(q)),
{
    let r = domain_labels(d);
    assert(names.insert(r).contains(r));
}

/// Inserting a name never makes a name that was found go missing.
pub proof fn law_insert_keeps_hits(names: Set<Seq<Seq<char>>>, r: Seq<Seq<char>>, q: Seq<Seq<char>>)
    requires
        name_hits(names, q),
    ensures
        name_hits(names.insert(r), q),
{
    let d = choose|d: Seq<Seq<char>>| #[trigger] names.contains(d) && (is_prefix(d, q) || is_prefix(q, d));
    assert(names.insert(r).contains(d));
}

/// An empty map finds nothing.
pub proof fn law_empty_map_finds_nothing(q: Seq<Seq<char>>)
    ensures
        !name_hits(Set::<Seq<Seq<char>>>::empty(), q),
{
}

/// Who asked a query is found again by its reply: right after the query (where no older
/// query has the same key), after one keepalive period, and not after two.
pub proof fn law_memo_lifetime(
    memo: Map<Seq<char>, SockAddr>,
    history: Map<Seq<char>, SockAddr>,
    k: Seq<char>,
    a: SockAddr,
)
    requires
        !history.contains_key(k),
    ensures
        take_spec(memo.insert(k, a), history, k) == Some(a),
        take_spec(Map::<Seq<char>, SockAddr>::empty(), memo.insert(k, a), k) == Some(a),
        take_spec(Map::<Seq<char>, SockAddr>::empty(), Map::<Seq<char>, SockAddr>::empty(), k) is None,
{
}

/// A logged access is in the log: its name now has the destination among its addresses,
/// next to all it had before.
pub proof fn law_logged_access_kept(v: Map<Seq<char>, Set<IpKey>>, d: Seq<char>, ip: IpKey)
    ensures
        visited(v, d, ip).contains_key(d),
        visited(v, d, ip)[d].contains(ip),
        v.contains_key(d) ==> v[d].subset_of(visited(v, d, ip)[d]),
        forall|e: Seq<char>| e != d && v.contains_key(e) ==> #[trigger] visited(v, d, ip).contains_key(e)
            && visited(v, d, ip)[e] == v[e],
{
}

/// The round trip time window of a DNS tunnel after the samples `s`, from the five zeros
/// it starts with: the five times and the slot that the next sample replaces.
pub open spec fn rtt_window(s: Seq<i64>) -> (Seq<i64>, int)
    decreases s.len(),
{
    if s.len() == 0 {
        (seq![0i64, 0, 0, 0, 0], 0)
    } else {
        let (q, i) = rtt_window(s.drop_last());
        (q.update(i, s.last()), (i + 1) % 5)
    }
}

/// The last (at most five) samples of `s`.
pub open spec fn last_five(s: Seq<i64>) -> Seq<i64> {
    if s.len() <= 5 {
        s
    } else {
        s.subrange(s.len() - 5, s.len() as int)
    }
}

proof fn lemma_rtt_total_first(a: Seq<i64>)
    requires
        a.len() > 0,
    ensures
        rtt_total(a) == a[0] + rtt_total(a.drop_first()),
    decreases a.len(),
{
    if a.len() > 1 {
        lemma_rtt_total_first(a.drop_last());
        assert(a.drop_last().drop_first() =~= a.drop_first().drop_last());
        assert(rtt_total(a) == rtt_total(a.drop_last()) + a.last());
        assert(rtt_total(a.drop_first()) == rtt_total(a.drop_first().drop_last()) + a.drop_first().last());
    } else {
        assert(rtt_total(a) == rtt_total(a.drop_last()) + a.last());
        assert(a.last() == a[0]);
        assert(rtt_total(a.drop_first()) == 0);
    }
}

#[verifier::rlimit(30)]
proof fn lemma_rtt_window_slots(s: Seq<i64>)
    ensures
        rtt_window(s).0.len() == 5,
        rtt_window(s).1 == s.len() % 5,
        forall|t: int| s.len() - 5 <= t < s.len() && 0 <= t ==> #[trigger] rtt_window(s).0[t % 5]
            == s[t],
        forall|t: int| s.len() <= t < 5 ==> #[trigger] rtt_window(s).0[t] == 0,
    decreases s.len(),
{
    if s.len() > 0 {
        let p = s.drop_last();
        lemma_rtt_window_slots(p);
        let n = p.len() as int;
        let q = rtt_window(p).0;
        let w = rtt_window(s).0;
        assert(w == q.update(n % 5, s[n]));
        assert forall|t: int| s.len() - 5 <= t < s.len() && 0 <= t implies #[trigger] w[t % 5]
            == s[t] by {
            if t < n {
                assert(p[t] == s[t]);
                assert(t % 5 != n % 5);
                assert(q[t % 5] == p[t]);
            }
        }
        assert forall|t: int| s.len() <= t < 5 implies #[trigger] w[t] == 0 by {
            assert(t != n % 5);
            assert(q[t] == 0);
        }
    }
}

/// The mean round trip time of a DNS tunnel is that of the last five samples it was given
/// since it was made, where fewer than five count the missing ones as zero; the next sample
/// replaces the oldest.
pub proof fn law_rtt_window(s: Seq<i64>)
    ensures
        rtt_window(s).0.len() == 5,
        rtt_window(s).1 == s.len() % 5,
        rtt_total(rtt_window(s).0) == rtt_total(last_five(s)),
    decreases s.len(),
{
    lemma_rtt_window_slots(s);
    if s.len() == 0 {
        reveal_with_fuel(rtt_total, 6);
    } else {
        let p = s.drop_last();
        let n = p.len() as int;
        law_rtt_window(p);
        lemma_rtt_window_slots(p);
        let (q, i) = rtt_window(p);
        crate::tunnels::lemma_rtt_total_update(q, i, s.last());
        if n >= 5 {
            assert((n - 5) % 5 == n % 5);
            assert(q[(n - 5) % 5] == p[n - 5]);
            let l = last_five(p);
            lemma_rtt_total_first(l);
            assert(l[0] == p[n - 5]);
            assert(last_five(s) =~= l.drop_first().push(s.last()));
            assert(last_five(s).drop_last() =~= l.drop_first());
        } else {
            assert(q[n] == 0);
            assert(last_five(s) =~= s);
            assert(s.drop_last() =~= last_five(p));
        }
    }
}

/// The window of a DNS tunnel follows its samples: a new tunnel has the window of no
/// sample, `append_rtt` with `x` turns the window of `s` into that of `s` and then `x`,
/// and a tunnel with the window of `s` reports as its round trip time the sum of the last
/// five samples (missing ones count as zero) divided by five.
pub proof fn law_rtt_of_samples<S, U>(t: DnsTunnel<S, U>, s: Seq<i64>, x: i64)
    requires
        t.wf(),
        t.rtt_queue@ == rtt_window(s).0,
        t.rtt_index == rtt_window(s).1,
    ensures
        rtt_window(Seq::empty()) == (seq![0i64, 0, 0, 0, 0], 0int),
        rtt_window(s.push(x)) == (rtt_window(s).0.update(rtt_window(s).1, x), (rtt_window(s).1 + 1) % 5),
        t.rtt_index == s.len() % 5,
        t.spec_rtt() == (rtt_total(last_five(s)) / 5) as i64,
{
    law_rtt_window(s);
    assert(s.push(x).drop_last() =~= s);
}

/// The same holds of a relay tunnel's window: one with the window of the samples `s`
/// reports the sum of the last five of them divided by five.
pub proof fn law_tunnel_rtt_of_samples<S, G>(t: Tunnel<S, G>, s: Seq<i64>)
    requires
        t.wf(),
        t.spec_rtt_queue() == rtt_window(s).0,
        t.spec_rtt_index() == rtt_window(s).1,
    ensures
        t.spec_rtt_index() == s.len() % 5,
        t.spec_rtt() == (rtt_total(last_five(s)) / 5) as i64,
{
    law_rtt_window(s);
}

/// The name that the access `a` is logged under, with the domain names `names`.
pub open spec fn access_name(names: Map<IpKey, Seq<char>>, a: AccessRecord) -> Seq<char> {
    log_name(names, key_of(a.src), a.src_text@)
}

/// After `do_access_log` with the accesses `recs` on an empty log (as `clear_log` leaves
/// it), the log holds one entry for each name that an access was logged under and no
/// other, and under each name exactly the destinations of the accesses logged under it;
/// its IPv4 ones are what `dump_to_pb` reports for that name.
pub proof fn law_access_log_run(
    v0: Map<Seq<char>, Set<IpKey>>,
    names: Map<IpKey, Seq<char>>,
    recs: Seq<AccessRecord>,
)
    requires
        v0.dom() == Set::<Seq<char>>::empty(),
    ensures
        ({
            let v = visits_after(v0, names, recs);
            &&& forall|d: Seq<char>| #[trigger] v.contains_key(d) <==> exists|i: int|
                0 <= i < recs.len() && access_name(names, #[trigger] recs[i]) == d
            &&& forall|d: Seq<char>, ip: IpKey| v.contains_key(d) ==> (#[trigger] v[d].contains(ip)
                <==> exists|i: int| 0 <= i < recs.len() && access_name(names, #[trigger] recs[i]) == d
                && key_of(recs[i].dst) == ip)
            &&& forall|d: Seq<char>, x: u32| v.contains_key(d) ==> (#[trigger] v4_of(v[d]).contains(x)
                <==> exists|i: int| 0 <= i < recs.len() && access_name(names, #[trigger] recs[i]) == d
                && key_of(recs[i].dst) == (4u8, x as u128))
        }),
    decreases recs.len(),
{
    let v = visits_after(v0, names, recs);
    if recs.len() > 0 {
        let p = recs.drop_last();
        law_access_log_run(v0, names, p);
        let w = visits_after(v0, names, p);
        let n = p.len() as int;
        let dl = access_name(names, recs[n]);
        assert forall|d: Seq<char>| #[trigger] v.contains_key(d) <==> exists|i: int|
            0 <= i < recs.len() && access_name(names, #[trigger] recs[i]) == d by {
            if w.contains_key(d) {
                let i = choose|i: int| 0 <= i < p.len() && access_name(names, #[trigger] p[i]) == d;
                assert(recs[i] == p[i]);
            }
            if exists|i: int| 0 <= i < recs.len() && access_name(names, #[trigger] recs[i]) == d {
                let i = choose|i: int| 0 <= i < recs.len() && access_name(names, #[trigger] recs[i]) == d;
                if i < n {
                    assert(p[i] == recs[i]);
                }
            }
        }
        assert forall|d: Seq<char>, ip: IpKey| v.contains_key(d) implies (#[trigger] v[d].contains(ip)
            <==> exists|i: int| 0 <= i < recs.len() && access_name(names, #[trigger] recs[i]) == d
            && key_of(recs[i].dst) == ip) by {
            if v[d].contains(ip) {
                if d == dl && ip == key_of(recs[n].dst) {
                    assert(access_name(names, recs[n]) == d && key_of(recs[n].dst) == ip);
                } else {
                    assert(w.contains_key(d) && w[d].contains(ip));
                    let i = choose|i: int| 0 <= i < p.len() && access_name(names, #[trigger] p[i]) == d
                        && key_of(p[i].dst) == ip;
                    assert(recs[i] == p[i]);
                }
            }
            if exists|i: int| 0 <= i < recs.len() && access_name(names, #[trigger] recs[i]) == d
                && key_of(recs[i].dst) == ip {
                let i = choose|i: int| 0 <= i < recs.len() && access_name(names, #[trigger] recs[i]) == d
                    && key_of(recs[i].dst) == ip;
                if i < n {
                    assert(p[i] == recs[i]);
                    assert(w.contains_key(d));
                }
            }
        }
    }
    assert forall|d: Seq<char>, x: u32| v.contains_key(d) implies (#[trigger] v4_of(v[d]).contains(x)
        <==> exists|i: int| 0 <= i < recs.len() && access_name(names, #[trigger] recs[i]) == d
        && key_of(recs[i].dst) == (4u8, x as u128)) by {
        assert(v4_of(v[d]).contains(x) == v[d].contains((4u8, x as u128)));
    }
}

/// One message through a request's quota count with the threshold `t`: the count after it,
/// and what it reports.
pub open spec fn quota_step(w: u16, t: u16) -> (u16, Option<u16>) {
    let w1 = if w == u16::MAX { 0 } else { (w + 1) as u16 };
    if w1 == t {
        (0, Some(w1))
    } else {
        (w1, None)
    }
}

/// The quota count with the threshold `t` after `n` messages from a new count.
pub open spec fn quota_after(t: u16, n: nat) -> u16
    decreases n,
{
    if n == 0 {
        0
    } else {
        quota_step(quota_after(t, (n - 1) as nat), t).0
    }
}

/// A request whose threshold (half its quota) is above zero reports its quota at every
/// `t`-th message, with the count `t`, and at no other; in between the count is the number
/// of messages since the last report.
pub proof fn law_quota_run(t: u16, n: nat)
    requires
        t > 0,
    ensures
        quota_after(t, n) == (n as int) % (t as int),
        n > 0 ==> quota_step(quota_after(t, (n - 1) as nat), t).1 == (if (n as int) % (t as int) == 0 {
            Some(t)
        } else {
            None
        }),
    decreases n,
{
    if n > 0 {
        let m = (n - 1) as nat;
        law_quota_run(t, m);
        let w = quota_after(t, m);
        assert(w < t) by {
            vstd::arithmetic::div_mod::lemma_mod_pos_bound(m as int, t as int);
        }
        lemma_add_mod_noop_right(1, m as int, t as int);
        assert(n as int == 1 + m);
        if w + 1 < t {
            lemma_small_mod((w + 1) as nat, t as nat);
            assert(((w + 1) as u16) as int == w + 1);
            assert(quota_step(w, t).0 == w + 1);
        } else {
            lemma_mod_self_0(t as int);
            assert(quota_step(w, t).0 == 0);
        }
    } else {
        lemma_small_mod(0, t as nat);
    }
}

proof fn lemma_nodup_below(s: Seq<usize>, n: nat)
    requires
        s.no_duplicates(),
        forall|j: int| 0 <= j < s.len() ==> s[j] < n,
    ensures
        s.len() <= n,
    decreases n,
{
    if n == 0 {
        if s.len() > 0 {
            assert(s[0] < 0);
        }
    } else {
        let top = (n - 1) as usize;
        if s.contains(top) {
            let k = s.index_of(top);
            let s2 = s.remove(k);
            assert forall|j: int| 0 <= j < s2.len() implies s2[j] < n - 1 by {
                if j < k {
                    assert(s2[j] == s[j]);
                } else {
                    assert(s2[j] == s[j + 1]);
                }
            }
            assert(s2.no_duplicates()) by {
                assert forall|a: int, b: int| 0 <= a < s2.len() && 0 <= b < s2.len() && a != b implies s2[a]
                    != s2[b] by {
                    let a1 = if a < k { a } else { a + 1 };
                    let b1 = if b < k { b } else { b + 1 };
                    assert(s2[a] == s[a1] && s2[b] == s[b1]);
                }
            }
            lemma_nodup_below(s2, (n - 1) as nat);
        } else {
            assert forall|j: int| 0 <= j < s.len() implies s[j] < n - 1 by {
                assert(s[j] != top);
            }
            lemma_nodup_below(s, (n - 1) as nat);
        }
    }
}

/// A tunnel's request count is its number of allocated slots: the slots of `tags` that are
/// not on the free stack `free`. Allocating a slot raises the count by one (and fails only
/// where every slot is allocated); freeing an allocated slot with its tag lowers it by one;
/// a free with another tag changes nothing. Each keeps the free stack free of repeats.
pub proof fn law_request_count(tags: Seq<u16>, free: Seq<usize>, count: int, idx: u16, tag: u16)
    requires
        free.no_duplicates(),
        forall|j: int| 0 <= j < free.len() ==> free[j] < tags.len(),
        tags.len() <= u16::MAX,
        count == tags.len() - free.len(),
    ensures
        ({
            let (tags1, free1, res) = alloc_spec(tags, free);
            &&& res.0 == u16::MAX ==> count == tags.len() && free1 == free && tags1 == tags
            &&& res.0 != u16::MAX ==> {
                &&& count < u16::MAX
                &&& free1.no_duplicates()
                &&& count + 1 == tags1.len() - free1.len()
            }
        }),
        ({
            let (tags2, free2, ok) = free_spec(tags, free, idx, tag);
            &&& !ok ==> free2 == free && tags2 == tags
            &&& ok && !free.contains(idx as usize) ==> {
                &&& count > 0
                &&& free2.no_duplicates()
                &&& count - 1 == tags2.len() - free2.len()
            }
        }),
{
    if free.len() > 0 {
        assert(free.last() < tags.len());
        assert(free.drop_last().no_duplicates()) by {
            assert forall|a: int, b: int| 0 <= a < free.len() - 1 && 0 <= b < free.len() - 1 && a != b implies
                free.drop_last()[a] != free.drop_last()[b] by {
                assert(free.drop_last()[a] == free[a]);
                assert(free.drop_last()[b] == free[b]);
            }
        }
    }
    let (tags2, free2, ok) = free_spec(tags, free, idx, tag);
    if ok && !free.contains(idx as usize) {
        assert(free2.no_duplicates()) by {
            assert forall|a: int, b: int| 0 <= a < free2.len() && 0 <= b < free2.len() && a != b implies free2[a]
                != free2[b] by {
                if a == free.len() {
                    assert(free2[b] == free[b]);
                } else if b == free.len() {
                    assert(free2[a] == free[a]);
                } else {
                    assert(free2[a] == free[a] && free2[b] == free[b]);
                }
            }
        }
        assert forall|j: int| 0 <= j < free2.len() implies free2[j] < tags.len() by {
            if j < free.len() {
                assert(free2[j] == free[j]);
            }
        }
        lemma_nodup_below(free2, tags.len());
    }
}

/// The encoding of an access report entry carries every address: an entry without
/// addresses is the name field alone (tag 0x0a, the length, the UTF-8 bytes; nothing for
/// an empty name), and one more address `x` adds exactly the tag 0x10 and the varint of
/// `x` at the end, whatever its value.
pub proof fn law_entry_carries_every_address(name: Seq<char>, ips: Seq<u32>, x: u32)
    ensures
        domain_bytes(name, Seq::empty()) == (if name.len() > 0 {
            seq![0x0au8] + varint(encode_utf8(name).len()) + encode_utf8(name)
        } else {
            Seq::<u8>::empty()
        }),
        domain_bytes(name, ips.push(x)) == domain_bytes(name, ips) + seq![0x10u8] + varint(x as nat),
{
    assert(ips.push(x).drop_last() =~= ips);
    assert(varint(16) =~= seq![0x10u8]);
    assert(varint(10) =~= seq![0x0au8]);
    let head = if name.len() > 0 {
        varint(10) + varint(encode_utf8(name).len()) + encode_utf8(name)
    } else {
        Seq::<u8>::empty()
    };
    assert(domain_bytes(name, Seq::empty()) =~= head);
    assert(domain_bytes(name, ips.push(x)) =~= domain_bytes(name, ips) + seq![0x10u8] + varint(x as nat));
}

/// The encoding of a report carries every entry: one more entry `d` adds exactly the tag
/// 0x0a, the varint of the length of its encoding, and that encoding at the end.
pub proof fn law_report_carries_every_entry(ds: Seq<AccDomain>, d: AccDomain)
    ensures
        report_bytes(Seq::empty()) == Seq::<u8>::empty(),
        report_bytes(ds.push(d)) == report_bytes(ds) + seq![0x0au8] + varint(
            domain_bytes(d.domain@, d.srcIP@).len(),
        ) + domain_bytes(d.domain@, d.srcIP@),
{
    assert(ds.push(d).drop_last() =~= ds);
    assert(varint(10) =~= seq![0x0au8]);
}

proof fn lemma_decimal_nonempty(n: nat)
    ensures
        decimal(n).len() >= 1,
        n >= 10 ==> decimal(n).len() >= 2,
    decreases n,
{
    if n >= 10 {
        lemma_decimal_nonempty(n / 10);
    }
}

proof fn lemma_decimal_injective(n: nat, m: nat)
    requires
        decimal(n) == decimal(m),
    ensures
        n == m,
    decreases n,
{
    lemma_decimal_nonempty(n);
    lemma_decimal_nonempty(m);
    if n < 10 && m < 10 {
        assert(decimal(n)[0] == digit_char(n));
        assert(decimal(m)[0] == digit_char(m));
    } else if n >= 10 && m >= 10 {
        assert(decimal(n).last() == digit_char(n % 10));
        assert(decimal(m).last() == digit_char(m % 10));
        assert(decimal(n).drop_last() =~= decimal(n / 10));
        assert(decimal(m).drop_last() =~= decimal(m / 10));
        lemma_decimal_injective(n / 10, m / 10);
    } else {
        assert(decimal(n).len() != decimal(m).len());
    }
}

/// Pending queries of one name are told apart by their identifier: two queries for `q`
/// with the identifiers `i` and `j` have different keys, so after `request(q, i, a)` and
/// `request(q, j, b)`, `take(q, i)` gives `a` and then `take(q, j)` gives `b` (where the
/// older period holds neither).
pub proof fn law_queries_told_apart(
    memo: Map<Seq<char>, SockAddr>,
    history: Map<Seq<char>, SockAddr>,
    q: Seq<char>,
    i: u16,
    j: u16,
    a: SockAddr,
    b: SockAddr,
)
    requires
        i != j,
        !history.contains_key(memo_key(q, i)),
        !history.contains_key(memo_key(q, j)),
    ensures
        memo_key(q, i) != memo_key(q, j),
        ({
            let m = memo.insert(memo_key(q, i), a).insert(memo_key(q, j), b);
            &&& take_spec(m, history, memo_key(q, i)) == Some(a)
            &&& take_spec(m.remove(memo_key(q, i)), history, memo_key(q, j)) == Some(b)
        }),
{
    if memo_key(q, i) == memo_key(q, j) {
        reveal_strlit(":");
        let k: int = q.len() as int + 1;
        assert(memo_key(q, i).skip(k) =~= decimal(i as nat));
        assert(memo_key(q, j).skip(k) =~= decimal(j as nat));
        lemma_decimal_injective(i as nat, j as nat);
    }
}

/// A reply takes over each member of the server's JSON that is of its kind: the token,
/// error, flags and upgrade address, and in the configuration each address, name and
/// number (numbers as the configuration's integer types hold them) and the flag.
pub proof fn law_reply_takes_members(v: Json, a: AuthResp)
    requires
        auth_reply_of(v, a),
    ensures
        text_in(member(v, "token"@)) matches Some(t) ==> a.token@ == t,
        i64_in(member(v, "error"@)) matches Some(e) ==> a.error == e,
        bool_in(member(v, "restart"@)) matches Some(x) ==> a.restart == x,
        bool_in(member(v, "need_upgrade"@)) matches Some(x) ==> a.need_upgrade == x,
        text_in(member(v, "upgrade_url"@)) matches Some(t) ==> a.upgrade_url@ == t,
        a.tuncfg matches Some(c) ==> ({
            let tv = member(v, "tuncfg"@);
            &&& text_in(member(tv, "tunnel_url"@)) matches Some(t) ==> c.tunnel_url@ == t
            &&& text_in(member(tv, "xport_url"@)) matches Some(t) ==> c.xport_url@ == t
            &&& text_in(member(tv, "cfg_monitor_url"@)) matches Some(t) ==> c.cfg_monitor_url@ == t
            &&& text_in(member(tv, "cfg_access_report_url"@)) matches Some(t) ==> c.cfg_access_report_url@ == t
            &&& text_in(member(tv, "relay_domain"@)) matches Some(t) ==> c.relay_domain@ == t
            &&& text_in(member(tv, "domains_ver"@)) matches Some(t) ==> c.domains_ver@ == t
            &&& text_in(member(tv, "local_dns_server"@)) matches Some(t) ==> c.local_dns_server@ == t
            &&& u64_in(member(tv, "tunnel_number"@)) matches Some(n) ==> c.tunnel_number == n as usize
            &&& u64_in(member(tv, "request_quota"@)) matches Some(n) ==> c.request_quota == n as usize
            &&& u64_in(member(tv, "tunnel_req_cap"@)) matches Some(n) ==> c.tunnel_req_cap == n as usize
            &&& u64_in(member(tv, "dns_tunnel_number"@)) matches Some(n) ==> c.dns_tunnel_number == n as usize
            &&& u64_in(member(tv, "relay_port"@)) matches Some(n) ==> c.relay_port == n as u16
            &&& bool_in(member(tv, "work_as_global"@)) matches Some(x) ==> c.work_as_global == x
            &&& c.token@ == a.token@
        }),
{
}

/// A tunnel with room whose round trip time is shorter than that of every other tunnel
/// with room is the one a request goes to, whatever the request counts.
pub proof fn law_fastest_tunnel_chosen<S, G>(ts: Seq<Option<Tunnel<S, G>>>, i: int, j: int)
    requires
        0 <= i < ts.len(),
        has_room(ts[i]),
        forall|k: int| 0 <= k < ts.len() && k != i && has_room(#[trigger] ts[k]) ==> ts[i]->0.spec_rtt()
            < ts[k]->0.spec_rtt(),
        best_choice(ts, j),
    ensures
        j == i,
{
    if j != i {
        assert(has_room(ts[j]));
        assert(ts[i]->0.spec_rtt() < ts[j]->0.spec_rtt());
    }
}

/// Among tunnels with room of the same round trip time, one with fewer requests than each
/// of the others is the one a request goes to.
pub proof fn law_fewest_requests_break_ties<S, G>(ts: Seq<Option<Tunnel<S, G>>>, i: int, j: int)
    requires
        0 <= i < ts.len(),
        has_room(ts[i]),
        forall|k: int| 0 <= k < ts.len() && k != i && has_room(#[trigger] ts[k]) ==> ts[i]->0.spec_rtt()
            == ts[k]->0.spec_rtt() && ts[i]->0.req_count < ts[k]->0.req_count,
        best_choice(ts, j),
    ensures
        j == i,
{
    if j != i {
        assert(has_room(ts[j]));
        assert(ts[i]->0.spec_rtt() == ts[j]->0.spec_rtt());
    }
}

/// A request goes only to a tunnel that is in place and has room: fewer requests than its
/// capacity less one.
pub proof fn law_chosen_tunnel_has_room<S, G>(ts: Seq<Option<Tunnel<S, G>>>, j: int)
    requires
        best_choice(ts, j),
    ensures
        0 <= j < ts.len(),
        ts[j] is Some,
        (ts[j]->0.req_count as int) + 1 < ts[j]->0.capacity as int,
{
}

/// Of two tunnels with room, the same round trip time and the same request count, the
/// later one is never the one a request goes to: ties go to the first.
pub proof fn law_ties_go_to_the_first<S, G>(ts: Seq<Option<Tunnel<S, G>>>, i: int, k: int)
    requires
        0 <= i < k < ts.len(),
        has_room(ts[i]),
        has_room(ts[k]),
        ts[i]->0.spec_rtt() == ts[k]->0.spec_rtt(),
        ts[i]->0.req_count == ts[k]->0.req_count,
    ensures
        !best_choice(ts, k),
{
}

/// The port that a created request asks for is the little-endian 16-bit number of the
/// first two bytes of its body.
pub proof fn law_port_little_endian(b: Seq<u8>)
    requires
        b.len() >= 2,
    ensures
        read_u16_le(b) as int == b[0] as int + 256 * (b[1] as int),
        read_u16_le(b) as int % 256 == b[0] as int,
        read_u16_le(b) as int / 256 == b[1] as int,
{
}

} // verus!
