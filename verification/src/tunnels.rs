//! The tunnels to the relay: the request slots of a tunnel, its round trip times, and the
//! manager that hands requests to the tunnels.
use vstd::prelude::*;
use crate::config::{TunCfg, KEEP_ALIVE_INTERVAL};
use crate::htp::{UrlParts, parse_url, url_parts};
use crate::textutil::{append_decimal, decimal};
use vstd::string::StringExecFns;

verus! {

/// `t + 1`, wrapping at the top of `u16`.
pub open spec fn next_tag(t: u16) -> u16 {
    if t == u16::MAX { 0 } else { (t + 1) as u16 }
}

/// One request slot of a tunnel: its index, the tag of its current use, and the sender and
/// trigger of the request that uses it.
pub struct Request<S, G> {
    pub index: u16,
    pub tag: u16,
    pub request_tx: Option<S>,
    pub trigger: Option<G>,
    pub write_out: u16,
}

impl<S, G> Request<S, G> {
    /// A free slot with index `idx`.
    pub fn new(idx: u16) -> (r: Request<S, G>)
        ensures
            r.index == idx,
            r.tag == 0,
            r.request_tx is None,
            r.trigger is None,
            r.write_out == 0,
    {
        Request { index: idx, tag: 0, request_tx: None, trigger: None, write_out: 0 }
    }

    /// A request that sends with `tx` and is cancelled with `trigger`.
    pub fn with(tx: S, trigger: G) -> (r: Request<S, G>)
        ensures
            r.index == 0,
            r.tag == 0,
            r.request_tx == Some(tx),
            r.trigger == Some(trigger),
            r.write_out == 0,
    {
        Request { index: 0, tag: 0, request_tx: Some(tx), trigger: Some(trigger), write_out: 0 }
    }
}

/// The request slots of a tunnel and the stack of the free ones.
pub struct Reqq<S, G> {
    pub elements: Vec<Request<S, G>>,
    pub free: Vec<usize>,
}

/// The tags of the slots.
pub open spec fn tags_of<S, G>(e: Seq<Request<S, G>>) -> Seq<u16> {
    e.map_values(|r: Request<S, G>| r.tag)
}

/// The tags and the free stack after an allocation, and what it returns.
pub open spec fn alloc_spec(tags: Seq<u16>, free: Seq<usize>) -> (Seq<u16>, Seq<usize>, (u16, u16)) {
    if free.len() == 0 {
        (tags, free, (u16::MAX, u16::MAX))
    } else {
        let i = free.last();
        let t = next_tag(tags[i as int]);
        (tags.update(i as int, t), free.drop_last(), (i as u16, t))
    }
}

/// The tags and the free stack after freeing slot `idx` of use `tag`, and whether it was freed.
pub open spec fn free_spec(tags: Seq<u16>, free: Seq<usize>, idx: u16, tag: u16) -> (Seq<u16>, Seq<usize>, bool) {
    if idx as int >= tags.len() || tags[idx as int] != tag {
        (tags, free, false)
    } else {
        (tags.update(idx as int, next_tag(tag)), free.push(idx as usize), true)
    }
}

impl<S, G> Reqq<S, G> {
    pub open spec fn spec_free(&self) -> Seq<usize> {
        self.free@
    }

    pub open spec fn spec_elements(&self) -> Seq<Request<S, G>> {
        self.elements@
    }

    pub open spec fn spec_tags(&self) -> Seq<u16> {
        tags_of(self.spec_elements())
    }

    /// Every free index is a slot.
    pub open spec fn wf(&self) -> bool {
        forall|j: int| 0 <= j < self.free@.len() ==> self.free@[j] < self.elements@.len()
    }

    /// `size` free slots, to be handed out from index 0 up.
    pub fn new(size: usize) -> (r: Reqq<S, G>)
        ensures
            r.wf(),
            r.spec_elements().len() == size,
            forall|n: int| 0 <= n < size ==> (#[trigger] r.spec_elements()[n]).index == n as u16
                && r.spec_elements()[n].tag == 0 && r.spec_elements()[n].request_tx is None
                && r.spec_elements()[n].trigger is None,
            r.spec_free().len() == size,
            forall|n: int| 0 <= n < size ==> #[trigger] r.spec_free()[n] == size - 1 - n,
    {
        let mut elements: Vec<Request<S, G>> = Vec::new();
        let mut free: Vec<usize> = Vec::new();
        let mut n: usize = 0;
        while n < size
            invariant
                n <= size,
                elements@.len() == n,
                free@.len() == n,
                forall|k: int| 0 <= k < n ==> (#[trigger] elements@[k]).index == k as u16
                    && elements@[k].tag == 0 && elements@[k].request_tx is None
                    && elements@[k].trigger is None,
                forall|k: int| 0 <= k < n ==> #[trigger] free@[k] == size - 1 - k,
            decreases size - n,
        {
            elements.push(Request::new(n as u16));
            free.push(size - 1 - n);
            n = n + 1;
        }
        Reqq { elements, free }
    }

    /// Takes the slot on top of the free stack for `req2`: its tag moves on and it takes
    /// the sender and trigger of `req2`. Returns the slot and the new tag, or `u16::MAX`
    /// twice where no slot is free.
    pub fn allocate(&mut self, req2: Request<S, G>) -> (r: (u16, u16))
        requires
            old(self).wf(),
        ensures
            final(self).wf(),
            ({
                let (tags, free, res) = alloc_spec(old(self).spec_tags(), old(self).spec_free());
                &&& r == res
                &&& final(self).spec_tags() == tags
                &&& final(self).spec_free() == free
            }),
            final(self).spec_elements().len() == old(self).spec_elements().len(),
            old(self).spec_free().len() == 0 ==> final(self).spec_elements() == old(self).spec_elements(),
            old(self).spec_free().len() > 0 ==> ({
                let i = old(self).spec_free().last() as int;
                &&& final(self).spec_elements()[i].request_tx == req2.request_tx
                &&& final(self).spec_elements()[i].trigger == req2.trigger
                &&& final(self).spec_elements()[i].index == old(self).spec_elements()[i].index
                &&& forall|j: int| 0 <= j < old(self).spec_elements().len() && j != i
                    ==> #[trigger] final(self).spec_elements()[j] == old(self).spec_elements()[j]
            }),
    {
        if self.free.len() < 1 {
            return (u16::MAX, u16::MAX);
        }
        let idx = self.free.pop().unwrap();
        let ghost old_e = self.elements@;
        let mut req = self.elements.remove(idx);
        req.tag = req.tag.wrapping_add(1);
        req.request_tx = req2.request_tx;
        req.trigger = req2.trigger;
        let tag = req.tag;
        self.elements.insert(idx, req);
        proof {
            assert(self.elements@ =~= old_e.update(idx as int, req));
            assert(self.spec_tags() =~= tags_of(old_e).update(idx as int, tag));
            assert(tag == next_tag(old_e[idx as int].tag));
        }
        (idx as u16, tag)
    }

    /// Frees slot `idx` when its tag is `tag`: its tag moves on, its sender and trigger go,
    /// and it goes on top of the free stack. Returns whether it was freed.
    pub fn free(&mut self, idx: u16, tag: u16) -> (r: bool)
        requires
            old(self).wf(),
        ensures
            final(self).wf(),
            ({
                let (tags, free, res) = free_spec(old(self).spec_tags(), old(self).spec_free(), idx, tag);
                &&& r == res
                &&& final(self).spec_tags() == tags
                &&& final(self).spec_free() == free
            }),
            final(self).spec_elements().len() == old(self).spec_elements().len(),
            !r ==> final(self).spec_elements() == old(self).spec_elements(),
            r ==> final(self).spec_elements()[idx as int].request_tx is None
                && final(self).spec_elements()[idx as int].trigger is None,
    {
        if idx as usize >= self.elements.len() {
            return false;
        }
        if self.elements[idx as usize].tag != tag {
            return false;
        }
        let ghost old_e = self.elements@;
        let mut req = self.elements.remove(idx as usize);
        Reqq::clean_req(&mut req);
        self.elements.insert(idx as usize, req);
        self.free.push(idx as usize);
        proof {
            assert(self.elements@ =~= old_e.update(idx as int, req));
            assert(self.spec_tags() =~= tags_of(old_e).update(idx as int, next_tag(tag)));
        }
        true
    }

    /// Frees every slot's use and leaves no slot to hand out.
    pub fn clear_all(&mut self)
        ensures
            final(self).wf(),
            final(self).spec_free().len() == 0,
            final(self).spec_elements().len() == old(self).spec_elements().len(),
            forall|j: int| 0 <= j < old(self).spec_elements().len() ==> (#[trigger] final(self).spec_elements()[j]).tag
                == next_tag(old(self).spec_elements()[j].tag) && final(self).spec_elements()[j].request_tx is None
                && final(self).spec_elements()[j].trigger is None && final(self).spec_elements()[j].index
                == old(self).spec_elements()[j].index,
    {
        let n = self.elements.len();
        let mut i: usize = 0;
        let ghost old_e = self.elements@;
        while i < n
            invariant
                n == old_e.len(),
                self.elements@.len() == n,
                i <= n,
                forall|j: int| 0 <= j < i ==> (#[trigger] self.elements@[j]).tag == next_tag(old_e[j].tag)
                    && self.elements@[j].request_tx is None && self.elements@[j].trigger is None
                    && self.elements@[j].index == old_e[j].index,
                forall|j: int| i <= j < n ==> #[trigger] self.elements@[j] == old_e[j],
            decreases n - i,
        {
            let mut req = self.elements.remove(i);
            Reqq::clean_req(&mut req);
            self.elements.insert(i, req);
            i = i + 1;
        }
        self.free.clear();
    }

    fn clean_req(req: &mut Request<S, G>)
        ensures
            final(req).tag == next_tag(old(req).tag),
            final(req).request_tx is None,
            final(req).trigger is None,
            final(req).index == old(req).index,
            final(req).write_out == old(req).write_out,
    {
        req.tag = req.tag.wrapping_add(1);
        req.request_tx = None;
        req.trigger = None;
    }
}

/// The largest round trip time that a tunnel keeps, in milliseconds.
pub const RTT_BOUND: i64 = 0x0200_0000_0000_0000;

/// The sum of the round trip times `q`.
pub open spec fn rtt_total(q: Seq<i64>) -> int
    decreases q.len(),
{
    if q.len() == 0 {
        0
    } else {
        rtt_total(q.drop_last()) + q.last()
    }
}

pub proof fn lemma_rtt_total_update(q: Seq<i64>, i: int, v: i64)
    requires
        0 <= i < q.len(),
    ensures
        rtt_total(q.update(i, v)) == rtt_total(q) - q[i] + v,
    decreases q.len(),
{
    if i < q.len() - 1 {
        lemma_rtt_total_update(q.drop_last(), i, v);
        assert(q.update(i, v).drop_last() =~= q.drop_last().update(i, v));
    } else {
        assert(q.update(i, v).drop_last() =~= q.drop_last());
    }
}

pub proof fn lemma_rtt_total_bounds(q: Seq<i64>)
    requires
        forall|j: int| 0 <= j < q.len() ==> 0 <= #[trigger] q[j] <= RTT_BOUND,
    ensures
        0 <= rtt_total(q) <= q.len() * RTT_BOUND,
    decreases q.len(),
{
    if q.len() > 0 {
        lemma_rtt_total_bounds(q.drop_last());
    }
}

/// What a request is handed: the sender of its tunnel, and its tunnel, slot and tag.
pub struct TunStub<S> {
    pub tunnel_tx: S,
    pub tun_idx: u16,
    pub req_idx: u16,
    pub req_tag: u16,
    pub request_quota: u16,
}

/// One tunnel to the relay: its request slots and a window of its last five round trip times.
pub struct Tunnel<S, G> {
    pub tx: S,
    pub index: usize,
    pub requests: Reqq<S, G>,
    pub capacity: u16,
    pub rtt_queue: Vec<i64>,
    pub rtt_index: usize,
    pub rtt_sum: i64,
    pub req_count: u16,
    pub ping_count: u8,
    pub rawfd: i32,
    pub busy: usize,
    pub request_quota: u16,
}

impl<S, G> Tunnel<S, G> {
    pub open spec fn spec_rtt_queue(&self) -> Seq<i64> {
        self.rtt_queue@
    }

    pub open spec fn spec_rtt_sum(&self) -> i64 {
        self.rtt_sum
    }

    pub open spec fn spec_rtt_index(&self) -> usize {
        self.rtt_index
    }

    pub open spec fn spec_req_count(&self) -> u16 {
        self.req_count
    }

    pub open spec fn spec_busy(&self) -> usize {
        self.busy
    }

    pub open spec fn spec_ping_count(&self) -> u8 {
        self.ping_count
    }

    pub open spec fn spec_rawfd(&self) -> i32 {
        self.rawfd
    }

    pub open spec fn spec_request_quota(&self) -> u16 {
        self.request_quota
    }

    /// The mean of the round trip times in the window.
    pub open spec fn spec_rtt(&self) -> i64 {
        (self.spec_rtt_sum() / 5) as i64
    }

    /// The window holds five times within bounds, and the sum is their sum.
    pub open spec fn wf(&self) -> bool {
        &&& self.spec_rtt_queue().len() == 5
        &&& self.spec_rtt_index() < 5
        &&& self.spec_rtt_sum() == rtt_total(self.spec_rtt_queue())
        &&& forall|j: int| 0 <= j < 5 ==> 0 <= #[trigger] self.spec_rtt_queue()[j] <= RTT_BOUND
        &&& self.requests.wf()
    }

    /// A tunnel at index `idx` with `cap` request slots.
    pub fn new(tx: S, rawfd: i32, idx: usize, cap: usize, quota: usize) -> (t: Tunnel<S, G>)
        ensures
            t.wf(),
            t.tx == tx,
            t.index == idx,
            t.capacity == cap as u16,
            t.requests.spec_elements().len() == cap,
            t.requests.spec_free().len() == cap,
            t.spec_rtt_queue() == seq![0i64, 0, 0, 0, 0],
            t.spec_rtt_index() == 0,
            t.spec_rtt_sum() == 0,
            t.spec_req_count() == 0,
            t.spec_ping_count() == 0,
            t.spec_rawfd() == rawfd,
            t.spec_busy() == 0,
            t.spec_request_quota() == quota as u16,
            cap <= u16::MAX ==> t.counts_slots(),
    {
        let mut rtt_queue: Vec<i64> = Vec::new();
        rtt_queue.push(0);
        rtt_queue.push(0);
        rtt_queue.push(0);
        rtt_queue.push(0);
        rtt_queue.push(0);
        let t = Tunnel {
            tx,
            index: idx,
            requests: Reqq::new(cap),
            capacity: cap as u16,
            rtt_queue,
            rtt_index: 0,
            rtt_sum: 0,
            req_count: 0,
            ping_count: 0,
            rawfd,
            busy: 0,
            request_quota: quota as u16,
        };
        proof {
            assert(t.rtt_queue@ =~= seq![0i64, 0, 0, 0, 0]);
            reveal_with_fuel(rtt_total, 6);
            let f = t.requests.spec_free();
            assert forall|a: int, b: int| 0 <= a < f.len() && 0 <= b < f.len() && a != b implies f[a]
                != f[b] by {
                assert(f[a] == cap - 1 - a && f[b] == cap - 1 - b);
            }
        }
        t
    }

    /// Puts `rtt` into the window in place of the oldest time.
    /// The request count is the number of allocated slots, those not on the free stack,
    /// which holds each slot once; slots are numbered by 16 bits.
    pub open spec fn counts_slots(&self) -> bool {
        &&& self.requests.spec_free().no_duplicates()
        &&& self.requests.spec_elements().len() <= u16::MAX
        &&& self.spec_req_count() == self.requests.spec_elements().len() - self.requests.spec_free().len()
    }

    pub fn append_rtt(&mut self, rtt: i64)
        requires
            old(self).wf(),
            0 <= rtt <= RTT_BOUND,
        ensures
            final(self).wf(),
            final(self).spec_rtt_queue() == old(self).spec_rtt_queue().update(
                old(self).spec_rtt_index() as int,
                rtt,
            ),
            final(self).spec_rtt_index() == (old(self).spec_rtt_index() + 1) % 5,
            final(self).spec_req_count() == old(self).spec_req_count(),
            final(self).spec_ping_count() == old(self).spec_ping_count(),
            final(self).spec_busy() == old(self).spec_busy(),
            final(self).requests == old(self).requests,
            final(self).index == old(self).index,
            final(self).capacity == old(self).capacity,
    {
        let ghost q = self.rtt_queue@;
        let rtt_remove = self.rtt_queue[self.rtt_index];
        self.rtt_queue.set(self.rtt_index, rtt);
        let len = self.rtt_queue.len();
        self.rtt_index = (self.rtt_index + 1) % len;
        proof {
            lemma_rtt_total_update(q, old(self).rtt_index as int, rtt);
            lemma_rtt_total_bounds(self.rtt_queue@);
            lemma_rtt_total_bounds(q);
        }
        self.rtt_sum = self.rtt_sum + rtt - rtt_remove;
    }

    /// The mean round trip time of the window.
    pub fn get_rtt(&self) -> (r: i64)
        requires
            self.wf(),
        ensures
            r == self.spec_rtt(),
            0 <= r <= RTT_BOUND,
    {
        proof {
            lemma_rtt_total_bounds(self.rtt_queue@);
        }
        self.rtt_sum / (self.rtt_queue.len() as i64)
    }

    pub fn reset_busy(&mut self)
        ensures
            final(self).spec_busy() == 0,
            final(self).spec_rtt_queue() == old(self).spec_rtt_queue(),
            final(self).spec_rtt_index() == old(self).spec_rtt_index(),
            final(self).spec_rtt_sum() == old(self).spec_rtt_sum(),
            final(self).spec_req_count() == old(self).spec_req_count(),
            final(self).requests == old(self).requests,
            final(self).index == old(self).index,
            final(self).capacity == old(self).capacity,
    {
        self.busy = 0;
    }

    pub fn get_busy(&self) -> (r: usize)
        ensures
            r == self.spec_busy(),
    {
        self.busy
    }

    pub fn get_req_count(&self) -> (r: u16)
        ensures
            r == self.spec_req_count(),
    {
        self.req_count
    }

    /// The sender of the request in slot `req_idx` when its tag is `req_tag` and it has one.
    pub fn get_request_tx(&self, req_idx: u16, req_tag: u16) -> (r: Option<&S>)
        ensures
            ({
                let e = self.requests.spec_elements();
                if req_idx < e.len() && e[req_idx as int].tag == req_tag
                    && e[req_idx as int].request_tx is Some {
                    r == Some(&e[req_idx as int].request_tx->0)
                } else {
                    r is None
                }
            }),
    {
        let idx = req_idx as usize;
        if idx >= self.requests.elements.len() {
            return None;
        }
        let req = &self.requests.elements[idx];
        if req.tag == req_tag {
            match &req.request_tx {
                Some(tx) => Some(tx),
                None => None,
            }
        } else {
            None
        }
    }

    /// Takes a request of this tunnel into a free slot; the slot, its tag and the sender of
    /// the tunnel go to the request. `None` where no slot is free.
    pub fn on_request_created(&mut self, req: Request<S, G>) -> (r: Option<TunStub<S>>)
        where S: Clone
        requires
            old(self).wf(),
        ensures
            final(self).wf(),
            ({
                let (tags, free, res) = alloc_spec(old(self).requests.spec_tags(), old(self).requests.spec_free());
                &&& final(self).requests.spec_tags() == tags
                &&& final(self).requests.spec_free() == free
                &&& match r {
                    None => res.0 == u16::MAX && final(self).spec_req_count() == old(self).spec_req_count(),
                    Some(ts) => res.0 != u16::MAX && ts.req_idx == res.0 && ts.req_tag == res.1
                        && ts.tun_idx == old(self).index as u16
                        && ts.request_quota == old(self).spec_request_quota()
                        && final(self).spec_req_count() == (if old(self).spec_req_count() < u16::MAX {
                            old(self).spec_req_count() + 1
                        } else {
                            old(self).spec_req_count() as int
                        }),
                }
            }),
            final(self).index == old(self).index,
            final(self).capacity == old(self).capacity,
            final(self).spec_rtt_queue() == old(self).spec_rtt_queue(),
            final(self).spec_rtt_sum() == old(self).spec_rtt_sum(),
            old(self).requests.spec_free().len() == 0 ==> r is None && *final(self) == *old(self),
            old(self).counts_slots() ==> final(self).counts_slots(),
    {
        if self.requests.free.len() == 0 {
            return None;
        }
        proof {
            if old(self).counts_slots() {
                crate::laws::law_request_count(
                    old(self).requests.spec_tags(),
                    old(self).requests.spec_free(),
                    old(self).spec_req_count() as int,
                    0,
                    0,
                );
            }
        }
        let (idx, tag) = self.requests.allocate(req);
        if idx == u16::MAX {
            return None;
        }
        let tun_idx = self.index as u16;
        if self.req_count < u16::MAX {
            self.req_count = self.req_count + 1;
        }
        Some(TunStub {
            tunnel_tx: self.tx.clone(),
            tun_idx,
            req_idx: idx,
            req_tag: tag,
            request_quota: self.request_quota,
        })
    }

    /// Frees the slot of a closed request; returns whether the slot was the request's.
    pub fn on_request_closed(&mut self, tunstub: &TunStub<S>) -> (r: bool)
        requires
            old(self).wf(),
        ensures
            final(self).wf(),
            ({
                let (tags, free, res) = free_spec(
                    old(self).requests.spec_tags(),
                    old(self).requests.spec_free(),
                    tunstub.req_idx,
                    tunstub.req_tag,
                );
                &&& r == res
                &&& final(self).requests.spec_tags() == tags
                &&& final(self).requests.spec_free() == free
                &&& final(self).spec_req_count() == (if r && old(self).spec_req_count() > 0 {
                    old(self).spec_req_count() - 1
                } else {
                    old(self).spec_req_count() as int
                })
            }),
            final(self).index == old(self).index,
            final(self).capacity == old(self).capacity,
            final(self).spec_rtt_queue() == old(self).spec_rtt_queue(),
            final(self).spec_rtt_sum() == old(self).spec_rtt_sum(),
            old(self).counts_slots() && (r ==> !old(self).requests.spec_free().contains(
                tunstub.req_idx as usize,
            )) ==> final(self).counts_slots(),
    {
        proof {
            if old(self).counts_slots() {
                crate::laws::law_request_count(
                    old(self).requests.spec_tags(),
                    old(self).requests.spec_free(),
                    old(self).spec_req_count() as int,
                    tunstub.req_idx,
                    tunstub.req_tag,
                );
            }
        }
        let r = self.requests.free(tunstub.req_idx, tunstub.req_tag);
        if r && self.req_count > 0 {
            self.req_count = self.req_count - 1;
        }
        r
    }

    /// Frees all requests of the closed tunnel.
    pub fn on_closed(&mut self)
        requires
            old(self).wf(),
        ensures
            final(self).wf(),
            final(self).requests.spec_free().len() == 0,
            final(self).index == old(self).index,
            final(self).capacity == old(self).capacity,
    {
        self.requests.clear_all();
    }

    /// Handles the payload of a pong, received at `now_ms` milliseconds into the tunnel's
    /// life: a payload of eight bytes holds the time of the ping, which gives a round trip time.
    pub fn on_pong(&mut self, bs: &[u8], now_ms: u64)
        requires
            old(self).wf(),
            now_ms <= RTT_BOUND,
            bs@.len() == 8 ==> read_u64_le(bs@) <= now_ms,
        ensures
            final(self).wf(),
            bs@.len() != 8 ==> *final(self) == *old(self),
            final(self).index == old(self).index,
            final(self).capacity == old(self).capacity,
            final(self).requests == old(self).requests,
            final(self).spec_busy() == old(self).spec_busy(),
            final(self).spec_req_count() == old(self).spec_req_count(),
            bs@.len() == 8 ==> final(self).spec_ping_count() == 0
                && final(self).spec_rtt_queue() == old(self).spec_rtt_queue().update(
                    old(self).spec_rtt_index() as int,
                    (now_ms - read_u64_le(bs@)) as i64,
                ),
    {
        if bs.len() != 8 {
            return;
        }
        self.ping_count = 0;
        let timestamp = u64_from_le(bs);
        let rtt = (now_ms - timestamp) as i64;
        self.append_rtt(rtt);
    }
}

/// The commands of the tunnel protocol.
#[derive(PartialEq, Eq, Structural)]
pub enum Cmd {
    ReqData,
    ReqCreated,
    ReqClientClosed,
    ReqClientFinished,
    ReqServerFinished,
    ReqServerClosed,
    ReqClientQuota,
    Ping,
    Pong,
    Other,
}

impl<S, G> Tunnel<S, G> {
    /// Drops the sender of the request in slot `req_idx` when its tag is `req_tag`.
    pub fn free_request_tx(&mut self, req_idx: u16, req_tag: u16)
        ensures
            final(self).requests.spec_free() == old(self).requests.spec_free(),
            final(self).requests.spec_elements().len() == old(self).requests.spec_elements().len(),
            forall|j: int| 0 <= j < old(self).requests.spec_elements().len() ==> {
                let e0 = old(self).requests.spec_elements()[j];
                let e1 = #[trigger] final(self).requests.spec_elements()[j];
                &&& e1.index == e0.index
                &&& e1.tag == e0.tag
                &&& e1.trigger == e0.trigger
                &&& e1.request_tx == (if j == req_idx && e0.tag == req_tag { None } else { e0.request_tx })
            },
            final(self).index == old(self).index,
            final(self).capacity == old(self).capacity,
            final(self).tx == old(self).tx,
            final(self).spec_rtt_queue() == old(self).spec_rtt_queue(),
            final(self).spec_rtt_index() == old(self).spec_rtt_index(),
            final(self).spec_rtt_sum() == old(self).spec_rtt_sum(),
            final(self).spec_req_count() == old(self).spec_req_count(),
            final(self).spec_ping_count() == old(self).spec_ping_count(),
            final(self).spec_busy() == old(self).spec_busy(),
            final(self).rawfd == old(self).rawfd,
            final(self).request_quota == old(self).request_quota,
    {
        let idx = req_idx as usize;
        if idx >= self.requests.elements.len() {
            return;
        }
        if self.requests.elements[idx].tag != req_tag {
            return;
        }
        let ghost old_e = self.requests.elements@;
        let mut req = self.requests.elements.remove(idx);
        req.request_tx = None;
        self.requests.elements.insert(idx, req);
        proof {
            assert(self.requests.elements@ =~= old_e.update(idx as int, req));
        }
    }

    /// Handles a message from the relay: `cmd` with the request slot and tag of its
    /// header, `body` after the header, `len` bytes after the length field, received at
    /// `now_ms` milliseconds into the tunnel's life. Returns the sender of the request to
    /// which a data message goes, if that request is still there.
    pub fn on_tunnel_msg(&mut self, cmd: Cmd, req_idx: u16, req_tag: u16, body: &[u8], len: usize, now_ms: u64) -> (r: Option<S>)
        where S: Clone
        requires
            old(self).wf(),
            cmd == Cmd::Pong ==> now_ms <= RTT_BOUND,
            cmd == Cmd::Pong && body@.len() == 8 ==> read_u64_le(body@) <= now_ms,
        ensures
            final(self).wf(),
            final(self).index == old(self).index,
            final(self).capacity == old(self).capacity,
            final(self).spec_busy() == (if old(self).spec_busy() + len > usize::MAX {
                old(self).spec_busy() + len - (usize::MAX + 1)
            } else {
                old(self).spec_busy() + len
            }),
            cmd != Cmd::ReqData ==> r is None,
            cmd == Cmd::ReqData ==> ({
                let e = old(self).requests.spec_elements();
                &&& (r is Some <==> (req_idx < e.len() && e[req_idx as int].tag == req_tag
                    && e[req_idx as int].request_tx is Some))
                &&& r matches Some(tx) ==> cloned::<S>(e[req_idx as int].request_tx->0, tx)
            }),
            cmd == Cmd::ReqData || cmd == Cmd::Ping || cmd == Cmd::Other || cmd == Cmd::ReqCreated
                || cmd == Cmd::ReqClientClosed || cmd == Cmd::ReqClientFinished || cmd == Cmd::ReqClientQuota
                ==> final(self).requests == old(self).requests
                && final(self).spec_req_count() == old(self).spec_req_count()
                && final(self).spec_rtt_queue() == old(self).spec_rtt_queue(),
            cmd == Cmd::Pong ==> final(self).requests == old(self).requests && (body@.len() == 8 ==> final(self).spec_ping_count() == 0
                && final(self).spec_rtt_queue() == old(self).spec_rtt_queue().update(
                    old(self).spec_rtt_index() as int,
                    (now_ms - read_u64_le(body@)) as i64,
                )),
            cmd == Cmd::ReqServerFinished ==> final(self).requests.spec_tags() == old(self).requests.spec_tags()
                && final(self).requests.spec_free() == old(self).requests.spec_free()
                && final(self).spec_req_count() == old(self).spec_req_count()
                && final(self).requests.spec_elements().len() == old(self).requests.spec_elements().len()
                && forall|j: int| 0 <= j < old(self).requests.spec_elements().len() ==> {
                    let e0 = old(self).requests.spec_elements()[j];
                    let e1 = #[trigger] final(self).requests.spec_elements()[j];
                    &&& e1.index == e0.index
                    &&& e1.tag == e0.tag
                    &&& e1.trigger == e0.trigger
                    &&& e1.request_tx == (if j == req_idx && e0.tag == req_tag { None } else { e0.request_tx })
                },
            cmd == Cmd::ReqServerClosed ==> ({
                let (tags, free, res) = free_spec(
                    old(self).requests.spec_tags(),
                    old(self).requests.spec_free(),
                    req_idx,
                    req_tag,
                );
                &&& final(self).requests.spec_tags() == tags
                &&& final(self).requests.spec_free() == free
                &&& (res ==> final(self).requests.spec_elements()[req_idx as int].request_tx is None)
                &&& final(self).spec_req_count() == (if res && old(self).spec_req_count() > 0 {
                    old(self).spec_req_count() - 1
                } else {
                    old(self).spec_req_count() as int
                })
            }),
            old(self).counts_slots() && (cmd == Cmd::ReqServerClosed && free_spec(
                old(self).requests.spec_tags(),
                old(self).requests.spec_free(),
                req_idx,
                req_tag,
            ).2 ==> !old(self).requests.spec_free().contains(req_idx as usize))
                ==> final(self).counts_slots(),
    {
        proof {
            if old(self).counts_slots() {
                crate::laws::law_request_count(
                    old(self).requests.spec_tags(),
                    old(self).requests.spec_free(),
                    old(self).spec_req_count() as int,
                    req_idx,
                    req_tag,
                );
            }
        }
        self.busy = self.busy.wrapping_add(len);
        match cmd {
            Cmd::Pong => {
                self.on_pong(body, now_ms);
                None
            },
            Cmd::ReqData => {
                match self.get_request_tx(req_idx, req_tag) {
                    Some(tx) => Some(tx.clone()),
                    None => None,
                }
            },
            Cmd::ReqServerFinished => {
                let ghost e0 = self.requests.spec_elements();
                self.free_request_tx(req_idx, req_tag);
                proof {
                    assert(self.requests.spec_tags() =~= tags_of(e0));
                }
                None
            },
            Cmd::ReqServerClosed => {
                let r = self.requests.free(req_idx, req_tag);
                if r && self.req_count > 0 {
                    self.req_count = self.req_count - 1;
                }
                None
            },
            _ => None,
        }
    }

    /// A ping is due: fewer than eleven have gone unanswered.
    pub fn ping_due(&self) -> (r: bool)
        ensures
            r <==> self.spec_ping_count() <= 10,
    {
        self.ping_count <= 10
    }

    /// A ping went out: one more is unanswered, and each unanswered one before it counts
    /// as a keepalive interval of round trip time.
    pub fn on_ping_sent(&mut self)
        requires
            old(self).wf(),
            old(self).spec_ping_count() <= 10,
        ensures
            final(self).wf(),
            final(self).spec_ping_count() == old(self).spec_ping_count() + 1,
            old(self).spec_ping_count() == 0 ==> final(self).spec_rtt_queue() == old(self).spec_rtt_queue(),
            old(self).spec_ping_count() > 0 ==> final(self).spec_rtt_queue() == old(self).spec_rtt_queue().update(
                old(self).spec_rtt_index() as int,
                (old(self).spec_ping_count() * KEEP_ALIVE_INTERVAL) as i64,
            ),
            final(self).requests == old(self).requests,
            final(self).index == old(self).index,
            final(self).capacity == old(self).capacity,
    {
        let c = self.ping_count;
        if c > 0 {
            let rtt = (c as i64) * (KEEP_ALIVE_INTERVAL as i64);
            self.append_rtt(rtt);
        }
        self.ping_count = c + 1;
    }
}

/// The little endian number in the first eight bytes of `b`.
pub open spec fn read_u64_le(b: Seq<u8>) -> u64 {
    (b[0] as int + b[1] as int * 0x100 + b[2] as int * 0x10000 + b[3] as int * 0x1000000
        + b[4] as int * 0x100000000 + b[5] as int * 0x10000000000 + b[6] as int * 0x1000000000000
        + b[7] as int * 0x100000000000000) as u64
}

/// Reads a little endian `u64` from the first eight bytes of `b`.
pub fn u64_from_le(b: &[u8]) -> (r: u64)
    requires
        b@.len() >= 8,
    ensures
        r == read_u64_le(b@),
{
    let r = b[0] as u64 + b[1] as u64 * 0x100 + b[2] as u64 * 0x10000 + b[3] as u64 * 0x1000000
        + b[4] as u64 * 0x100000000 + b[5] as u64 * 0x10000000000 + b[6] as u64 * 0x1000000000000
        + b[7] as u64 * 0x100000000000000;
    r
}

/// The tunnel can take one more request.
pub open spec fn has_room<S, G>(t: Option<Tunnel<S, G>>) -> bool {
    t matches Some(tun) && (tun.req_count as int) + 1 < tun.capacity as int
}

/// Tunnel `a` is a better choice than tunnel `b`: a shorter round trip time, or the same
/// time and fewer requests.
pub open spec fn better<S, G>(a: Tunnel<S, G>, b: Tunnel<S, G>) -> bool {
    a.spec_rtt() < b.spec_rtt() || (a.spec_rtt() == b.spec_rtt() && a.req_count < b.req_count)
}

/// Tunnel `i` is the first of the best tunnels with room.
pub open spec fn best_choice<S, G>(ts: Seq<Option<Tunnel<S, G>>>, i: int) -> bool {
    &&& 0 <= i < ts.len()
    &&& has_room(ts[i])
    &&& forall|j: int| 0 <= j < i && has_room(#[trigger] ts[j]) ==> better(ts[i]->0, ts[j]->0)
    &&& forall|j: int| i < j < ts.len() && has_room(#[trigger] ts[j]) ==> !better(ts[j]->0, ts[i]->0)
}

/// The tunnel `t` has a request slot to hand out: allocating in it gives a slot number
/// other than `u16::MAX`.
pub open spec fn slot_free<S, G>(t: Tunnel<S, G>) -> bool {
    alloc_spec(t.requests.spec_tags(), t.requests.spec_free()).2.0 != u16::MAX
}

/// There is at most one best tunnel.
pub proof fn lemma_best_choice_unique<S, G>(ts: Seq<Option<Tunnel<S, G>>>, i: int, j: int)
    requires
        best_choice(ts, i),
        best_choice(ts, j),
    ensures
        i == j,
{
    if i < j {
        assert(has_room(ts[i]));
        assert(better(ts[j]->0, ts[i]->0));
    } else if j < i {
        assert(has_room(ts[j]));
        assert(better(ts[i]->0, ts[j]->0));
    }
}

/// The manager of a set of tunnels: it places new tunnels in their slots, queues closed
/// ones for reconnection, and hands each request to the best tunnel.
pub struct TunMgr<S, G> {
    pub relay_domain: String,
    pub relay_port: u16,
    pub url: String,
    pub capacity: usize,
    pub tunnel_req_cap: usize,
    pub request_quota: usize,
    pub token: String,
    pub tunnels: Vec<Option<Tunnel<S, G>>>,
    pub reconnect_queue: Vec<u16>,
    pub discarded: bool,
}

impl<S, G> TunMgr<S, G> {
    /// Every tunnel in place is well formed and sits at its own index, and each slot has a
    /// 16-bit number, as request stubs carry it.
    pub open spec fn wf(&self) -> bool {
        &&& self.tunnels@.len() <= u16::MAX + 1
        &&& forall|i: int| 0 <= i < self.tunnels@.len() && (#[trigger] self.tunnels@[i]) is Some
            ==> self.tunnels@[i]->0.wf() && self.tunnels@[i]->0.index == i
    }

    /// A manager for the tunnels that `cfg` asks for, none of them connected yet.
    pub fn new(cfg: &TunCfg) -> (r: TunMgr<S, G>)
        requires
            cfg.tunnel_number <= u16::MAX + 1,
        ensures
            r.wf(),
            r.capacity == cfg.tunnel_number,
            r.tunnels@.len() == cfg.tunnel_number,
            forall|i: int| 0 <= i < r.tunnels@.len() ==> #[trigger] r.tunnels@[i] is None,
            r.reconnect_queue@.len() == 0,
            !r.discarded,
            r.url@ == cfg.tunnel_url@,
            r.relay_domain@ == cfg.relay_domain@,
            r.relay_port == cfg.relay_port,
            r.tunnel_req_cap == cfg.tunnel_req_cap,
            r.request_quota == cfg.request_quota,
            r.token@ == cfg.token@,
    {
        let capacity = cfg.tunnel_number;
        let mut vec: Vec<Option<Tunnel<S, G>>> = Vec::new();
        let mut n: usize = 0;
        while n < capacity
            invariant
                n <= capacity,
                vec@.len() == n,
                forall|i: int| 0 <= i < n ==> #[trigger] vec@[i] is None,
            decreases capacity - n,
        {
            vec.push(None);
            n = n + 1;
        }
        TunMgr {
            url: cfg.tunnel_url.clone(),
            capacity,
            tunnel_req_cap: cfg.tunnel_req_cap,
            request_quota: cfg.request_quota,
            token: cfg.token.clone(),
            tunnels: vec,
            reconnect_queue: Vec::new(),
            relay_domain: cfg.relay_domain.clone(),
            relay_port: cfg.relay_port,
            discarded: false,
        }
    }

    /// Places a connected tunnel in its slot; an error once the manager is stopped.
    pub fn on_tunnel_created(&mut self, tun: Tunnel<S, G>) -> (r: Result<(), ()>)
        requires
            old(self).wf(),
            tun.wf(),
            !old(self).discarded ==> tun.index < old(self).tunnels@.len()
                && old(self).tunnels@[tun.index as int] is None,
        ensures
            final(self).wf(),
            r is Err <==> old(self).discarded,
            r is Err ==> final(self).tunnels@ == old(self).tunnels@,
            r is Ok ==> final(self).tunnels@ == old(self).tunnels@.update(tun.index as int, Some(tun)),
            final(self).reconnect_queue@ == old(self).reconnect_queue@,
            final(self).discarded == old(self).discarded,
    {
        if self.discarded {
            return Err(());
        }
        let index = tun.index;
        self.tunnels.set(index, Some(tun));
        Ok(())
    }

    /// Takes the closed tunnel `index` out, frees its requests, and queues its slot for
    /// reconnection unless the manager is stopped.
    pub fn on_tunnel_closed(&mut self, index: usize)
        requires
            old(self).wf(),
            index < old(self).tunnels@.len(),
        ensures
            final(self).wf(),
            final(self).tunnels@ == old(self).tunnels@.update(index as int, None),
            final(self).reconnect_queue@ == (if old(self).tunnels@[index as int] is Some
                && !old(self).discarded {
                old(self).reconnect_queue@.push(index as u16)
            } else {
                old(self).reconnect_queue@
            }),
            final(self).discarded == old(self).discarded,
    {
        let t = self.on_tunnel_closed_interal(index);
        match t {
            Some(mut t) => {
                t.on_closed();
                if self.discarded {
                    return;
                } else {
                    self.reconnect_queue.push(index as u16);
                }
            },
            None => {},
        }
    }

    fn on_tunnel_closed_interal(&mut self, index: usize) -> (r: Option<Tunnel<S, G>>)
        requires
            old(self).wf(),
            index < old(self).tunnels@.len(),
        ensures
            final(self).wf(),
            r == old(self).tunnels@[index as int],
            r matches Some(t) ==> t.wf(),
            final(self).tunnels@ == old(self).tunnels@.update(index as int, None),
            final(self).reconnect_queue@ == old(self).reconnect_queue@,
            final(self).discarded == old(self).discarded,
    {
        let t = self.tunnels.remove(index);
        self.tunnels.insert(index, None);
        proof {
            assert(self.tunnels@ =~= old(self).tunnels@.update(index as int, None));
        }
        t
    }

    /// Queues slot `index` for reconnection unless the manager is stopped.
    pub fn on_tunnel_build_error(&mut self, index: usize)
        ensures
            final(self).tunnels@ == old(self).tunnels@,
            final(self).reconnect_queue@ == (if old(self).discarded {
                old(self).reconnect_queue@
            } else {
                old(self).reconnect_queue@.push(index as u16)
            }),
            final(self).discarded == old(self).discarded,
    {
        if self.discarded {
            return;
        }
        self.reconnect_queue.push(index as u16);
    }

    /// The first of the tunnels with room that have the shortest round trip time and, among
    /// those, the fewest requests; `None` where no tunnel has room.
    pub fn alloc_tunnel_for_req(&self) -> (r: Option<usize>)
        requires
            self.wf(),
        ensures
            match r {
                Some(i) => best_choice(self.tunnels@, i as int),
                None => forall|j: int| 0 <= j < self.tunnels@.len() ==> !has_room(#[trigger] self.tunnels@[j]),
            },
    {
        let n = self.tunnels.len();
        let mut tselected: Option<usize> = None;
        let mut i: usize = 0;
        while i < n
            invariant
                n == self.tunnels@.len(),
                self.wf(),
                i <= n,
                match tselected {
                    Some(k) => k < i && has_room(self.tunnels@[k as int])
                        && (forall|j: int| 0 <= j < k && has_room(#[trigger] self.tunnels@[j])
                            ==> better(self.tunnels@[k as int]->0, self.tunnels@[j]->0))
                        && (forall|j: int| k < j < i && has_room(#[trigger] self.tunnels@[j])
                            ==> !better(self.tunnels@[j]->0, self.tunnels@[k as int]->0)),
                    None => forall|j: int| 0 <= j < i ==> !has_room(#[trigger] self.tunnels@[j]),
                },
            decreases n - i,
        {
            match &self.tunnels[i] {
                Some(tun) => {
                    let req_count_tun = tun.get_req_count();
                    if (req_count_tun as u32) + 1 < (tun.capacity as u32) {
                        let rtt_tun = tun.get_rtt();
                        match tselected {
                            None => {
                                tselected = Some(i);
                            },
                            Some(k) => {
                                let cur = self.tunnels[k].as_ref().unwrap();
                                let rtt = cur.get_rtt();
                                let req_count = cur.get_req_count();
                                if rtt_tun < rtt || (rtt_tun == rtt && req_count_tun < req_count) {
                                    proof {
                                        assert forall|j: int| 0 <= j < i && has_room(#[trigger] self.tunnels@[j])
                                            implies better(self.tunnels@[i as int]->0, self.tunnels@[j]->0) by {
                                            if j != k {
                                                if j < k {
                                                    assert(better(self.tunnels@[k as int]->0, self.tunnels@[j]->0));
                                                } else {
                                                    assert(!better(self.tunnels@[j]->0, self.tunnels@[k as int]->0));
                                                }
                                            }
                                        }
                                    }
                                    tselected = Some(i);
                                }
                            },
                        }
                    }
                },
                None => {},
            }
            i = i + 1;
        }
        tselected
    }

    /// Hands `req` to the best tunnel with room; `None` once the manager is stopped, where
    /// no tunnel has room, or where the best tunnel has no request slot to hand out.
    pub fn on_request_created(&mut self, req: Request<S, G>) -> (r: Option<TunStub<S>>)
        where S: Clone
        requires
            old(self).wf(),
        ensures
            final(self).wf(),
            old(self).discarded ==> r is None && final(self).tunnels@ == old(self).tunnels@,
            r matches Some(ts) ==> best_choice(old(self).tunnels@, ts.tun_idx as int) && ({
                let t = old(self).tunnels@[ts.tun_idx as int]->0;
                let (tags, free, res) = alloc_spec(t.requests.spec_tags(), t.requests.spec_free());
                let t2 = final(self).tunnels@[ts.tun_idx as int]->0;
                &&& res == (ts.req_idx, ts.req_tag)
                &&& final(self).tunnels@[ts.tun_idx as int] is Some
                &&& t2.requests.spec_tags() == tags
                &&& t2.requests.spec_free() == free
                &&& t2.spec_req_count() == (if t.spec_req_count() < u16::MAX {
                    t.spec_req_count() + 1
                } else {
                    t.spec_req_count() as int
                })
                &&& t.counts_slots() ==> t2.counts_slots()
            }),
            forall|j: int| 0 <= j < old(self).tunnels@.len() && !best_choice(old(self).tunnels@, j)
                ==> #[trigger] final(self).tunnels@[j] == old(self).tunnels@[j],
            r is None ==> forall|j: int| #[trigger] best_choice(old(self).tunnels@, j)
                && old(self).tunnels@[j]->0.requests.spec_free().len() == 0
                ==> final(self).tunnels@[j] == old(self).tunnels@[j],
            !old(self).discarded ==> (r is Some <==> exists|i: int|
                #[trigger] best_choice(old(self).tunnels@, i) && slot_free(old(self).tunnels@[i]->0)),
            final(self).tunnels@.len() == old(self).tunnels@.len(),
            final(self).reconnect_queue@ == old(self).reconnect_queue@,
            final(self).discarded == old(self).discarded,
    {
        if self.discarded {
            return None;
        }
        match self.alloc_tunnel_for_req() {
            Some(i) => {
                let mut t = self.tunnels.remove(i);
                let ghost t0 = t;
                let r = match &mut t {
                    Some(tun) => tun.on_request_created(req),
                    None => None,
                };
                self.tunnels.insert(i, t);
                proof {
                    assert(self.tunnels@ =~= old(self).tunnels@.update(i as int, t));
                    assert forall|j: int| 0 <= j < self.tunnels@.len() && (#[trigger] self.tunnels@[j]) is Some
                        implies self.tunnels@[j]->0.wf() && self.tunnels@[j]->0.index == j by {
                        if j != i {
                            assert(self.tunnels@[j] == old(self).tunnels@[j]);
                        }
                    }
                    if r is Some {
                        assert(t0->0.index == i);
                        assert(r->0.tun_idx as int == i);
                    }
                    assert(t0 == old(self).tunnels@[i as int]);
                    assert(r is Some <==> slot_free(old(self).tunnels@[i as int]->0));
                    assert forall|j: int| #[trigger] best_choice(old(self).tunnels@, j) implies j == i by {
                        lemma_best_choice_unique(old(self).tunnels@, i as int, j);
                    }
                }
                r
            },
            None => None,
        }
    }

    /// Frees the slot of a closed request in its tunnel, where that tunnel is still there;
    /// returns whether the slot was the request's.
    pub fn on_request_closed(&mut self, tunstub: &TunStub<S>) -> (r: bool)
        requires
            old(self).wf(),
            (tunstub.tun_idx as int) < old(self).tunnels@.len(),
        ensures
            final(self).wf(),
            final(self).tunnels@.len() == old(self).tunnels@.len(),
            old(self).tunnels@[tunstub.tun_idx as int] is None ==> !r
                && final(self).tunnels@ == old(self).tunnels@,
            old(self).tunnels@[tunstub.tun_idx as int] matches Some(t) ==> ({
                let (tags, free, res) = free_spec(
                    t.requests.spec_tags(),
                    t.requests.spec_free(),
                    tunstub.req_idx,
                    tunstub.req_tag,
                );
                let t2 = final(self).tunnels@[tunstub.tun_idx as int]->0;
                &&& r == res
                &&& final(self).tunnels@[tunstub.tun_idx as int] is Some
                &&& t2.requests.spec_tags() == tags
                &&& t2.requests.spec_free() == free
                &&& t2.spec_req_count() == (if r && t.spec_req_count() > 0 {
                    t.spec_req_count() - 1
                } else {
                    t.spec_req_count() as int
                })
                &&& t.counts_slots() && (r ==> !t.requests.spec_free().contains(tunstub.req_idx as usize))
                    ==> t2.counts_slots()
            }),
            forall|j: int| 0 <= j < old(self).tunnels@.len() && j != tunstub.tun_idx
                ==> #[trigger] final(self).tunnels@[j] == old(self).tunnels@[j],
            final(self).reconnect_queue@ == old(self).reconnect_queue@,
            final(self).discarded == old(self).discarded,
    {
        let tidx = tunstub.tun_idx as usize;
        let mut t = self.tunnels.remove(tidx);
        let r = match &mut t {
            Some(tun) => tun.on_request_closed(tunstub),
            None => false,
        };
        self.tunnels.insert(tidx, t);
        proof {
            assert(self.tunnels@ =~= old(self).tunnels@.update(tidx as int, t));
            assert forall|j: int| 0 <= j < self.tunnels@.len() && (#[trigger] self.tunnels@[j]) is Some
                implies self.tunnels@[j]->0.wf() && self.tunnels@[j]->0.index == j by {
                if j != tidx {
                    assert(self.tunnels@[j] == old(self).tunnels@[j]);
                }
            }
        }
        r
    }

    /// Takes the queued slots out for reconnection, the last queued first; nothing once the
    /// manager is stopped.
    pub fn process_reconnect(&mut self) -> (r: Vec<u16>)
        ensures
            old(self).discarded ==> r@.len() == 0 && final(self).reconnect_queue@ == old(self).reconnect_queue@,
            !old(self).discarded ==> r@ == old(self).reconnect_queue@.reverse()
                && final(self).reconnect_queue@.len() == 0,
            final(self).tunnels@ == old(self).tunnels@,
            final(self).discarded == old(self).discarded,
    {
        let mut r: Vec<u16> = Vec::new();
        if self.discarded {
            return r;
        }
        let ghost q = self.reconnect_queue@;
        while self.reconnect_queue.len() > 0
            invariant
                self.tunnels@ == old(self).tunnels@,
                self.discarded == old(self).discarded,
                q == old(self).reconnect_queue@,
                self.reconnect_queue@.len() <= q.len(),
                self.reconnect_queue@ == q.subrange(0, self.reconnect_queue@.len() as int),
                r@ == q.subrange(self.reconnect_queue@.len() as int, q.len() as int).reverse(),
            decreases self.reconnect_queue@.len(),
        {
            let ghost before = self.reconnect_queue@;
            let ghost r0 = r@;
            let index = self.reconnect_queue.pop().unwrap();
            r.push(index);
            proof {
                let k = self.reconnect_queue@.len() as int;
                assert(self.reconnect_queue@ == before.drop_last());
                assert(index == before.last());
                assert(self.reconnect_queue@ =~= q.subrange(0, k));
                assert(q.subrange(k, q.len() as int) =~= seq![index] + q.subrange(k + 1, q.len() as int));
                assert(r@ =~= q.subrange(k, q.len() as int).reverse());
            }
        }
        assert(r@ =~= q.reverse());
        r
    }

    /// Stops the manager: no more requests, tunnels or reconnections. Returns the sockets of
    /// the tunnels to shut down; nothing where the manager was stopped already.
    pub fn stop(&mut self) -> (r: Vec<i32>)
        ensures
            final(self).discarded,
            final(self).tunnels@ == old(self).tunnels@,
            final(self).reconnect_queue@ == old(self).reconnect_queue@,
            old(self).discarded ==> r@.len() == 0,
            !old(self).discarded ==> r@ == rawfds_of(old(self).tunnels@),
    {
        let mut r: Vec<i32> = Vec::new();
        if self.discarded {
            return r;
        }
        self.discarded = true;
        let n = self.tunnels.len();
        let mut i: usize = 0;
        while i < n
            invariant
                n == self.tunnels@.len(),
                i <= n,
                r@ == rawfds_of(self.tunnels@.subrange(0, i as int)),
            decreases n - i,
        {
            proof {
                assert(self.tunnels@.subrange(0, i + 1).drop_last() =~= self.tunnels@.subrange(0, i as int));
            }
            match &self.tunnels[i] {
                Some(tun) => {
                    r.push(tun.rawfd);
                },
                None => {},
            }
            i = i + 1;
        }
        assert(self.tunnels@.subrange(0, n as int) =~= self.tunnels@);
        r
    }
}

/// The sockets of the tunnels in place, in slot order.
pub open spec fn rawfds_of<S, G>(ts: Seq<Option<Tunnel<S, G>>>) -> Seq<i32>
    decreases ts.len(),
{
    if ts.len() == 0 {
        Seq::empty()
    } else {
        let rest = rawfds_of(ts.drop_last());
        match ts.last() {
            Some(t) => rest.push(t.rawfd),
            None => rest,
        }
    }
}


impl<S, G> TunMgr<S, G> {
    /// The address a tunnel connects to: the tunnel URL with the token, the request
    /// capacity and the quota.
    pub fn ws_url(&self) -> (r: String)
        ensures
            r@ == self.url@ + "?tok="@ + self.token@ + "&cap="@ + decimal(self.tunnel_req_cap as nat) + "&quota="@
                + decimal(self.request_quota as nat),
    {
        let mut s = self.url.clone();
        s.append("?tok=");
        s.append(self.token.as_str());
        s.append("&cap=");
        append_decimal(&mut s, self.tunnel_req_cap as u64);
        s.append("&quota=");
        append_decimal(&mut s, self.request_quota as u64);
        s
    }

    /// The parts of the address a tunnel connects to; `None` where it does not parse.
    pub fn connect_target(&self) -> (r: Option<UrlParts>)
        ensures
            ({
                let u = self.url@ + "?tok="@ + self.token@ + "&cap="@ + decimal(self.tunnel_req_cap as nat) + "&quota="@
                    + decimal(self.request_quota as nat);
                match r {
                    Some(p) => url_parts(u) == Some(p.spec_parts()),
                    None => url_parts(u) is None,
                }
            }),
    {
        let s = self.ws_url();
        parse_url(s.as_str())
    }

    /// The keepalive tick: nothing once the manager is stopped; else the slots to
    /// reconnect, the last queued first (the caller sends the pings).
    pub fn keepalive(&mut self) -> (r: Option<Vec<u16>>)
        ensures
            old(self).discarded ==> r is None && final(self).reconnect_queue@ == old(self).reconnect_queue@,
            !old(self).discarded ==> (r matches Some(v) && v@ == old(self).reconnect_queue@.reverse())
                && final(self).reconnect_queue@.len() == 0,
            final(self).tunnels@ == old(self).tunnels@,
            final(self).discarded == old(self).discarded,
    {
        if self.discarded {
            return None;
        }
        Some(self.process_reconnect())
    }
}

/// The count of a request's messages since the last quota report: every `threshold`
/// messages, the count is reported and starts again.
pub struct WriteQuota {
    pub write_out: u16,
    pub threshold: u16,
}

impl WriteQuota {
    /// A count for a request with the quota `request_quota`: a report every half quota.
    pub fn new(request_quota: u16) -> (r: WriteQuota)
        ensures
            r.write_out == 0,
            r.threshold == request_quota / 2,
    {
        WriteQuota { write_out: 0, threshold: request_quota / 2 }
    }

    /// One more message: the count to report where it reaches the threshold.
    pub fn on_item(&mut self) -> (r: Option<u16>)
        ensures
            final(self).threshold == old(self).threshold,
            ({
                let w = if old(self).write_out == u16::MAX { 0 } else { (old(self).write_out + 1) as u16 };
                if w == old(self).threshold {
                    r == Some(w) && final(self).write_out == 0
                } else {
                    r is None && final(self).write_out == w
                }
            }),
    {
        self.write_out = self.write_out.wrapping_add(1);
        if self.write_out == self.threshold {
            let w = self.write_out;
            self.write_out = 0;
            Some(w)
        } else {
            None
        }
    }
}

} // verus!


