//! The accepting side of the transparent proxy: connections are handed round robin to the
//! tunnel managers; and the request slots of the first tunnel design.
use vstd::prelude::*;
use crate::tunnels::{alloc_spec, free_spec, next_tag};

verus! {

/// One request slot: its index and the tag of its current use, the sender and trigger of
/// the request, and its target address and port.
pub struct Request<S, G> {
    pub index: u16,
    pub tag: u16,
    pub request_tx: Option<S>,
    pub trigger: Option<G>,
    pub ipv4_le: u32,
    pub port_le: u16,
}

impl<S, G> Request<S, G> {
    /// A free slot with index `idx`.
    pub fn new(idx: u16) -> (r: Request<S, G>)
        ensures
            r.index == idx,
            r.tag == 0,
            r.request_tx is None,
            r.trigger is None,
            r.ipv4_le == 0,
            r.port_le == 0,
    {
        Request { index: idx, tag: 0, request_tx: None, trigger: None, ipv4_le: 0, port_le: 0 }
    }

    /// A request to `ip`, `port` that sends with `tx` and is cancelled with `trigger`.
    pub fn with(tx: S, trigger: G, ip: u32, port: u16) -> (r: Request<S, G>)
        ensures
            r.index == 0,
            r.tag == 0,
            r.request_tx == Some(tx),
            r.trigger == Some(trigger),
            r.ipv4_le == ip,
            r.port_le == port,
    {
        Request { index: 0, tag: 0, request_tx: Some(tx), trigger: Some(trigger), ipv4_le: ip, port_le: port }
    }
}

/// The tags of the slots.
pub open spec fn req_tags<S, G>(e: Seq<Request<S, G>>) -> Seq<u16> {
    e.map_values(|r: Request<S, G>| r.tag)
}

/// The request slots and the stack of the free ones.
pub struct Reqq<S, G> {
    pub elements: Vec<Request<S, G>>,
    pub free: Vec<usize>,
}

impl<S, G> Reqq<S, G> {
    /// Every free index is a slot.
    pub open spec fn wf(&self) -> bool {
        forall|j: int| 0 <= j < self.free@.len() ==> self.free@[j] < self.elements@.len()
    }

    /// `size` free slots, handed out from index 0 up.
    pub fn new(size: usize) -> (r: Reqq<S, G>)
        ensures
            r.wf(),
            r.elements@.len() == size,
            forall|n: int| 0 <= n < size ==> (#[trigger] r.elements@[n]).index == n as u16
                && r.elements@[n].tag == 0 && r.elements@[n].request_tx is None,
            r.free@.len() == size,
            forall|n: int| 0 <= n < size ==> #[trigger] r.free@[n] == size - 1 - n,
    {
        let mut elements: Vec<Request<S, G>> = Vec::new();
        let mut free: Vec<usize> = Vec::new();
        let mut n: usize = 0;
        while n < size
            invariant
                n <= size,
                elements@.len() == n,
                free@.len() == n,
                forall|k: int| 0 <= k < n ==> (#[trigger] elements@[k]).index == k as u16
                    && elements@[k].tag == 0 && elements@[k].request_tx is None,
                forall|k: int| 0 <= k < n ==> #[trigger] free@[k] == size - 1 - k,
            decreases size - n,
        {
            elements.push(Request::new(n as u16));
            free.push(size - 1 - n);
            n = n + 1;
        }
        Reqq { elements, free }
    }

    /// Takes the slot on top of the free stack for a request that sends with `req_tx`:
    /// its tag moves on. Returns the slot and the new tag, or `u16::MAX` twice where no
    /// slot is free.
    pub fn allocate(&mut self, req_tx: &S) -> (r: (u16, u16))
        where S: Clone
        requires
            old(self).wf(),
        ensures
            final(self).wf(),
            ({
                let (tags, free, res) = alloc_spec(req_tags(old(self).elements@), old(self).free@);
                &&& r == res
                &&& req_tags(final(self).elements@) == tags
                &&& final(self).free@ == free
            }),
            final(self).elements@.len() == old(self).elements@.len(),
            old(self).free@.len() > 0 ==> ({
                let i = old(self).free@.last() as int;
                &&& final(self).elements@[i].request_tx matches Some(t) && cloned::<S>(*req_tx, t)
                &&& forall|j: int| 0 <= j < old(self).elements@.len() && j != i
                    ==> #[trigger] final(self).elements@[j] == old(self).elements@[j]
            }),
    {
        if self.free.len() < 1 {
            return (u16::MAX, u16::MAX);
        }
        let idx = self.free.pop().unwrap();
        let ghost old_e = self.elements@;
        let mut req = self.elements.remove(idx);
        req.tag = req.tag.wrapping_add(1);
        req.request_tx = Some(req_tx.clone());
        let tag = req.tag;
        self.elements.insert(idx, req);
        proof {
            assert(self.elements@ =~= old_e.update(idx as int, req));
            assert(req_tags(self.elements@) =~= req_tags(old_e).update(idx as int, tag));
            assert(tag == next_tag(old_e[idx as int].tag));
        }
        (idx as u16, tag)
    }

    /// Frees slot `idx` when its tag is `tag`: its tag moves on, its sender goes, and it
    /// goes on top of the free stack. Returns whether it was freed.
    pub fn free(&mut self, idx: u16, tag: u16) -> (r: bool)
        requires
            old(self).wf(),
        ensures
            final(self).wf(),
            ({
                let (tags, free, res) = free_spec(req_tags(old(self).elements@), old(self).free@, idx, tag);
                &&& r == res
                &&& req_tags(final(self).elements@) == tags
                &&& final(self).free@ == free
            }),
            final(self).elements@.len() == old(self).elements@.len(),
            r ==> final(self).elements@[idx as int].request_tx is None,
    {
        if idx as usize >= self.elements.len() {
            return false;
        }
        if self.elements[idx as usize].tag != tag {
            return false;
        }
        let ghost old_e = self.elements@;
        let mut req = self.elements.remove(idx as usize);
        req.tag = req.tag.wrapping_add(1);
        req.request_tx = None;
        self.elements.insert(idx as usize, req);
        self.free.push(idx as usize);
        proof {
            assert(self.elements@ =~= old_e.update(idx as int, req));
            assert(req_tags(self.elements@) =~= req_tags(old_e).update(idx as int, next_tag(tag)));
        }
        true
    }

    /// Ends every slot's use and leaves no slot to hand out.
    pub fn clear_all(&mut self)
        ensures
            final(self).wf(),
            final(self).free@.len() == 0,
            final(self).elements@.len() == old(self).elements@.len(),
            forall|j: int| 0 <= j < old(self).elements@.len() ==> (#[trigger] final(self).elements@[j]).tag
                == next_tag(old(self).elements@[j].tag) && final(self).elements@[j].request_tx is None
                && final(self).elements@[j].index == old(self).elements@[j].index,
    {
        let n = self.elements.len();
        let mut i: usize = 0;
        let ghost old_e = self.elements@;
        while i < n
            invariant
                n == old_e.len(),
                self.elements@.len() == n,
                i <= n,
                forall|j: int| 0 <= j < i ==> (#[trigger] self.elements@[j]).tag == next_tag(old_e[j].tag)
                    && self.elements@[j].request_tx is None && self.elements@[j].index == old_e[j].index,
                forall|j: int| i <= j < n ==> #[trigger] self.elements@[j] == old_e[j],
            decreases n - i,
        {
            let mut req = self.elements.remove(i);
            req.request_tx = None;
            req.tag = req.tag.wrapping_add(1);
            self.elements.insert(i, req);
            i = i + 1;
        }
        self.free.clear();
    }
}

/// The request manager: it hands each accepted connection to the next tunnel manager,
/// round robin.
pub struct ReqMgr<T> {
    pub tmstub: Vec<T>,
    pub tmindex: usize,
    pub accepted: usize,
}

impl<T> ReqMgr<T> {
    pub fn new(tmstub: Vec<T>) -> (r: ReqMgr<T>)
        ensures
            r.tmstub == tmstub,
            r.tmindex == 0,
            r.accepted == 0,
    {
        ReqMgr { tmstub, tmindex: 0, accepted: 0 }
    }

    /// Stops handing connections out.
    pub fn stop(&mut self)
        ensures
            final(self).tmstub@.len() == 0,
            final(self).tmindex == old(self).tmindex,
            final(self).accepted == old(self).accepted,
    {
        self.tmstub.clear();
    }

    /// An accepted connection: the tunnel manager that takes it, the next one after it
    /// taking the next; `None` where there is no manager at that place.
    pub fn on_accept_tcpstream(&mut self) -> (r: Option<usize>)
        requires
            old(self).accepted < usize::MAX,
        ensures
            old(self).tmindex >= old(self).tmstub@.len() ==> r is None && *final(self) == *old(self),
            old(self).tmindex < old(self).tmstub@.len() ==> r == Some(old(self).tmindex)
                && final(self).tmindex == (old(self).tmindex + 1) % (old(self).tmstub@.len() as int)
                && final(self).accepted == old(self).accepted + 1,
            final(self).tmstub == old(self).tmstub,
    {
        let index = self.tmindex;
        if index >= self.tmstub.len() {
            return None;
        }
        self.tmindex = (index + 1) % self.tmstub.len();
        self.accepted = self.accepted + 1;
        Some(index)
    }
}

/// The UDP forwarding manager: each datagram goes to the tunnel manager that its
/// addresses hash to.
pub struct UdpXMgr<T> {
    pub tmstubs: Vec<T>,
}

impl<T> UdpXMgr<T> {
    pub fn new(tmstubs: Vec<T>) -> (r: UdpXMgr<T>)
        ensures
            r.tmstubs == tmstubs,
    {
        UdpXMgr { tmstubs }
    }

    /// Stops forwarding.
    pub fn stop(&mut self)
        ensures
            final(self).tmstubs@.len() == 0,
    {
        self.tmstubs.clear();
    }

    /// The tunnel manager for a datagram whose addresses hash to `hash_code`; `None`
    /// where there is none.
    pub fn on_udp_msg_forward(&self, hash_code: usize) -> (r: Option<usize>)
        ensures
            self.tmstubs@.len() == 0 ==> r is None,
            self.tmstubs@.len() > 0 ==> r == Some(((hash_code as int) % (self.tmstubs@.len() as int)) as usize),
    {
        let n = self.tmstubs.len();
        if n < 1 {
            return None;
        }
        Some(hash_code % n)
    }
}

} // verus!
