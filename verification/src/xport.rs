//! The reverse tunnel: the relay asks the device to open connections, and the data of each
//! goes through the one tunnel.
use vstd::prelude::*;
use vstd::string::StringExecFns;
use crate::config::TunCfg;
use crate::tunnels::Cmd;
use crate::htp::{UrlParts, parse_url, url_parts};
use crate::textutil::{append_decimal, decimal};

verus! {

/// One request slot: its index, the tag of its current use, whether it is in use, and the
/// sender and trigger of the connection that serves it.
pub struct XRequest<S, G> {
    pub index: u16,
    pub tag: u16,
    pub is_inused: bool,
    pub request_tx: Option<S>,
    pub trigger: Option<G>,
}

impl<S, G> XRequest<S, G> {
    /// A free slot with index `idx`.
    pub fn new(idx: u16) -> (r: XRequest<S, G>)
        ensures
            r.index == idx,
            r.tag == 0,
            !r.is_inused,
            r.request_tx is None,
            r.trigger is None,
    {
        XRequest { index: idx, tag: 0, is_inused: false, request_tx: None, trigger: None }
    }
}

/// The request slots of the reverse tunnel; the relay picks the slot and its tag.
pub struct XReqq<S, G> {
    pub elements: Vec<XRequest<S, G>>,
}

/// The slot `e` after it is cleaned: not in use, with no sender or trigger.
pub open spec fn cleaned<S, G>(e0: XRequest<S, G>, e1: XRequest<S, G>) -> bool {
    &&& e1.index == e0.index
    &&& e1.tag == e0.tag
    &&& !e1.is_inused
    &&& e1.request_tx is None
    &&& e1.trigger is None
}

impl<S, G> XReqq<S, G> {
    /// `size` free slots, numbered from 0.
    pub fn new(size: usize) -> (r: XReqq<S, G>)
        ensures
            r.elements@.len() == size,
            forall|n: int| 0 <= n < size ==> (#[trigger] r.elements@[n]).index == n as u16
                && r.elements@[n].tag == 0 && !r.elements@[n].is_inused
                && r.elements@[n].request_tx is None && r.elements@[n].trigger is None,
    {
        let mut elements: Vec<XRequest<S, G>> = Vec::new();
        let mut n: usize = 0;
        while n < size
            invariant
                n <= size,
                elements@.len() == n,
                forall|k: int| 0 <= k < n ==> (#[trigger] elements@[k]).index == k as u16
                    && elements@[k].tag == 0 && !elements@[k].is_inused
                    && elements@[k].request_tx is None && elements@[k].trigger is None,
            decreases size - n,
        {
            elements.push(XRequest::new(n as u16));
            n = n + 1;
        }
        XReqq { elements }
    }

    fn clean_req(req: &mut XRequest<S, G>)
        ensures
            cleaned(*old(req), *final(req)),
    {
        req.request_tx = None;
        req.trigger = None;
        req.is_inused = false;
    }

    /// Puts slot `req_idx` in use with the tag `req_tag`; nothing where there is no such slot.
    pub fn allocate(&mut self, req_idx: u16, req_tag: u16)
        ensures
            final(self).elements@.len() == old(self).elements@.len(),
            (req_idx as int) < old(self).elements@.len() ==> final(self).elements@ == old(self).elements@.update(
                req_idx as int,
                XRequest {
                    index: old(self).elements@[req_idx as int].index,
                    tag: req_tag,
                    is_inused: true,
                    request_tx: None,
                    trigger: None,
                },
            ),
            (req_idx as int) >= old(self).elements@.len() ==> final(self).elements@ == old(self).elements@,
    {
        let idx = req_idx as usize;
        if idx >= self.elements.len() {
            return;
        }
        let mut req = self.elements.remove(idx);
        XReqq::clean_req(&mut req);
        req.tag = req_tag;
        req.request_tx = None;
        req.trigger = None;
        req.is_inused = true;
        self.elements.insert(idx, req);
        proof {
            assert(self.elements@ =~= old(self).elements@.update(idx as int, req));
        }
    }

    /// Frees slot `idx` when it is in use with the tag `tag`; returns whether it did.
    pub fn free(&mut self, idx: u16, tag: u16) -> (r: bool)
        ensures
            final(self).elements@.len() == old(self).elements@.len(),
            r == ((idx as int) < old(self).elements@.len() && old(self).elements@[idx as int].tag == tag
                && old(self).elements@[idx as int].is_inused),
            !r ==> final(self).elements@ == old(self).elements@,
            r ==> cleaned(old(self).elements@[idx as int], final(self).elements@[idx as int])
                && forall|j: int| 0 <= j < old(self).elements@.len() && j != idx ==> #[trigger] final(self).elements@[j]
                == old(self).elements@[j],
    {
        let i = idx as usize;
        if i >= self.elements.len() {
            return false;
        }
        if self.elements[i].tag != tag {
            return false;
        }
        if !self.elements[i].is_inused {
            return false;
        }
        let mut req = self.elements.remove(i);
        XReqq::clean_req(&mut req);
        self.elements.insert(i, req);
        proof {
            assert(self.elements@ =~= old(self).elements@.update(i as int, req));
        }
        true
    }

    /// Cleans every slot.
    pub fn clear_all(&mut self)
        ensures
            final(self).elements@.len() == old(self).elements@.len(),
            forall|j: int| 0 <= j < old(self).elements@.len() ==> cleaned(
                old(self).elements@[j],
                #[trigger] final(self).elements@[j],
            ),
    {
        let n = self.elements.len();
        let mut i: usize = 0;
        let ghost old_e = self.elements@;
        while i < n
            invariant
                n == old_e.len(),
                self.elements@.len() == n,
                i <= n,
                forall|j: int| 0 <= j < i ==> cleaned(old_e[j], #[trigger] self.elements@[j]),
                forall|j: int| i <= j < n ==> #[trigger] self.elements@[j] == old_e[j],
            decreases n - i,
        {
            let mut req = self.elements.remove(i);
            XReqq::clean_req(&mut req);
            self.elements.insert(i, req);
            i = i + 1;
        }
    }

    /// Slot `req_idx` is in use with the tag `req_tag`.
    pub open spec fn valid(&self, req_idx: u16, req_tag: u16) -> bool {
        &&& (req_idx as int) < self.elements@.len()
        &&& self.elements@[req_idx as int].is_inused
        &&& self.elements@[req_idx as int].tag == req_tag
    }
}

/// What the reverse tunnel does with a message from the relay.
pub enum XMsgAction<S> {
    /// Nothing more.
    Done,
    /// Send the message back as a pong.
    ReplyPong,
    /// Hand the data to this connection's sender.
    Forward(S),
    /// Open a connection to the local `port` for the slot and tag.
    Connect(u16, u16, u16),
}

/// The reverse tunnel to the relay.
pub struct XTunnel<S, G> {
    pub url_string: String,
    pub token: String,
    pub discarded: bool,
    pub need_reconnect: bool,
    pub tun_tx: Option<S>,
    pub ping_count: usize,
    pub rawfd: Option<i32>,
    pub req_count: u16,
    pub requests: XReqq<S, G>,
    pub req_cap: u16,
}

/// The little endian number in the first two bytes of `b`.
pub open spec fn read_u16_le(b: Seq<u8>) -> u16 {
    (b[0] as int + b[1] as int * 0x100) as u16
}

/// What the keepalive tick does.
pub struct XKeepalive {
    /// The socket to shut down: too many pings went unanswered.
    pub close_fd: Option<i32>,
    /// A ping is to be sent.
    pub ping: bool,
    /// The tunnel is to be connected again.
    pub reconnect: bool,
}

impl<S, G> XTunnel<S, G> {
    /// A reverse tunnel to the configuration's address, with 128 request slots.
    pub fn new(cfg: &TunCfg) -> (r: XTunnel<S, G>)
        ensures
            r.url_string@ == cfg.xport_url@,
            r.token@ == cfg.token@,
            !r.discarded,
            !r.need_reconnect,
            r.tun_tx is None,
            r.ping_count == 0,
            r.rawfd is None,
            r.req_count == 0,
            r.req_cap == 128,
            r.requests.elements@.len() == 128,
            forall|n: int| 0 <= n < 128 ==> !(#[trigger] r.requests.elements@[n]).is_inused,
    {
        let req_cap: u16 = 128;
        XTunnel {
            url_string: cfg.xport_url.clone(),
            token: cfg.token.clone(),
            discarded: false,
            need_reconnect: false,
            tun_tx: None,
            ping_count: 0,
            rawfd: None,
            req_count: 0,
            requests: XReqq::new(req_cap as usize),
            req_cap,
        }
    }

    /// Stops the tunnel for good; returns the socket to shut down, if there is one and
    /// the tunnel was not stopped already.
    pub fn stop(&mut self) -> (r: Option<i32>)
        ensures
            final(self).discarded,
            old(self).discarded ==> r is None && *final(self) == *old(self),
            !old(self).discarded ==> r == old(self).rawfd && final(self).rawfd is None,
    {
        if self.discarded {
            return None;
        }
        self.discarded = true;
        self.close_rawfd()
    }

    /// Takes the socket out, for the caller to shut down.
    fn close_rawfd(&mut self) -> (r: Option<i32>)
        ensures
            r == old(self).rawfd,
            final(self).rawfd is None,
            final(self).discarded == old(self).discarded,
            final(self).tun_tx == old(self).tun_tx,
            final(self).need_reconnect == old(self).need_reconnect,
            final(self).requests == old(self).requests,
            final(self).req_count == old(self).req_count,
            final(self).ping_count == old(self).ping_count,
    {
        let mut fd: Option<i32> = None;
        std::mem::swap(&mut fd, &mut self.rawfd);
        fd
    }

    /// The tunnel is connected with the socket `rawfd` and the sender `tx`; an error
    /// once the tunnel is stopped.
    pub fn on_tunnel_created(&mut self, rawfd: i32, tx: S) -> (r: Result<(), ()>)
        ensures
            r is Err <==> old(self).discarded,
            r is Err ==> *final(self) == *old(self),
            r is Ok ==> final(self).rawfd == Some(rawfd) && final(self).tun_tx == Some(tx)
                && final(self).requests == old(self).requests,
            final(self).discarded == old(self).discarded,
    {
        if self.discarded {
            return Err(());
        }
        self.rawfd = Some(rawfd);
        self.tun_tx = Some(tx);
        Ok(())
    }

    /// The tunnel closed: it is to be connected again unless it is stopped, and its
    /// requests are cleaned (not where it was connected and is stopped).
    pub fn on_tunnel_closed(&mut self)
        ensures
            final(self).rawfd is None,
            final(self).tun_tx is None,
            final(self).discarded == old(self).discarded,
            final(self).need_reconnect == (old(self).need_reconnect || (old(self).tun_tx is Some
                && !old(self).discarded)),
            final(self).requests.elements@.len() == old(self).requests.elements@.len(),
            old(self).tun_tx is Some && old(self).discarded ==> final(self).requests == old(self).requests,
            !(old(self).tun_tx is Some && old(self).discarded) ==> forall|j: int|
                0 <= j < old(self).requests.elements@.len() ==> cleaned(
                    old(self).requests.elements@[j],
                    #[trigger] final(self).requests.elements@[j],
                ),
    {
        self.rawfd = None;
        let mut t: Option<S> = None;
        std::mem::swap(&mut t, &mut self.tun_tx);
        if t.is_some() {
            if self.discarded {
                return;
            } else {
                self.need_reconnect = true;
            }
        }
        self.requests.clear_all();
    }

    /// Building the tunnel failed: it is to be built again unless it is stopped.
    pub fn on_tunnel_build_error(&mut self)
        ensures
            final(self).need_reconnect == (old(self).need_reconnect || !old(self).discarded),
            final(self).discarded == old(self).discarded,
            final(self).requests == old(self).requests,
    {
        if self.discarded {
            return;
        }
        self.need_reconnect = true;
    }

    /// The keepalive tick: nothing once stopped; else, after more than five unanswered
    /// pings, the socket is shut down, or else a ping goes out where the tunnel is
    /// connected; and a tunnel that is to be connected again is, with no unanswered ping.
    pub fn keepalive(&mut self) -> (r: XKeepalive)
        ensures
            old(self).discarded ==> r.close_fd is None && !r.ping && !r.reconnect && *final(self) == *old(self),
            !old(self).discarded ==> ({
                &&& r.close_fd == (if old(self).ping_count > 5 { old(self).rawfd } else { None })
                &&& r.ping == (old(self).ping_count <= 5 && old(self).tun_tx is Some)
                &&& r.reconnect == old(self).need_reconnect
                &&& !final(self).need_reconnect
                &&& final(self).ping_count == (if old(self).need_reconnect { 0 } else { old(self).ping_count })
                &&& final(self).rawfd == (if old(self).ping_count > 5 { None } else { old(self).rawfd })
            }),
            final(self).requests == old(self).requests,
            final(self).tun_tx == old(self).tun_tx,
            final(self).discarded == old(self).discarded,
    {
        if self.discarded {
            return XKeepalive { close_fd: None, ping: false, reconnect: false };
        }
        let mut r = XKeepalive { close_fd: None, ping: false, reconnect: false };
        if self.ping_count > 5 {
            r.close_fd = self.close_rawfd();
        } else if self.tun_tx.is_some() {
            r.ping = true;
        }
        if self.need_reconnect {
            r.reconnect = true;
            self.ping_count = 0;
            self.need_reconnect = false;
        }
        r
    }

    /// A ping went out: one more is unanswered.
    pub fn on_ping_sent(&mut self)
        requires
            old(self).ping_count <= 5,
        ensures
            final(self).ping_count == old(self).ping_count + 1,
            final(self).requests == old(self).requests,
            final(self).tun_tx == old(self).tun_tx,
            final(self).discarded == old(self).discarded,
    {
        self.ping_count = self.ping_count + 1;
    }

    /// Drops the sender of the connection in slot `req_idx` when its tag is `req_tag`.
    fn free_request_tx(&mut self, req_idx: u16, req_tag: u16)
        ensures
            final(self).requests.elements@.len() == old(self).requests.elements@.len(),
            forall|j: int| 0 <= j < old(self).requests.elements@.len() ==> {
                let e0 = old(self).requests.elements@[j];
                let e1 = #[trigger] final(self).requests.elements@[j];
                &&& e1.index == e0.index
                &&& e1.tag == e0.tag
                &&& e1.is_inused == e0.is_inused
                &&& e1.trigger == e0.trigger
                &&& e1.request_tx == (if j == req_idx && e0.tag == req_tag { None } else { e0.request_tx })
            },
            final(self).req_count == old(self).req_count,
            final(self).tun_tx == old(self).tun_tx,
            final(self).discarded == old(self).discarded,
    {
        let idx = req_idx as usize;
        if idx >= self.requests.elements.len() {
            return;
        }
        if self.requests.elements[idx].tag != req_tag {
            return;
        }
        let ghost old_e = self.requests.elements@;
        let mut req = self.requests.elements.remove(idx);
        req.request_tx = None;
        self.requests.elements.insert(idx, req);
        proof {
            assert(self.requests.elements@ =~= old_e.update(idx as int, req));
        }
    }

    /// Handles a message from the relay: `cmd` with the slot and tag of its header and
    /// `body` after the header. A ping is answered where the tunnel is connected; a pong
    /// of eight bytes clears the unanswered pings; data goes to its connection; a finished
    /// client drops its connection's sender; a closed client frees its slot; a created
    /// request takes its slot and asks for a connection to the port in its body.
    pub fn on_tunnel_msg(&mut self, cmd: Cmd, req_idx: u16, req_tag: u16, body: &[u8]) -> (r: XMsgAction<S>)
        where S: Clone
        requires
            cmd == Cmd::ReqCreated ==> body@.len() >= 2,
        ensures
            final(self).tun_tx == old(self).tun_tx,
            final(self).discarded == old(self).discarded,
            final(self).requests.elements@.len() == old(self).requests.elements@.len(),
            cmd == Cmd::Ping ==> (r is ReplyPong <==> old(self).tun_tx is Some) && (r is Done <==> old(self).tun_tx is None)
                && final(self).requests == old(self).requests,
            cmd == Cmd::Pong ==> r is Done && final(self).requests == old(self).requests
                && final(self).ping_count == (if body@.len() == 8 { 0 } else { old(self).ping_count }),
            cmd == Cmd::ReqData ==> ({
                let e = old(self).requests.elements@;
                &&& final(self).requests == old(self).requests
                &&& (r is Forward <==> ((req_idx as int) < e.len() && e[req_idx as int].tag == req_tag
                    && e[req_idx as int].request_tx is Some))
                &&& !(r is Forward) ==> r is Done
                &&& r matches XMsgAction::Forward(tx) ==> cloned::<S>(e[req_idx as int].request_tx->0, tx)
            }),
            cmd == Cmd::ReqClientFinished ==> r is Done && final(self).req_count == old(self).req_count
                && forall|j: int| 0 <= j < old(self).requests.elements@.len() ==> {
                    let e0 = old(self).requests.elements@[j];
                    let e1 = #[trigger] final(self).requests.elements@[j];
                    &&& e1.index == e0.index
                    &&& e1.tag == e0.tag
                    &&& e1.is_inused == e0.is_inused
                    &&& e1.trigger == e0.trigger
                    &&& e1.request_tx == (if j == req_idx && e0.tag == req_tag { None } else { e0.request_tx })
                },
            cmd == Cmd::ReqClientClosed ==> r is Done && ({
                let freed = old(self).requests.valid(req_idx, req_tag);
                &&& (freed ==> cleaned(old(self).requests.elements@[req_idx as int], final(self).requests.elements@[req_idx as int]))
                &&& (!freed ==> final(self).requests.elements@ == old(self).requests.elements@)
                &&& final(self).req_count == (if freed && old(self).req_count > 0 {
                    old(self).req_count - 1
                } else {
                    old(self).req_count as int
                })
            }),
            cmd == Cmd::ReqCreated ==> (r matches XMsgAction::Connect(ri, rt, port) && ri == req_idx
                && rt == req_tag && port as int == body@[0] as int + 256 * (body@[1] as int)),
            cmd == Cmd::ReqCreated ==> r == XMsgAction::<S>::Connect(req_idx, req_tag, read_u16_le(body@))
                && final(self).req_count == old(self).req_count
                && ((req_idx as int) < old(self).requests.elements@.len() ==> final(self).requests.valid(req_idx, req_tag)
                    && final(self).requests.elements@[req_idx as int].request_tx is None
                    && final(self).requests.elements@[req_idx as int].trigger is None
                    && final(self).requests.elements@[req_idx as int].index == old(self).requests.elements@[req_idx as int].index)
                && ((req_idx as int) >= old(self).requests.elements@.len() ==> final(self).requests.elements@
                    == old(self).requests.elements@)
                && (forall|j: int| 0 <= j < old(self).requests.elements@.len() && j != req_idx
                    ==> #[trigger] final(self).requests.elements@[j] == old(self).requests.elements@[j]),
            cmd != Cmd::Ping && cmd != Cmd::Pong && cmd != Cmd::ReqData && cmd != Cmd::ReqClientFinished
                && cmd != Cmd::ReqClientClosed && cmd != Cmd::ReqCreated ==> r is Done && *final(self) == *old(self),
    {
        match cmd {
            Cmd::Ping => {
                if self.tun_tx.is_some() {
                    XMsgAction::ReplyPong
                } else {
                    XMsgAction::Done
                }
            },
            Cmd::Pong => {
                if body.len() == 8 {
                    self.ping_count = 0;
                }
                XMsgAction::Done
            },
            Cmd::ReqData => {
                let idx = req_idx as usize;
                if idx >= self.requests.elements.len() {
                    return XMsgAction::Done;
                }
                let req = &self.requests.elements[idx];
                if req.tag != req_tag {
                    return XMsgAction::Done;
                }
                match &req.request_tx {
                    Some(tx) => XMsgAction::Forward(tx.clone()),
                    None => XMsgAction::Done,
                }
            },
            Cmd::ReqClientFinished => {
                self.free_request_tx(req_idx, req_tag);
                XMsgAction::Done
            },
            Cmd::ReqClientClosed => {
                let r = self.requests.free(req_idx, req_tag);
                if r && self.req_count > 0 {
                    self.req_count = self.req_count - 1;
                }
                XMsgAction::Done
            },
            Cmd::ReqCreated => {
                let port = (body[0] as u16) + (body[1] as u16) * 256;
                self.requests.allocate(req_idx, req_tag);
                XMsgAction::Connect(req_idx, req_tag, port)
            },
            _ => XMsgAction::Done,
        }
    }

    /// The connection of a created request was opened: one more request is running.
    pub fn on_request_proxied(&mut self)
        ensures
            final(self).req_count == (if old(self).req_count < u16::MAX {
                old(self).req_count + 1
            } else {
                old(self).req_count as int
            }),
            final(self).requests == old(self).requests,
    {
        if self.req_count < u16::MAX {
            self.req_count = self.req_count + 1;
        }
    }

    /// Slot `req_idx` is in use with the tag `req_tag`.
    pub fn check_req_valid(&self, req_idx: u16, req_tag: u16) -> (r: bool)
        ensures
            r == self.requests.valid(req_idx, req_tag),
    {
        let idx = req_idx as usize;
        if idx >= self.requests.elements.len() {
            return false;
        }
        let req = &self.requests.elements[idx];
        req.is_inused && req.tag == req_tag
    }

    /// The connection of a request could not be opened: as `on_request_closed`.
    pub fn on_request_connect_error(&mut self, req_idx: u16, req_tag: u16) -> (r: bool)
        ensures
            r == (old(self).requests.valid(req_idx, req_tag) && old(self).tun_tx is Some),
            r ==> cleaned(old(self).requests.elements@[req_idx as int], final(self).requests.elements@[req_idx as int]),
            !r ==> final(self).requests.elements@ == old(self).requests.elements@,
    {
        self.on_request_closed(req_idx, req_tag)
    }

    /// The connection of a request closed: where the slot is in use with that tag and the
    /// tunnel is connected, the slot is freed and one request fewer runs. Returns whether
    /// the relay is to be told that the server side closed.
    pub fn on_request_closed(&mut self, req_idx: u16, req_tag: u16) -> (r: bool)
        ensures
            r == (old(self).requests.valid(req_idx, req_tag) && old(self).tun_tx is Some),
            r ==> cleaned(old(self).requests.elements@[req_idx as int], final(self).requests.elements@[req_idx as int])
                && final(self).req_count == (if old(self).req_count > 0 { old(self).req_count - 1 } else { 0 }),
            !r ==> final(self).requests.elements@ == old(self).requests.elements@ && final(self).req_count == old(self).req_count,
            final(self).requests.elements@.len() == old(self).requests.elements@.len(),
            final(self).tun_tx == old(self).tun_tx,
    {
        if !self.check_req_valid(req_idx, req_tag) {
            return false;
        }
        if self.tun_tx.is_none() {
            return false;
        }
        let r = self.requests.free(req_idx, req_tag);
        if r && self.req_count > 0 {
            self.req_count = self.req_count - 1;
        }
        r
    }

    /// The connection of a request read all it will: the relay is to be told that the
    /// server side finished, where the slot is in use with that tag and the tunnel is
    /// connected.
    pub fn on_request_recv_finished(&self, req_idx: u16, req_tag: u16) -> (r: bool)
        ensures
            r == (self.requests.valid(req_idx, req_tag) && self.tun_tx is Some),
    {
        self.check_req_valid(req_idx, req_tag) && self.tun_tx.is_some()
    }

    /// Data of a connection may go to the relay: the slot is in use with that tag and the
    /// tunnel is connected.
    pub fn on_request_msg(&self, req_idx: u16, req_tag: u16) -> (r: bool)
        ensures
            r == (self.requests.valid(req_idx, req_tag) && self.tun_tx is Some),
    {
        self.check_req_valid(req_idx, req_tag) && self.tun_tx.is_some()
    }

    /// Keeps the sender and trigger of the connection of slot `req_idx`: an error once
    /// the tunnel is stopped, or where there is no such slot or its tag differs.
    pub fn save_request_tx(&mut self, tx: S, trigger: G, req_idx: u16, req_tag: u16) -> (r: Result<(), XError>)
        ensures
            old(self).discarded ==> r == Err::<(), XError>(XError::Discarded),
            !old(self).discarded && (req_idx as int) >= old(self).requests.elements@.len() ==> r == Err::<(), XError>(XError::InvalidIndex),
            !old(self).discarded && (req_idx as int) < old(self).requests.elements@.len()
                && old(self).requests.elements@[req_idx as int].tag != req_tag ==> r == Err::<(), XError>(XError::InvalidTag),
            r is Err ==> *final(self) == *old(self),
            r is Ok ==> ({
                let e0 = old(self).requests.elements@[req_idx as int];
                &&& final(self).requests.elements@ == old(self).requests.elements@.update(
                    req_idx as int,
                    XRequest { index: e0.index, tag: e0.tag, is_inused: e0.is_inused, request_tx: Some(tx), trigger: Some(trigger) },
                )
            }),
    {
        if self.discarded {
            return Err(XError::Discarded);
        }
        let idx = req_idx as usize;
        if idx >= self.requests.elements.len() {
            return Err(XError::InvalidIndex);
        }
        if self.requests.elements[idx].tag != req_tag {
            return Err(XError::InvalidTag);
        }
        let mut req = self.requests.elements.remove(idx);
        req.trigger = Some(trigger);
        req.request_tx = Some(tx);
        self.requests.elements.insert(idx, req);
        proof {
            assert(self.requests.elements@ =~= old(self).requests.elements@.update(idx as int, req));
        }
        Ok(())
    }
}

impl<S, G> XTunnel<S, G> {
    /// The address the reverse tunnel connects to: its URL with the request capacity and
    /// the token.
    pub fn ws_url(&self) -> (r: String)
        ensures
            r@ == self.url_string@ + "?cap="@ + decimal(self.req_cap as nat) + "&tok="@ + self.token@,
    {
        let mut s = self.url_string.clone();
        s.append("?cap=");
        append_decimal(&mut s, self.req_cap as u64);
        s.append("&tok=");
        s.append(self.token.as_str());
        s
    }

    /// The parts of the address the reverse tunnel connects to; `None` where it does not
    /// parse.
    pub fn connect_target(&self) -> (r: Option<UrlParts>)
        ensures
            ({
                let u = self.url_string@ + "?cap="@ + decimal(self.req_cap as nat) + "&tok="@ + self.token@;
                match r {
                    Some(p) => url_parts(u) == Some(p.spec_parts()),
                    None => url_parts(u) is None,
                }
            }),
    {
        let s = self.ws_url();
        parse_url(s.as_str())
    }
}

/// Why a connection's sender could not be kept.
#[derive(PartialEq, Eq, Structural)]
pub enum XError {
    Discarded,
    InvalidIndex,
    InvalidTag,
}

} // verus!
