use lproxy_cv::config::TunCfg;
use lproxy_cv::tunnels::{Cmd, Reqq, Request, TunMgr, TunStub, Tunnel, WriteQuota};
use lproxy_cv::xport::{XMsgAction, XReqq, XTunnel, XError};
use lproxy_cv::requests::{ReqMgr, UdpXMgr};

fn cfg(n: usize) -> TunCfg {
    TunCfg {
        tunnel_number: n,
        tunnel_url: "wss://relay/tun".to_string(),
        tunnel_req_cap: 4,
        relay_domain: "relay".to_string(),
        relay_port: 443,
        dns_tunnel_number: 2,
        domains_ver: "0.1.0".to_string(),
        domain_array: None,
        local_dns_server: "223.5.5.5:53".to_string(),
        request_quota: 10,
        xport_url: "wss://relay/x".to_string(),
        token: "tok".to_string(),
        cfg_monitor_url: "https://m".to_string(),
        cfg_access_report_url: "https://r".to_string(),
        work_as_global: false,
    }
}

#[test]
fn reqq_hands_out_slots_from_zero_and_frees_them() {
    let mut q: Reqq<u8, ()> = Reqq::new(3);
    assert_eq!(q.allocate(Request::with(1, ())), (0, 1));
    assert_eq!(q.allocate(Request::with(2, ())), (1, 1));
    assert!(q.free(0, 1));
    // a second free with the same tag fails: the tag moved on
    assert!(!q.free(0, 1));
    // the freed slot comes back first, with a new tag
    assert_eq!(q.allocate(Request::with(3, ())), (0, 3));
    assert!(!q.free(0, 2));
    assert!(!q.free(9, 0));
}

#[test]
fn reqq_full_and_cleared() {
    let mut q: Reqq<u8, ()> = Reqq::new(1);
    assert_eq!(q.allocate(Request::with(1, ())), (0, 1));
    assert_eq!(q.allocate(Request::with(1, ())), (u16::MAX, u16::MAX));
    let mut q2: Reqq<u8, ()> = Reqq::new(2);
    q2.clear_all();
    assert_eq!(q2.allocate(Request::with(1, ())), (u16::MAX, u16::MAX));
    assert_eq!(q2.elements[0].tag, 1);
}

#[test]
fn tunnel_rtt_window_and_pong() {
    let mut t: Tunnel<u8, ()> = Tunnel::new(0, 7, 0, 4, 10);
    assert_eq!(t.get_rtt(), 0);
    t.append_rtt(50);
    assert_eq!(t.get_rtt(), 10);
    // a pong of eight bytes holds the ping time
    t.on_pong(&100u64.to_le_bytes(), 130);
    assert_eq!(t.rtt_queue, vec![50, 30, 0, 0, 0]);
    assert_eq!(t.get_rtt(), 16);
    // a pong of another size changes nothing
    t.on_pong(&[1, 2, 3], 500);
    assert_eq!(t.get_rtt(), 16);
    for _ in 0..5 {
        t.append_rtt(5);
    }
    assert_eq!(t.get_rtt(), 5);
}

#[test]
fn tunnel_unanswered_pings_count_as_time() {
    let mut t: Tunnel<u8, ()> = Tunnel::new(0, 7, 0, 4, 10);
    assert!(t.ping_due());
    t.on_ping_sent();
    assert_eq!(t.rtt_queue, vec![0, 0, 0, 0, 0]);
    t.on_ping_sent();
    assert_eq!(t.rtt_queue, vec![15000, 0, 0, 0, 0]);
    t.ping_count = 11;
    assert!(!t.ping_due());
}

#[test]
fn tunnel_requests_and_messages() {
    let mut t: Tunnel<u8, ()> = Tunnel::new(9, 7, 3, 4, 10);
    let ts = t.on_request_created(Request::with(42, ())).unwrap();
    assert_eq!((ts.tun_idx, ts.req_idx, ts.req_tag, ts.tunnel_tx, ts.request_quota), (3, 0, 1, 9, 10));
    assert_eq!(t.get_req_count(), 1);
    // data for the request goes to its sender
    assert_eq!(t.on_tunnel_msg(Cmd::ReqData, 0, 1, b"x", 10, 0), Some(42));
    assert_eq!(t.get_busy(), 10);
    assert_eq!(t.on_tunnel_msg(Cmd::ReqData, 0, 2, b"x", 1, 0), None);
    // the server finished: the sender goes, the slot stays
    t.on_tunnel_msg(Cmd::ReqServerFinished, 0, 1, b"", 1, 0);
    assert_eq!(t.on_tunnel_msg(Cmd::ReqData, 0, 1, b"x", 1, 0), None);
    assert_eq!(t.get_req_count(), 1);
    // the server closed: the slot is freed
    t.on_tunnel_msg(Cmd::ReqServerClosed, 0, 1, b"", 1, 0);
    assert_eq!(t.get_req_count(), 0);
    let stub = TunStub { tunnel_tx: 9u8, tun_idx: 3, req_idx: 0, req_tag: 1, request_quota: 10 };
    assert!(!t.on_request_closed(&stub));
    t.reset_busy();
    assert_eq!(t.get_busy(), 0);
}

#[test]
fn tunmgr_picks_the_best_tunnel() {
    let mut m: TunMgr<u8, ()> = TunMgr::new(&cfg(3));
    assert_eq!(m.alloc_tunnel_for_req(), None);
    let mut a: Tunnel<u8, ()> = Tunnel::new(1, 11, 0, 4, 10);
    a.append_rtt(100);
    let b: Tunnel<u8, ()> = Tunnel::new(2, 12, 1, 4, 10);
    let mut c: Tunnel<u8, ()> = Tunnel::new(3, 13, 2, 4, 10);
    c.append_rtt(0);
    assert!(m.on_tunnel_created(a).is_ok());
    assert!(m.on_tunnel_created(b).is_ok());
    assert!(m.on_tunnel_created(c).is_ok());
    // b and c have the same time and no requests: the first of them
    assert_eq!(m.alloc_tunnel_for_req(), Some(1));
    let ts = m.on_request_created(Request::with(5, ())).unwrap();
    assert_eq!(ts.tun_idx, 1);
    // now c has fewer requests
    assert_eq!(m.alloc_tunnel_for_req(), Some(2));
    assert!(m.on_request_closed(&ts));
    assert_eq!(m.alloc_tunnel_for_req(), Some(1));
}

#[test]
fn tunmgr_full_tunnels_have_no_room() {
    let mut m: TunMgr<u8, ()> = TunMgr::new(&cfg(1));
    let t: Tunnel<u8, ()> = Tunnel::new(1, 11, 0, 2, 10);
    m.on_tunnel_created(t).unwrap();
    assert!(m.on_request_created(Request::with(5, ())).is_some());
    // capacity 2: one request fills it
    assert!(m.on_request_created(Request::with(6, ())).is_none());
}

#[test]
fn tunmgr_reconnects_and_stops() {
    let mut m: TunMgr<u8, ()> = TunMgr::new(&cfg(3));
    m.on_tunnel_created(Tunnel::new(1, 11, 0, 4, 10)).unwrap();
    m.on_tunnel_created(Tunnel::new(2, 12, 2, 4, 10)).unwrap();
    m.on_tunnel_closed(0);
    m.on_tunnel_build_error(1);
    m.on_tunnel_closed(1);
    assert_eq!(m.process_reconnect(), vec![1, 0]);
    assert_eq!(m.process_reconnect(), Vec::<u16>::new());
    assert_eq!(m.stop(), vec![12]);
    assert!(m.on_tunnel_created(Tunnel::new(1, 11, 0, 4, 10)).is_err());
    m.on_tunnel_build_error(0);
    assert_eq!(m.keepalive(), None);
    assert!(m.on_request_created(Request::with(5, ())).is_none());
    assert_eq!(m.stop(), Vec::<i32>::new());
}

#[test]
fn tunmgr_url() {
    let m: TunMgr<u8, ()> = TunMgr::new(&cfg(1));
    assert_eq!(m.ws_url(), "wss://relay/tun?tok=tok&cap=4&quota=10");
    let u = m.connect_target().unwrap();
    assert_eq!(u.host.as_deref(), Some("relay"));
    assert_eq!(u.query.as_deref(), Some("tok=tok&cap=4&quota=10"));
}

#[test]
fn write_quota_reports_every_half_quota() {
    let mut q = WriteQuota::new(6);
    assert_eq!(q.on_item(), None);
    assert_eq!(q.on_item(), None);
    assert_eq!(q.on_item(), Some(3));
    assert_eq!(q.on_item(), None);
    assert_eq!(q.on_item(), None);
    assert_eq!(q.on_item(), Some(3));
}

#[test]
fn xreqq_slots() {
    let mut q: XReqq<u8, ()> = XReqq::new(2);
    q.allocate(1, 7);
    assert!(q.elements[1].is_inused);
    assert!(!q.free(1, 8));
    assert!(q.free(1, 7));
    assert!(!q.free(1, 7));
    q.allocate(5, 1);
    q.allocate(0, 3);
    q.clear_all();
    assert!(!q.elements[0].is_inused);
}

#[test]
fn xtunnel_messages() {
    let mut x: XTunnel<u8, ()> = XTunnel::new(&cfg(1));
    assert_eq!(x.ws_url(), "wss://relay/x?cap=128&tok=tok");
    assert!(matches!(x.on_tunnel_msg(Cmd::Ping, 0, 0, b""), XMsgAction::Done));
    x.on_tunnel_created(5, 1).unwrap();
    assert!(matches!(x.on_tunnel_msg(Cmd::Ping, 0, 0, b""), XMsgAction::ReplyPong));
    match x.on_tunnel_msg(Cmd::ReqCreated, 3, 9, &[0x50, 0x00]) {
        XMsgAction::Connect(i, t, p) => assert_eq!((i, t, p), (3, 9, 80)),
        _ => panic!("expected a connection"),
    }
    assert!(x.check_req_valid(3, 9));
    assert!(x.save_request_tx(44, (), 3, 9).is_ok());
    assert!(x.save_request_tx(44, (), 3, 8) == Err(XError::InvalidTag));
    assert!(x.save_request_tx(44, (), 300, 8) == Err(XError::InvalidIndex));
    x.on_request_proxied();
    assert_eq!(x.req_count, 1);
    assert!(matches!(x.on_tunnel_msg(Cmd::ReqData, 3, 9, b"d"), XMsgAction::Forward(44)));
    assert!(x.on_request_msg(3, 9));
    assert!(x.on_request_recv_finished(3, 9));
    assert!(x.on_request_closed(3, 9));
    assert_eq!(x.req_count, 0);
    assert!(!x.on_request_closed(3, 9));
    x.ping_count = 6;
    let k = x.keepalive();
    assert_eq!(k.close_fd, Some(5));
    assert!(!k.ping);
    x.on_tunnel_closed();
    let k2 = x.keepalive();
    assert!(k2.reconnect);
    assert_eq!(x.stop(), None);
    assert!(x.save_request_tx(1, (), 0, 0) == Err(XError::Discarded));
}

#[test]
fn reqmgr_round_robin_and_udp_hash() {
    let mut r = ReqMgr::new(vec!['a', 'b', 'c']);
    assert_eq!(r.on_accept_tcpstream(), Some(0));
    assert_eq!(r.on_accept_tcpstream(), Some(1));
    assert_eq!(r.on_accept_tcpstream(), Some(2));
    assert_eq!(r.on_accept_tcpstream(), Some(0));
    assert_eq!(r.accepted, 4);
    r.stop();
    assert_eq!(r.on_accept_tcpstream(), None);
    let u = UdpXMgr::new(vec![1, 2, 3]);
    assert_eq!(u.on_udp_msg_forward(10), Some(1));
    let e: UdpXMgr<u8> = UdpXMgr::new(vec![]);
    assert_eq!(e.on_udp_msg_forward(10), None);
}

#[test]
fn first_design_reqq() {
    let mut q: lproxy_cv::requests::Reqq<u8, ()> = lproxy_cv::requests::Reqq::new(2);
    assert_eq!(q.allocate(&5), (0, 1));
    assert_eq!(q.elements[0].request_tx, Some(5));
    assert!(q.free(0, 1));
    assert!(!q.free(0, 1));
    q.clear_all();
    assert_eq!(q.allocate(&5), (u16::MAX, u16::MAX));
}

#[test]
fn tunnel_rtt_is_mean_of_last_five_samples() {
    let mut t: Tunnel<u8, ()> = Tunnel::new(0, 7, 0, 4, 10);
    for x in [10i64, 20, 30] {
        t.append_rtt(x);
    }
    assert_eq!(t.get_rtt(), 12);
    for x in [40i64, 50, 60, 70] {
        t.append_rtt(x);
    }
    assert_eq!(t.get_rtt(), 50);
}

#[test]
fn tunnel_request_count_is_allocated_slots() {
    let mut t: Tunnel<u8, ()> = Tunnel::new(9, 7, 3, 4, 10);
    let a = t.on_request_created(Request::with(1, ())).unwrap();
    let b = t.on_request_created(Request::with(2, ())).unwrap();
    assert_eq!(t.get_req_count(), 2);
    t.on_tunnel_msg(Cmd::ReqServerClosed, a.req_idx, a.req_tag, b"", 1, 0);
    assert_eq!(t.get_req_count(), 1);
    // the same close again: the slot's tag has moved on, nothing changes
    t.on_tunnel_msg(Cmd::ReqServerClosed, a.req_idx, a.req_tag, b"", 1, 0);
    assert_eq!(t.get_req_count(), 1);
    assert!(t.on_request_closed(&b));
    assert_eq!(t.get_req_count(), 0);
}

#[test]
fn tunmgr_request_counts_follow_slots() {
    let mut m: TunMgr<u8, ()> = TunMgr::new(&cfg(2));
    m.on_tunnel_created(Tunnel::new(1, 11, 0, 8, 10)).unwrap();
    m.on_tunnel_created(Tunnel::new(2, 12, 1, 8, 10)).unwrap();
    let a = m.on_request_created(Request::with(5, ())).unwrap();
    assert_eq!(a.tun_idx, 0);
    assert_eq!(m.tunnels[0].as_ref().unwrap().get_req_count(), 1);
    assert_eq!(m.tunnels[1].as_ref().unwrap().get_req_count(), 0);
    let b = m.on_request_created(Request::with(6, ())).unwrap();
    assert_eq!(b.tun_idx, 1);
    assert!(m.on_request_closed(&a));
    assert_eq!(m.tunnels[0].as_ref().unwrap().get_req_count(), 0);
    assert_eq!(m.tunnels[1].as_ref().unwrap().get_req_count(), 1);
    assert!(!m.on_request_closed(&a));
    assert_eq!(m.tunnels[0].as_ref().unwrap().get_req_count(), 0);
}
