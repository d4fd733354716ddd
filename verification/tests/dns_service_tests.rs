use lproxy_cv::acclog::{AccLog, DNSAddRecord, IpAddr};
use lproxy_cv::config::{AuthResp, TunCfg};
use lproxy_cv::dns::{
    DnsAnswer, DnsTunnel, DomainItem, Forwarder, IpsetAdd, LocalResolver, MyDns, MyDnsState,
    ResolveStep, Route, SockAddr, WsKind, query_result,
};
use lproxy_cv::domap::DomainMap;
use lproxy_cv::htp::HTTPResponse;
use lproxy_cv::service::{
    parse_auth_reply, tunmgr_outcome, tunnels_per_mgr, upgrade_target, AccessRecord, AuthStep, DownloadStep,
    Service, STATE_RUNNING, STATE_STARTING, STATE_STOPPED,
};

fn cfg() -> TunCfg {
    TunCfg {
        tunnel_number: 2,
        tunnel_url: "wss://relay/tun".to_string(),
        tunnel_req_cap: 4,
        relay_domain: "relay".to_string(),
        relay_port: 443,
        dns_tunnel_number: 3,
        domains_ver: "0.2".to_string(),
        domain_array: None,
        local_dns_server: "114.114.114.114:53".to_string(),
        request_quota: 10,
        xport_url: "wss://relay/x".to_string(),
        token: "tok".to_string(),
        cfg_monitor_url: "https://m/cfg".to_string(),
        cfg_access_report_url: "https://r/acc".to_string(),
        work_as_global: false,
    }
}

fn addr(a: u32, port: u16) -> SockAddr {
    SockAddr { ip: IpAddr::V4(a), port }
}

#[test]
fn domain_map_finds_names_and_their_subdomains() {
    let mut m = DomainMap::new();
    assert!(!m.has("www.google.com"));
    m.insert("google.com");
    assert!(m.has("google.com"));
    assert!(m.has("www.google.com"));
    assert!(m.has("a.b.google.com"));
    assert!(!m.has("google.org"));
    assert!(!m.has("com"));
    // a name that an inserted name is below is found as well
    m.insert("mail.yahoo.com");
    assert!(m.has("yahoo.com"));
    // a name of one label is not inserted
    m.insert("localhost");
    assert!(!m.has("localhost"));
}

#[test]
fn local_resolver_remembers_for_two_periods() {
    let mut r: LocalResolver<u8, ()> = LocalResolver::new(addr(0x72727272, 53));
    assert!(matches!(r.request("a.com", 7, addr(1, 1000)), ResolveStep::Fail));
    r.on_started(9, ());
    match r.request("a.com", 7, addr(1, 1000)) {
        ResolveStep::Send(t, a) => {
            assert_eq!(t, 9);
            assert!(a == addr(0x72727272, 53));
        }
        _ => panic!("expected a send"),
    }
    assert!(r.take("a.com", 7) == Some(addr(1, 1000)));
    assert!(r.take("a.com", 7).is_none());
    r.request("b.com", 1, addr(2, 2000));
    r.keepalive();
    assert!(r.take("b.com", 1) == Some(addr(2, 2000)));
    r.request("c.com", 2, addr(3, 3000));
    r.keepalive();
    r.keepalive();
    assert!(r.take("c.com", 2).is_none());
    r.invalid_tx();
    assert!(matches!(r.request("d.com", 3, addr(4, 1)), ResolveStep::Rebuild));
}

#[test]
fn dns_tunnel_carries_frames() {
    let mut t: DnsTunnel<u8, u8> = DnsTunnel::new(1, 5, 2, 0);
    let f = t.on_dns_udp_msg(b"q", addr(0x0a000001, 3000));
    assert_eq!(f, vec![0xb8, 0x0b, 0x01, 0x00, 0x00, 0x0a, b'q']);
    let (m, a) = t.on_tunnel_msg(WsKind::Data, &f, 0).unwrap();
    assert_eq!(m, b"q".to_vec());
    assert!(a == addr(0x0a000001, 3000));
    assert!(t.on_tunnel_msg(WsKind::Data, &[1, 2], 0).is_none());
    assert!(t.on_tunnel_msg(WsKind::Pong, &10u64.to_le_bytes(), 40).is_none());
    assert_eq!(t.get_rtt(), 6);
    let v6 = t.on_dns_udp_msg(b"", SockAddr { ip: IpAddr::V6(1), port: 1 });
    assert_eq!(v6, vec![1, 0, 0, 0, 0, 0]);
}

#[test]
fn forwarder_routes_queries() {
    let items = vec![
        DomainItem::Name("google.com".to_string()),
        DomainItem::Range(0x08080808, 32),
        DomainItem::Range(0x7f000001, 32),
        DomainItem::Range(0xe0000001, 32),
        DomainItem::Range(0x0a000000, 8),
    ];
    let (mut f, adds): (Forwarder<u8, u8, ()>, Vec<IpsetAdd>) = Forwarder::new(&cfg(), &items, addr(0x72727272, 53));
    assert!(adds == vec![IpsetAdd::Ip4(0x08080808), IpsetAdd::Net4(0x0a000000, 8)]);
    assert_eq!(f.udp_addr, "127.0.0.1:5001");
    assert_eq!(f.dns_server, "114.114.114.114:53");
    assert_eq!(f.ws_url(), "wss://relay/tun?dns=1&tok=tok");
    assert!(matches!(f.on_dns_udp_msg("www.google.com"), Route::NoTunnel));
    assert!(matches!(f.on_dns_udp_msg("www.baidu.com"), Route::Local));
    let mut slow: DnsTunnel<u8, u8> = DnsTunnel::new(1, 21, 9, 0);
    slow.append_rtt(100);
    f.on_tunnel_created(slow).unwrap();
    f.on_tunnel_created(DnsTunnel::new(2, 22, 9, 2)).unwrap();
    assert!(matches!(f.on_dns_udp_msg("www.google.com"), Route::Tunnel(2)));
    f.on_tunnel_closed(2);
    f.on_tunnel_build_error(1);
    assert_eq!(f.process_reconnect(false), Vec::<u16>::new());
    assert_eq!(f.process_reconnect(true), vec![1, 2]);
    assert!(f.keepalive());
    assert_eq!(f.stop(), vec![21]);
    assert!(!f.keepalive());
    assert!(matches!(f.on_dns_udp_msg("www.google.com"), Route::Dropped));
}

#[test]
fn forwarder_saves_answers() {
    let (f, _): (Forwarder<u8, u8, ()>, Vec<IpsetAdd>) = Forwarder::new(&cfg(), &vec![], addr(1, 53));
    let ans = vec![
        DnsAnswer::A("a.com".to_string(), 0x01020304),
        DnsAnswer::A("lo.com".to_string(), 0x7f000001),
        DnsAnswer::AAAA("a.com".to_string(), 0x20010db8 << 96),
        DnsAnswer::AAAA("lo6.com".to_string(), 1),
        DnsAnswer::Other,
    ];
    let (adds, rec) = f.save_ipset(&ans);
    assert!(adds == vec![IpsetAdd::Ip4(0x01020304), IpsetAdd::Ip6(0x20010db8 << 96)]);
    assert_eq!(rec.dns_records.len(), 4);
    assert_eq!(rec.dns_records[1].0, "lo.com");
    assert!(rec.dns_records[1].1 == IpAddr::V4(0x7f000001));
    assert!(query_result(&ans) == vec![IpAddr::V4(0x01020304), IpAddr::V4(0x7f000001)]);
}

#[test]
fn mydns_lookups() {
    let mut d = MyDns::new("8.8.8.8".to_string());
    d.on_init(Some(0x08080808));
    assert!(d.state == MyDnsState::Done);
    assert!(d.finish() == Some(IpAddr::V4(0x08080808)));
    let mut q = MyDns::new("a.com".to_string());
    q.on_init(None);
    q.on_sent();
    assert!(q.on_reply(&vec![DnsAnswer::Other]).is_err());
    assert!(q.on_reply(&vec![DnsAnswer::Other, DnsAnswer::A("a.com".to_string(), 5)]).is_ok());
    assert!(q.finish() == Some(IpAddr::V4(5)));
}

#[test]
fn acc_log_report() {
    let mut l = AccLog::new();
    assert!(l.is_empty());
    let mut da = DNSAddRecord::new();
    da.add(IpAddr::V4(0x01010101), &"one.com".to_string());
    l.domain_add(da);
    l.log(IpAddr::V4(0x01010101), IpAddr::V4(0xc0a80002), "1.1.1.1");
    l.log(IpAddr::V4(0x01010101), IpAddr::V4(0xc0a80002), "1.1.1.1");
    l.log(IpAddr::V4(0x01010101), IpAddr::V6(7), "1.1.1.1");
    l.log(IpAddr::V4(0x02020202), IpAddr::V4(0xc0a80003), "2.2.2.2");
    assert!(!l.is_empty());
    let r = l.dump_to_pb();
    assert_eq!(r.domains.len(), 2);
    let one = r.domains.iter().find(|d| d.domain == "one.com").unwrap();
    assert_eq!(one.srcIP, vec![0xc0a80002]);
    let two = r.domains.iter().find(|d| d.domain == "2.2.2.2").unwrap();
    assert_eq!(two.srcIP, vec![0xc0a80003]);
    l.clear_log();
    assert!(l.is_empty());
}

#[test]
fn service_new_strips_the_port() {
    let s = Service::new("u".to_string(), "8.8.8.8:53".to_string());
    assert_eq!(s.default_dns_server, "8.8.8.8");
    assert!(s.user_specify_dns_server);
    let d = Service::new("u".to_string(), "".to_string());
    assert_eq!(d.default_dns_server, "223.5.5.5");
    assert!(!d.user_specify_dns_server);
    assert_eq!(d.state, STATE_STOPPED);
}

#[test]
fn service_start_stop_restart() {
    let mut s = Service::new("u".to_string(), "".to_string());
    let c = s.start();
    assert!(c.contains("223.5.5.5"));
    assert_eq!(s.state, STATE_STARTING);
    let r = s.stop();
    assert_eq!(r.len(), 5);
    assert!(r[3].starts_with("ipset -X LPROXY"));
    assert_eq!(s.state, STATE_STOPPED);
    let rr = s.do_restart();
    assert_eq!(rr.len(), 6);
    assert_eq!(s.state, STATE_STARTING);
}

#[test]
fn service_auth_flow() {
    let mut s = Service::new("dev-1".to_string(), "9.9.9.9".to_string());
    match s.do_auth("0.1.0", "mips", vec!["aa".to_string()]) {
        AuthStep::Send(p) => {
            assert_eq!(p.url, "http://103.39.232.231:8002/auth");
            assert_eq!(p.dns_server, "9.9.9.9");
            assert_eq!(p.timeout_secs, 10);
            assert_eq!(p.body.unwrap(), "{\"uuid\":\"dev-1\",\"current_version\":\"0.1.0\",\"arch\":\"mips\", \"macs\":[\"aa\"]}");
        }
        _ => panic!("expected a request"),
    }
    // a failed request: again in 15 seconds
    let d = s.on_auth_response(None);
    assert_eq!(d.retry_after, Some(15));
    // a reply with a configuration: kept, with the user's DNS server, and the parts start
    let rsp = AuthResp::from_json_str("{\"token\":\"t\",\"tuncfg\":{\"domain_array\":[\"a.com\"]}}");
    let d = s.on_auth_reply(rsp);
    assert!(d.start_subservices);
    assert_eq!(d.retry_after, None);
    assert_eq!(s.domains, Some(vec!["a.com".to_string()]));
    assert_eq!(s.tuncfg.as_ref().unwrap().local_dns_server, "9.9.9.9");
    assert!(s.tuncfg.as_ref().unwrap().domain_array.is_none());
    // an error reply: again in 30 seconds
    let d = s.on_auth_reply(AuthResp::from_json_str("{\"error\":1}"));
    assert_eq!(d.retry_after, Some(30));
    // an upgrade
    let d = s.on_auth_reply(AuthResp::from_json_str("{\"need_upgrade\":true,\"upgrade_url\":\"http://u/b\"}"));
    assert_eq!(d.upgrade_url.as_deref(), Some("http://u/b"));
    assert_eq!(d.retry_after, Some(30));
}

#[test]
fn service_parses_replies() {
    let ok = HTTPResponse { status: 200, header: None, body: Some("{\"token\":\"x\"}".to_string()) };
    assert_eq!(parse_auth_reply(&ok).unwrap().token, "x");
    let bad = HTTPResponse { status: 500, header: None, body: Some("{}".to_string()) };
    assert!(parse_auth_reply(&bad).is_none());
    let mut s = Service::new("u".to_string(), "".to_string());
    let d = s.on_auth_response(Some(&bad));
    assert_eq!(d.retry_after, Some(30));
}

#[test]
fn service_monitor_report_download() {
    let mut s = Service::new("u".to_string(), "".to_string());
    s.on_auth_reply(AuthResp::from_json_str("{\"token\":\"t\",\"tuncfg\":{\"cfg_monitor_url\":\"https://m/c\",\"domains_ver\":\"3\"}}"));
    let p = s.do_cfg_monitor("0.1.0", "arm").unwrap();
    assert_eq!(p.url, "https://m/c?tok=t");
    assert_eq!(p.body.unwrap(), "{\"current_version\":\"0.1.0\",\"domains_ver\":\"3\",\"arch\":\"arm\"}");
    assert!(s.on_monitor_tick());
    let m = s.on_cfg_monitor_reply(AuthResp::from_json_str("{\"token\":\"t\",\"restart\":true,\"tuncfg\":{\"domain_array\":[\"x.com\"]}}"));
    assert!(m.cfg_updated);
    assert!(m.restart);
    assert_eq!(m.update_domains, Some(vec!["x.com".to_string()]));
    // nothing logged: no report
    assert!(s.do_access_report().is_none());
    s.do_access_log(vec![AccessRecord { src: IpAddr::V4(1), dst: IpAddr::V4(2), src_text: "0.0.0.1".to_string() }]);
    let rp = s.do_access_report().unwrap();
    assert_eq!(rp.url, "https://localhost:8000/accreport?tok=t");
    assert_eq!(rp.report.domains.len(), 1);
    assert!(s.acc_log.is_empty());
    match s.do_download("http://u/b") {
        DownloadStep::Fetch(p) => assert_eq!(p.timeout_secs, 60),
        _ => panic!("expected a fetch"),
    }
    assert!(matches!(s.do_download("http://u/b"), DownloadStep::Busy));
    let body = s.on_download_done(Some(HTTPResponse { status: 200, header: None, body: Some("bin".to_string()) }));
    assert_eq!(body.as_deref(), Some("bin"));
    assert!(!s.is_upgrading);
    let mut fresh = Service::new("u".to_string(), "".to_string());
    assert!(matches!(fresh.do_download("http://u/b"), DownloadStep::NoConfig));
}

#[test]
fn service_bad_urls_make_no_request() {
    let mut s = Service::new("u".to_string(), "".to_string());
    s.on_auth_reply(AuthResp::from_json_str("{\"token\":\"t\",\"tuncfg\":{\"cfg_monitor_url\":\"no url\"}}"));
    assert!(s.do_cfg_monitor("0.1.0", "arm").is_none());
    assert!(matches!(s.do_download("not a url"), DownloadStep::BadUrl));
    assert!(!s.is_upgrading);
    assert!(matches!(s.do_download("http://u/b"), DownloadStep::Fetch(_)));
    assert!(s.is_upgrading);
}

#[test]
fn service_report_lists_addresses() {
    let mut s = Service::new("u".to_string(), "".to_string());
    s.on_auth_reply(AuthResp::from_json_str("{\"token\":\"t\",\"tuncfg\":{}}"));
    s.do_access_log(vec![
        AccessRecord { src: IpAddr::V4(1), dst: IpAddr::V4(2), src_text: "0.0.0.1".to_string() },
        AccessRecord { src: IpAddr::V4(1), dst: IpAddr::V4(3), src_text: "0.0.0.1".to_string() },
        AccessRecord { src: IpAddr::V4(1), dst: IpAddr::V4(2), src_text: "0.0.0.1".to_string() },
    ]);
    let rp = s.do_access_report().unwrap();
    assert_eq!(rp.report.domains.len(), 1);
    let mut ips = rp.report.domains[0].srcIP.clone();
    ips.sort();
    assert_eq!(ips, vec![2, 3]);
}

#[test]
fn service_subservices() {
    let mut s = Service::new("u".to_string(), "".to_string());
    s.on_auth_reply(AuthResp::from_json_str("{\"token\":\"t\",\"tuncfg\":{\"work_as_global\":true,\"domain_array\":[\"a.com\"]}}"));
    let (domains, before, after) = s.do_start_subservices();
    assert_eq!(domains, vec!["a.com".to_string()]);
    assert!(before.starts_with("ipset -N LPROXY iphash"));
    assert!(after.contains("127.0.0.1#5001"));
    let c = s.on_subservices_started(true).unwrap();
    assert_eq!(c.len(), 4);
    assert!(c[1].contains("-j RETURN"));
    assert_eq!(s.state, STATE_RUNNING);
    assert_eq!(s.on_subservices_started(false).err(), Some(5));
}

#[test]
fn upgrade_paths_swap_a_and_b() {
    let u = upgrade_target("/opt/lproxy/a").unwrap();
    assert_eq!(u.dir, "/opt/lproxy/b");
    assert_eq!(u.binary, "/opt/lproxy/b/lproxy-cv");
    assert_eq!(u.script, "/opt/lproxy/lps.sh");
    let v = upgrade_target("/b").unwrap();
    assert_eq!(v.dir, "/a");
    assert_eq!(v.binary, "/a/lproxy-cv");
    assert!(upgrade_target("/opt/lproxy/c").is_none());
    assert!(upgrade_target("/opt/ab").is_none());
}

#[test]
fn tunnels_share_of_each_manager() {
    assert_eq!(tunnels_per_mgr(8, 4), 2);
    assert_eq!(tunnels_per_mgr(2, 4), 1);
    assert_eq!(tunnels_per_mgr(0, 1), 1);
}

#[test]
fn dns_tunnel_rtt_is_mean_of_last_five_samples() {
    let mut t: DnsTunnel<u8, u8> = DnsTunnel::new(1, 5, 2, 0);
    for x in 1i64..=7 {
        t.append_rtt(x);
    }
    assert_eq!(t.get_rtt(), 5);
}

#[test]
fn tunmgr_outcome_keeps_started_ones() {
    assert_eq!(tunmgr_outcome(vec![Some(1u8), Some(2)]), Ok(vec![1, 2]));
    assert_eq!(tunmgr_outcome(vec![Some(1u8), None, Some(3)]), Err(vec![1, 3]));
    assert_eq!(tunmgr_outcome::<u8>(vec![None]), Err(vec![]));
}

#[test]
fn service_auth_response_keeps_configuration_and_domains() {
    let mut s = Service::new("u".to_string(), "9.9.9.9".to_string());
    let body = r#"{"token":"t","tuncfg":{"domain_array":["a.com","b.com"],"relay_port":99}}"#;
    let ok = HTTPResponse { status: 200, header: None, body: Some(body.to_string()) };
    let d = s.on_auth_response(Some(&ok));
    assert!(d.start_subservices);
    assert_eq!(s.domains, Some(vec!["a.com".to_string(), "b.com".to_string()]));
    let c = s.tuncfg.as_ref().unwrap();
    assert_eq!(c.token, "t");
    assert_eq!(c.relay_port, 99);
    assert_eq!(c.local_dns_server, "9.9.9.9");
    assert!(c.domain_array.is_none());
}
