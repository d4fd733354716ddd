use lproxy_cv::config::{server_url, AuthReq, AuthResp, CfgMonitorReq, Json, TunCfg};
use lproxy_cv::htp::{HTTPRequest, HTTPResponse};
use lproxy_cv::cv::{AccDomain, AccReport};
use std::io::Write;

#[test]
fn server_url_is_the_auth_service() {
    assert_eq!(server_url(), "http://103.39.232.231:8002/auth");
}

#[test]
fn auth_request_json() {
    let ar = AuthReq {
        uuid: "u-1".to_string(),
        current_version: "0.1.0".to_string(),
        arch: "mips".to_string(),
        macs: vec!["aa:bb".to_string(), "cc:dd".to_string()],
    };
    assert_eq!(
        ar.to_json_str(),
        "{\"uuid\":\"u-1\",\"current_version\":\"0.1.0\",\"arch\":\"mips\", \"macs\":[\"aa:bb\",\"cc:dd\"]}"
    );
    let empty = AuthReq { uuid: "u".to_string(), current_version: "v".to_string(), arch: "a".to_string(), macs: vec![] };
    assert_eq!(empty.to_json_str(), "{\"uuid\":\"u\",\"current_version\":\"v\",\"arch\":\"a\", \"macs\":[]}");
}

#[test]
fn cfg_monitor_request_json() {
    let r = CfgMonitorReq { current_version: "1.0".to_string(), domains_ver: "2".to_string(), arch: "x86_64".to_string() };
    assert_eq!(r.to_json_str(), "{\"current_version\":\"1.0\",\"domains_ver\":\"2\",\"arch\":\"x86_64\"}");
}

#[test]
fn auth_reply_with_defaults() {
    let a = AuthResp::from_json_str("{\"token\":\"abc\",\"tuncfg\":{\"tunnel_number\":4}}").unwrap();
    assert_eq!(a.token, "abc");
    assert_eq!(a.error, 0);
    assert!(!a.restart);
    assert!(!a.need_upgrade);
    assert_eq!(a.upgrade_url, "");
    let c = a.tuncfg.unwrap();
    assert_eq!(c.tunnel_number, 4);
    assert_eq!(c.request_quota, 10);
    assert_eq!(c.tunnel_url, "wss://127.0.0.1/tun");
    assert_eq!(c.xport_url, "https://localhost:8000/xportlws");
    assert_eq!(c.cfg_monitor_url, "https://localhost:8000/cfgmonitor");
    assert_eq!(c.cfg_access_report_url, "https://localhost:8000/accreport");
    assert_eq!(c.tunnel_req_cap, 100);
    assert_eq!(c.relay_domain, "127.0.0.1");
    assert_eq!(c.relay_port, 12345);
    assert_eq!(c.domains_ver, "0.1.0");
    assert_eq!(c.local_dns_server, "223.5.5.5:53");
    assert_eq!(c.dns_tunnel_number, 1);
    assert!(!c.work_as_global);
    assert_eq!(c.domain_array, Some(vec![]));
    assert_eq!(c.token, "abc");
}

#[test]
fn auth_reply_fields_read() {
    let a = AuthResp::from_json_str(
        "{\"error\":3,\"restart\":true,\"need_upgrade\":true,\"upgrade_url\":\"http://u\",\"tuncfg\":{\"relay_port\":443,\"work_as_global\":true,\"domain_array\":[\"a.com\",5,\"b.org\"]}}",
    )
    .unwrap();
    assert_eq!(a.error, 3);
    assert!(a.restart);
    assert!(a.need_upgrade);
    assert_eq!(a.upgrade_url, "http://u");
    assert_eq!(a.token, "");
    let c = a.tuncfg.unwrap();
    assert_eq!(c.relay_port, 443);
    assert!(c.work_as_global);
    assert_eq!(c.domain_array, Some(vec!["a.com".to_string(), "b.org".to_string()]));
}

#[test]
fn auth_reply_without_tuncfg_or_not_json() {
    let a = AuthResp::from_json_str("{\"token\":5,\"tuncfg\":3}").unwrap();
    assert_eq!(a.token, "");
    assert!(a.tuncfg.is_none());
    assert!(AuthResp::from_json_str("not json").is_none());
}

#[test]
fn http_response_parse() {
    let raw = b"HTTP/1.1 200 OK\r\nContent-Type: text/plain\r\n\r\nhello".to_vec();
    let r = HTTPResponse::parse(&raw).unwrap();
    assert_eq!(r.status, 200);
    assert_eq!(r.header.as_deref(), Some("HTTP/1.1 200 OK\r\nContent-Type: text/plain"));
    assert_eq!(r.body.as_deref(), Some("hello"));
}

#[test]
fn http_response_without_head_end() {
    let r = HTTPResponse::parse(&b"HTTP/1.1 200 OK\r\n".to_vec()).unwrap();
    assert_eq!(r.status, 0);
    assert!(r.header.is_none());
    assert!(r.body.is_none());
}

#[test]
fn http_response_gzip_body() {
    let mut enc = flate2::write::GzEncoder::new(Vec::new(), flate2::Compression::default());
    enc.write_all(b"{\"token\":\"t\"}").unwrap();
    let gz = enc.finish().unwrap();
    let mut raw = b"HTTP/1.1 200 OK\r\nContent-Encoding: gzip\r\n\r\n".to_vec();
    raw.extend_from_slice(&gz);
    let r = HTTPResponse::parse(&raw).unwrap();
    assert_eq!(r.status, 200);
    assert_eq!(r.body.as_deref(), Some("{\"token\":\"t\"}"));
}

#[test]
fn http_response_bad_gzip_is_refused() {
    let raw = b"HTTP/1.1 200 OK\r\nContent-Encoding: gzip\r\n\r\nnot gzip".to_vec();
    assert!(HTTPResponse::parse(&raw).is_none());
}

#[test]
fn http_status_extraction() {
    assert_eq!(HTTPResponse::extract_status("HTTP/1.0 200 OK"), 200);
    // the code is read only where " OK" follows it
    assert_eq!(HTTPResponse::extract_status("HTTP/1.0 302 Found"), 0);
    assert_eq!(HTTPResponse::extract_status("no status line"), 0);
}

#[test]
fn http_request_head() {
    let req = HTTPRequest::new("https://example.com/auth/x?q=1").unwrap();
    assert!(req.is_secure());
    assert_eq!(req.url().host.as_deref(), Some("example.com"));
    assert_eq!(req.url().port, Some(443));
    assert_eq!(
        req.to_http_header(12),
        "POST /auth/x HTTP/1.0\r\nHost: example.com\r\nAccept-Encoding: gzip\r\nContent-Length: 12 \r\nContent-Type: application/json; charset=utf-8 \r\n\r\n"
    );
    let get = HTTPRequest::new("http://h:8002/a").unwrap();
    assert!(!get.is_secure());
    assert_eq!(get.url().port, Some(8002));
    assert!(get.to_http_header(0).starts_with("GET /a HTTP/1.0\r\nHost: h\r\n"));
    assert!(HTTPRequest::new("not a url").is_err());
}

#[test]
fn auth_module_request_head() {
    let req = lproxy_cv::auth::HTTPRequest::new("http://h/p").unwrap();
    assert_eq!(req.to_http_header(), "GET /p HTTP/1.0\r\nHost: h\r\n\r\n");
    let r = lproxy_cv::auth::HTTPResponse::parse(&b"HTTP/1.0 200 OK\r\n\r\nbody".to_vec()).unwrap();
    assert_eq!(r.status, 200);
}

#[test]
fn access_report_messages() {
    let mut d = AccDomain::new();
    d.set_domain("a.com".to_string());
    d.set_srcIP(vec![1, 2]);
    assert_eq!(d.get_domain(), "a.com");
    assert_eq!(d.get_srcIP(), &[1, 2]);
    d.mut_srcIP().push(3);
    assert_eq!(d.take_srcIP(), vec![1, 2, 3]);
    assert!(d.get_srcIP().is_empty());
    assert_eq!(d.take_domain(), "a.com");
    assert_eq!(d.get_domain(), "");
    let mut r = AccReport::new();
    r.mut_domains().push(AccDomain::new());
    assert_eq!(r.get_domains().len(), 1);
    r.clear_domains();
    assert!(r.get_domains().is_empty());
}

#[test]
fn access_report_protobuf_bytes() {
    let mut d = AccDomain::new();
    d.set_domain("a".to_string());
    d.set_srcIP(vec![1, 300]);
    assert_eq!(d.write_to_bytes().unwrap(), vec![0x0a, 0x01, b'a', 0x10, 0x01, 0x10, 0xac, 0x02]);
    let mut r = AccReport::new();
    r.set_domains(vec![d, AccDomain::new()]);
    assert_eq!(
        r.write_to_bytes().unwrap(),
        vec![0x0a, 0x08, 0x0a, 0x01, b'a', 0x10, 0x01, 0x10, 0xac, 0x02, 0x0a, 0x00]
    );
    assert_eq!(AccReport::new().write_to_bytes().unwrap(), Vec::<u8>::new());
}

#[test]
fn macs_that_are_set_are_written_out() {
    let macs = lproxy_cv::service::fetch_all_macs(&vec![[0u8; 6], [0xaa, 0xbb, 0xcc, 0xdd, 0xee, 0x0f], [0, 0, 0, 0, 0, 1]]);
    assert_eq!(macs, vec!["AA:BB:CC:DD:EE:0F".to_string(), "00:00:00:00:00:01".to_string()]);
}

#[test]
fn auth_reply_values_of_a_concrete_reply() {
    let s = r#"{"token":"t1","tuncfg":{"relay_port":443,"domain_array":["a.com",7,"b.com"]}}"#;
    let r = AuthResp::from_json_str(s).unwrap();
    assert_eq!(r.token, "t1");
    assert_eq!(r.error, 0);
    assert!(!r.restart);
    assert!(!r.need_upgrade);
    assert_eq!(r.upgrade_url, "");
    let c = r.tuncfg.unwrap();
    assert_eq!(c.token, "t1");
    assert_eq!(c.relay_port, 443);
    assert_eq!(c.domain_array, Some(vec!["a.com".to_string(), "b.com".to_string()]));
    assert_eq!(c.tunnel_number, 2);
    assert_eq!(c.request_quota, 10);
}

#[test]
fn auth_reply_of_any_json_value_takes_defaults() {
    for s in ["5", "[]", "null", "\"x\"", "{}"] {
        let r = AuthResp::from_json_str(s).unwrap();
        assert_eq!(r.error, 0);
        assert_eq!(r.token, "");
        assert!(!r.restart);
        assert!(!r.need_upgrade);
        assert_eq!(r.upgrade_url, "");
        assert!(r.tuncfg.is_none());
    }
    assert!(AuthResp::from_json_str("not json").is_none());
    assert!(AuthResp::from_json_str("").is_none());
}

#[test]
fn auth_reply_wrongly_typed_members_take_defaults() {
    let s = r#"{"error":"5","restart":1,"need_upgrade":true,"upgrade_url":7,"tuncfg":"x"}"#;
    let r = AuthResp::from_json_str(s).unwrap();
    assert_eq!(r.error, 0);
    assert_eq!(r.token, "");
    assert!(!r.restart);
    assert!(r.need_upgrade);
    assert_eq!(r.upgrade_url, "");
    assert!(r.tuncfg.is_none());
    let neg = AuthResp::from_json_str(r#"{"error":-3,"tuncfg":{"relay_port":-1,"tunnel_number":1.5}}"#).unwrap();
    assert_eq!(neg.error, -3);
    let c = neg.tuncfg.unwrap();
    assert_eq!(c.relay_port, 12345);
    assert_eq!(c.tunnel_number, 2);
}

#[test]
fn auth_reply_empty_tuncfg_takes_defaults() {
    let c = AuthResp::from_json_str(r#"{"tuncfg":{}}"#).unwrap().tuncfg.unwrap();
    assert_eq!(c.tunnel_number, 2);
    assert_eq!(c.request_quota, 10);
    assert_eq!(c.tunnel_req_cap, 100);
    assert_eq!(c.relay_port, 12345);
    assert_eq!(c.dns_tunnel_number, 1);
    assert!(!c.work_as_global);
    assert_eq!(c.relay_domain, "127.0.0.1");
    assert_eq!(c.domains_ver, "0.1.0");
    assert_eq!(c.local_dns_server, "223.5.5.5:53");
    assert_eq!(c.tunnel_url, "wss://127.0.0.1/tun");
    assert_eq!(c.xport_url, "https://localhost:8000/xportlws");
    assert_eq!(c.cfg_monitor_url, "https://localhost:8000/cfgmonitor");
    assert_eq!(c.cfg_access_report_url, "https://localhost:8000/accreport");
    assert_eq!(c.domain_array, Some(vec![]));
    assert_eq!(c.token, "");
}

#[test]
fn auth_reply_from_a_built_json_value() {
    let cfg = Json::Object(vec![
        ("relay_port".to_string(), Json::Number(Some(80), Some(80))),
        ("domain_array".to_string(), Json::Array(vec![Json::Str("z.org".to_string()), Json::Null])),
    ]);
    let v = Json::Object(vec![
        ("token".to_string(), Json::Str("k".to_string())),
        ("restart".to_string(), Json::Bool(true)),
        ("token".to_string(), Json::Str("later".to_string())),
        ("tuncfg".to_string(), cfg),
    ]);
    let r = AuthResp::from_json(&v);
    assert_eq!(r.token, "k");
    assert!(r.restart);
    let c: TunCfg = r.tuncfg.unwrap();
    assert_eq!(c.relay_port, 80);
    assert_eq!(c.token, "k");
    assert_eq!(c.domain_array, Some(vec!["z.org".to_string()]));
}

#[test]
fn http_response_utf8_texts_kept() {
    let raw = "HTTP/1.1 200 OK\r\nX: é\r\n\r\nhé ✓".as_bytes().to_vec();
    let r = HTTPResponse::parse(&raw).unwrap();
    assert_eq!(r.status, 200);
    assert_eq!(r.header.as_deref(), Some("HTTP/1.1 200 OK\r\nX: é"));
    assert_eq!(r.body.as_deref(), Some("hé ✓"));
}

#[test]
fn auth_reply_repeated_key_takes_the_last() {
    let r = AuthResp::from_json_str(r#"{"token":"a","token":"b"}"#).unwrap();
    assert_eq!(r.token, "b");
}
