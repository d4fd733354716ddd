use lproxy_cv::netlink::{align4, construct_ipset_packet, NfGenMsg, NlAttr, NlMsgHdr};
use lproxy_cv::dns::{decode_dns_frame, encode_dns_frame};
use lproxy_cv::lws::{handshake_request, read_from_tail, do_client_hanshake, CHState, HandshakeError};
use lproxy_cv::textutil::{find_bytes, split_on_dots, parse_i32, append_decimal};
use lproxy_cv::version::to_version_number;

#[test]
fn align4_rounds_up_to_four() {
    assert_eq!(align4(0), 0);
    assert_eq!(align4(1), 4);
    assert_eq!(align4(4), 4);
    assert_eq!(align4(5), 8);
    assert_eq!(align4(11), 12);
}

#[test]
fn nlmsghdr_is_an_ipset_add_request() {
    let h = NlMsgHdr::new();
    assert_eq!(h.length, 0);
    assert_eq!(h.message_type, 0x0609);
    assert_eq!(h.flags, 1);
    assert_eq!(h.align_size(), 16);
    let g = NfGenMsg::new(2);
    assert_eq!(g.nfgen_family, 2);
    assert_eq!(g.align_size(), 4);
    let a = NlAttr::new_data(2, 7);
    assert_eq!(a.nla_len, 11);
    assert_eq!(a.align_size(), 12);
}

#[test]
fn nlmsghdr_write_uses_native_byte_order() {
    let mut h = NlMsgHdr::new();
    h.length = 56;
    let mut buf = vec![0u8; 16];
    h.write_to(&mut buf, 0);
    assert_eq!(&buf[0..4], &56u32.to_ne_bytes());
    assert_eq!(&buf[4..6], &0x0609u16.to_ne_bytes());
    assert_eq!(&buf[6..8], &1u16.to_ne_bytes());
}

#[test]
fn ipset_packet_for_an_ipv4_address() {
    let mut out = vec![0xAAu8; 128];
    let len = construct_ipset_packet("LPROXY\0", &[10, 0, 0, 1], &mut out);
    assert_eq!(len, 56);
    assert_eq!(&out[0..4], &56u32.to_ne_bytes());
    assert_eq!(out[16], 2);
    // protocol attribute
    assert_eq!(out[24], 6);
    // set name
    assert_eq!(&out[32..39], b"LPROXY\0");
    // the address, in network order, at the end
    assert_eq!(&out[52..56], &[10, 0, 0, 1]);
    // padding keeps what was there
    assert_eq!(out[25], 0xAA);
}

#[test]
fn ipset_packet_for_an_ipv6_address() {
    let mut out = vec![0u8; 128];
    let ip = [0x20u8, 1, 0x0d, 0xb8, 0, 0, 0, 0, 0, 0, 0, 0, 0, 0, 0, 1];
    let len = construct_ipset_packet("LPROXY6\0", &ip, &mut out);
    assert_eq!(len, 16 + 4 + 8 + 12 + 8 + 20);
    assert_eq!(&out[(len as usize - 16)..(len as usize)], &ip);
}

#[test]
fn dns_frame_round_trip() {
    let f = encode_dns_frame(0x1234, 0x0a000001, b"query");
    assert_eq!(f, vec![0x34, 0x12, 0x01, 0x00, 0x00, 0x0a, b'q', b'u', b'e', b'r', b'y']);
    let (p, ip, m) = decode_dns_frame(&f).unwrap();
    assert_eq!(p, 0x1234);
    assert_eq!(ip, 0x0a000001);
    assert_eq!(m, b"query".to_vec());
}

#[test]
fn dns_frame_too_short() {
    assert!(decode_dns_frame(&[1, 2, 3, 4, 5]).is_none());
    let (p, ip, m) = decode_dns_frame(&[1, 0, 2, 0, 0, 0]).unwrap();
    assert_eq!((p, ip), (1, 2));
    assert!(m.is_empty());
}

#[test]
fn handshake_request_text() {
    let h = handshake_request("relay.example.com", "/tun?tok=x", "S2V5");
    assert_eq!(
        h,
        "GET /tun?tok=x HTTP/1.1\r\nHost: relay.example.com\r\nConnection: upgrade\r\nUpgrade: websocket\r\nSec-WebSocket-Version: 13\r\nSec-WebSocket-Key: S2V5\r\n\r\n"
    );
}

#[test]
fn handshake_has_a_sixteen_byte_key() {
    let hs = do_client_hanshake(7u32, "h", "/p");
    assert!(hs.state == CHState::WritingHeader);
    let line = hs.request.lines().find(|l| l.starts_with("Sec-WebSocket-Key: ")).unwrap();
    let key = &line["Sec-WebSocket-Key: ".len()..];
    // sixteen bytes in base64 with padding
    assert_eq!(key.len(), 24);
    assert!(key.ends_with("=="));
}

#[test]
fn handshake_reads_to_the_end_of_the_head() {
    let mut hs = do_client_hanshake(1u8, "h", "/p");
    hs.on_written(true);
    assert!(hs.state == CHState::ReadingResponse);
    assert_eq!(hs.on_read(b"HTTP/1.1 101 Switching\r\n").ok(), Some(false));
    assert_eq!(hs.on_read(b"Upgrade: websocket\r\n\r\nxyz").ok(), Some(true));
    assert!(hs.state == CHState::Done);
    let (io, rest) = hs.finish();
    assert_eq!(io, Some(1u8));
    assert_eq!(rest, Some(b"xyz".to_vec()));
}

#[test]
fn handshake_errors() {
    let mut hs = do_client_hanshake(1u8, "h", "/p");
    hs.on_written(true);
    assert!(hs.on_read(b"") == Err(HandshakeError::Incomplete));
    hs.read_buf = vec![b'a'; 1024];
    assert!(hs.read_room() == Err(HandshakeError::HeaderTooLarge));
    hs.read_buf = vec![b'a'; 1000];
    assert!(hs.read_room() == Ok(24));
}

#[test]
fn tail_is_split_by_room() {
    let (a, b) = read_from_tail(&vec![1, 2, 3, 4, 5], 3);
    assert_eq!(a, vec![1, 2, 3]);
    assert_eq!(b, vec![4, 5]);
    let (a, b) = read_from_tail(&vec![1, 2], 3);
    assert_eq!(a, vec![1, 2]);
    assert!(b.is_empty());
}

#[test]
fn text_helpers() {
    assert_eq!(find_bytes(b"abcabc", b"ca"), Some(2));
    assert_eq!(find_bytes(b"abc", b"x"), None);
    assert_eq!(split_on_dots("www.example.com"), vec!["www", "example", "com"]);
    assert_eq!(parse_i32(b"200"), Some(200));
    assert_eq!(parse_i32(b"2x"), None);
    let mut s = String::from("n=");
    append_decimal(&mut s, 5001);
    assert_eq!(s, "n=5001");
}

#[test]
fn version_number_packs_parts_by_eight_bits() {
    assert_eq!(to_version_number("0.1.0"), 0x0100);
    assert_eq!(to_version_number("1.2.3"), 0x010203);
    assert_eq!(to_version_number("7"), 7);
}
