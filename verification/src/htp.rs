//! A small HTTP/1.0 client: the request head it sends and the reply it reads.
use std::io::Read;
use vstd::prelude::*;
use vstd::string::StringExecFns;
use vstd::string::StringSliceAdditionalSpecFns;
use crate::textutil::{append_decimal, decimal, matches_at, copy_range, find_bytes, find_first, lemma_find_from, parse_i32, parse_i32_spec};

verus! {

/// The text that `String::from_utf8_lossy` makes of `b`.
pub uninterp spec fn lossy_text(b: Seq<u8>) -> Seq<char>;

/// The text that a gzip stream `b` decompresses to, as `flate2::read::GzDecoder` with
/// `read_to_string` gives it; `None` where that fails.
pub uninterp spec fn gunzip_text(b: Seq<u8>) -> Option<Seq<char>>;

/// The parts of the URL `text` as `url::Url::parse` and its accessors give them:
/// scheme, host, path, query and port (the scheme's known port where none is written);
/// `None` where the text does not parse.
pub uninterp spec fn url_parts(text: Seq<char>) -> Option<(Seq<char>, Option<Seq<char>>, Seq<char>, Option<Seq<char>>, Option<u16>)>;

/// Decodes `b` with `String::from_utf8_lossy`: valid UTF-8 comes back as the text it
/// encodes (as std documents); what it makes of other bytes is named by `lossy_text`.
#[verifier::external_body]
pub(crate) fn utf8_lossy(b: &[u8]) -> (r: String)
    ensures
        r@ == lossy_text(b@),
        vstd::utf8::valid_utf8(b@) ==> r@ == vstd::utf8::decode_utf8(b@),
{
    String::from_utf8_lossy(b).to_string()
}

/// Decompresses the gzip stream `b` into text with `flate2::read::GzDecoder`.
#[verifier::external_body]
fn gunzip(b: &[u8]) -> (r: Option<String>)
    ensures
        match r {
            Some(t) => gunzip_text(b@) == Some(t@),
            None => gunzip_text(b@) is None,
        },
{
    let mut gz = flate2::read::GzDecoder::new(b);
    let mut s = String::new();
    match gz.read_to_string(&mut s) {
        Ok(_) => Some(s),
        Err(_) => None,
    }
}

/// The parts of a URL that the client reads.
pub struct UrlParts {
    pub scheme: String,
    pub host: Option<String>,
    pub path: String,
    pub query: Option<String>,
    pub port: Option<u16>,
}

pub open spec fn opt_text(o: Option<String>) -> Option<Seq<char>> {
    match o {
        Some(s) => Some(s@),
        None => None,
    }
}

impl UrlParts {
    pub open spec fn spec_parts(&self) -> (Seq<char>, Option<Seq<char>>, Seq<char>, Option<Seq<char>>, Option<u16>) {
        (self.scheme@, opt_text(self.host), self.path@, opt_text(self.query), self.port)
    }
}

/// Parses `text` with `url::Url::parse` and reads its parts.
#[verifier::external_body]
pub(crate) fn parse_url(text: &str) -> (r: Option<UrlParts>)
    ensures
        match r {
            Some(p) => url_parts(text@) == Some(p.spec_parts()),
            None => url_parts(text@) is None,
        },
{
    match url::Url::parse(text) {
        Ok(u) => Some(UrlParts {
            scheme: u.scheme().to_string(),
            host: u.host_str().map(|h| h.to_string()),
            path: u.path().to_string(),
            query: u.query().map(|q| q.to_string()),
            port: u.port_or_known_default(),
        }),
        Err(_) => None,
    }
}

/// The URL that a request was made with did not parse.
#[derive(Debug)]
pub struct UrlError;

pub struct HTTPResponse {
    pub status: i32,
    pub header: Option<String>,
    pub body: Option<String>,
}

/// The bytes of the text `t`.
pub open spec fn text_bytes(t: Seq<char>) -> Seq<u8> {
    vstd::utf8::encode_utf8(t)
}

/// The end of an HTTP head.
pub open spec fn head_end() -> Seq<u8> {
    seq![13u8, 10, 13, 10]
}

/// `gzip`
pub open spec fn gzip_word() -> Seq<u8> {
    seq![103u8, 122, 105, 112]
}

/// ` OK`
pub open spec fn ok_word() -> Seq<u8> {
    seq![32u8, 79, 75]
}

/// `HTTP/1.`
pub open spec fn http1_word() -> Seq<u8> {
    seq![72u8, 84, 84, 80, 47, 49, 46]
}

/// Cutting the head at `skip` bytes past `marker` stays inside the text and on a character
/// boundary (a cut elsewhere would be out of the text).
pub open spec fn status_cut_ok(h: Seq<u8>, marker: Seq<u8>, skip: int) -> bool {
    match find_first(h, marker) {
        None => true,
        Some(p) => p + skip <= h.len() && vstd::utf8::is_char_boundary(h, p + skip),
    }
}

/// The status code written in the head `h`: the number between `skip` bytes past the first
/// `marker` and the following ` OK`; 0 where there is none.
pub open spec fn status_spec(h: Seq<u8>, marker: Seq<u8>, skip: int) -> i32 {
    match find_first(h, marker) {
        None => 0,
        Some(p) => {
            let rest = h.subrange(p + skip, h.len() as int);
            match find_first(rest, ok_word()) {
                None => 0,
                Some(q) => match parse_i32_spec(rest.subrange(0, q)) {
                    Some(v) => v,
                    None => 0,
                },
            }
        },
    }
}

/// Reads the status code from the head `header_str` as `status_spec` says.
pub fn status_from(header_str: &str, marker: &[u8], skip: usize) -> (r: i32)
    requires
        status_cut_ok(header_str.spec_bytes(), marker@, skip as int),
    ensures
        r == status_spec(header_str.spec_bytes(), marker@, skip as int),
{
    let h = header_str.as_bytes();
    let _hl = h.len();
    match find_bytes(h, marker) {
        Some(pos1) => {
            let pos1 = pos1 + skip;
            let next = copy_range(h, pos1, h.len());
            let ok: [u8; 3] = [32u8, 79, 75];
            assert(ok@ =~= ok_word());
            match find_bytes(next.as_slice(), ok.as_slice()) {
                Some(pos2) => {
                    proof {
                        lemma_find_from(next@, ok_word(), 0);
                    }
                    let status_str = copy_range(next.as_slice(), 0, pos2);
                    if let Some(i) = parse_i32(status_str.as_slice()) {
                        return i;
                    }
                },
                None => {},
            }
        },
        None => {},
    }
    0
}

/// Checks that `status_from` can cut the head `header_str`.
pub fn status_cut_checked(header_str: &str, marker: &[u8], skip: usize) -> (r: bool)
    ensures
        r == status_cut_ok(header_str.spec_bytes(), marker@, skip as int),
{
    let h = header_str.as_bytes();
    match find_bytes(h, marker) {
        Some(p) => {
            if p > h.len() || skip > h.len() - p {
                false
            } else {
                header_str.is_char_boundary(p + skip)
            }
        },
        None => true,
    }
}

/// What reading the reply `b` gives: status, head and body; `None` where the reply
/// cannot be read (a head that cannot be cut at the status, or a gzip body that does not
/// decompress).
pub open spec fn response_spec(b: Seq<u8>) -> Option<(i32, Option<Seq<char>>, Option<Seq<char>>)> {
    match find_first(b, head_end()) {
        None => Some((0i32, None, None)),
        Some(pos) => {
            let head = lossy_text(b.subrange(0, pos));
            let hb = text_bytes(head);
            let rest = b.subrange(pos + 4, b.len() as int);
            if !status_cut_ok(hb, http1_word(), 9) {
                None
            } else if find_first(hb, gzip_word()) is Some {
                match gunzip_text(rest) {
                    None => None,
                    Some(t) => Some((status_spec(hb, http1_word(), 9), Some(head), Some(t))),
                }
            } else {
                Some((status_spec(hb, http1_word(), 9), Some(head), Some(lossy_text(rest))))
            }
        },
    }
}

impl HTTPResponse {
    pub open spec fn spec_parts(&self) -> (i32, Option<Seq<char>>, Option<Seq<char>>) {
        (self.status, opt_text(self.header), opt_text(self.body))
    }

    /// Reads the reply `bytes`: the head ends at the first empty line, the status code
    /// follows `HTTP/1.`, and a head that mentions gzip has a gzip body. A head, and a
    /// plain body, that are valid UTF-8 come back as the text they encode.
    pub fn parse(bytes: &Vec<u8>) -> (r: Option<HTTPResponse>)
        ensures
            match r {
                Some(resp) => response_spec(bytes@) == Some(resp.spec_parts()),
                None => response_spec(bytes@) is None,
            },
            r matches Some(resp) ==> (find_first(bytes@, head_end()) matches Some(pos) ==> {
                let hb = bytes@.subrange(0, pos);
                let rest = bytes@.subrange(pos + 4, bytes@.len() as int);
                &&& vstd::utf8::valid_utf8(hb) ==> opt_text(resp.header) == Some(
                    vstd::utf8::decode_utf8(hb),
                )
                &&& find_first(text_bytes(lossy_text(hb)), gzip_word()) is None
                    && vstd::utf8::valid_utf8(rest) ==> opt_text(resp.body) == Some(
                    vstd::utf8::decode_utf8(rest),
                )
            }),
    {
        let blen = bytes.len();
        let needle: [u8; 4] = [13u8, 10, 13, 10];
        assert(needle@ =~= head_end());
        match find_bytes(bytes.as_slice(), needle.as_slice()) {
            Some(pos) => {
                proof {
                    lemma_find_from(bytes@, head_end(), 0);
                    assert(matches_at(bytes@, head_end(), pos as int));
                    assert(head_end().len() == 4);
                }
                let head_bytes = copy_range(bytes.as_slice(), 0, pos);
                let s = utf8_lossy(head_bytes.as_slice());
                let marker: [u8; 7] = [72u8, 84, 84, 80, 47, 49, 46];
                assert(marker@ =~= http1_word());
                if !status_cut_checked(s.as_str(), marker.as_slice(), 9) {
                    return None;
                }
                let status = HTTPResponse::extract_status(s.as_str());
                let gz: [u8; 4] = [103u8, 122, 105, 112];
                assert(gz@ =~= gzip_word());
                let gzip = find_bytes(s.as_str().as_bytes(), gz.as_slice()).is_some();
                let bb = copy_range(bytes.as_slice(), pos + 4, blen);
                let body = if gzip {
                    match gunzip(bb.as_slice()) {
                        Some(t) => t,
                        None => {
                            return None;
                        },
                    }
                } else {
                    utf8_lossy(bb.as_slice())
                };
                Some(HTTPResponse { status, header: Some(s), body: Some(body) })
            },
            None => Some(HTTPResponse { status: 0, header: None, body: None }),
        }
    }

    /// The status code after `HTTP/1.` in the head, or 0.
    pub fn extract_status(header_str: &str) -> (r: i32)
        requires
            status_cut_ok(header_str.spec_bytes(), http1_word(), 9),
        ensures
            r == status_spec(header_str.spec_bytes(), http1_word(), 9),
    {
        let marker: [u8; 7] = [72u8, 84, 84, 80, 47, 49, 46];
        assert(marker@ =~= http1_word());
        status_from(header_str, marker.as_slice(), 9)
    }
}

/// A request to one URL.
pub struct HTTPRequest {
    url_parsed: UrlParts,
}

/// The head of a request for `path` on `host` with a body of `n` bytes: a `POST` where
/// there is a body, a `GET` where there is none.
pub open spec fn request_head(path: Seq<char>, host: Seq<char>, n: nat) -> Seq<char> {
    (if n > 0 { "POST"@ } else { "GET"@ }) + " "@ + path + " HTTP/1.0\r\nHost: "@ + host
        + "\r\nAccept-Encoding: gzip\r\nContent-Length: "@ + decimal(n)
        + " \r\nContent-Type: application/json; charset=utf-8 \r\n\r\n"@
}

impl HTTPRequest {
    pub closed spec fn spec_url(&self) -> UrlParts {
        self.url_parsed
    }

    /// A request to `url`; an error where the URL does not parse.
    pub fn new(url: &str) -> (r: Result<HTTPRequest, UrlError>)
        ensures
            match r {
                Ok(req) => url_parts(url@) == Some(req.spec_url().spec_parts()),
                Err(_) => url_parts(url@) is None,
            },
    {
        match parse_url(url) {
            Some(p) => Ok(HTTPRequest { url_parsed: p }),
            None => Err(UrlError),
        }
    }

    /// The parts of the URL of the request.
    pub fn url(&self) -> (r: &UrlParts)
        ensures
            *r == self.spec_url(),
    {
        &self.url_parsed
    }

    /// The request goes over TLS: its scheme is `https`.
    pub fn is_secure(&self) -> (r: bool)
        ensures
            r == (self.spec_url().scheme@ == "https"@),
    {
        let https = String::from_str("https");
        self.url_parsed.scheme == https
    }

    /// The head of the request with a body of `content_size` bytes.
    pub fn to_http_header(&self, content_size: usize) -> (r: String)
        requires
            self.spec_url().host is Some,
        ensures
            r@ == request_head(
                self.spec_url().path@,
                self.spec_url().host->0@,
                content_size as nat,
            ),
    {
        let method = if content_size > 0 {
            "POST"
        } else {
            "GET"
        };
        let mut h = String::from_str(method);
        h.append(" ");
        h.append(self.url_parsed.path.as_str());
        h.append(" HTTP/1.0\r\nHost: ");
        match &self.url_parsed.host {
            Some(host) => h.append(host.as_str()),
            None => {},
        }
        h.append("\r\nAccept-Encoding: gzip\r\nContent-Length: ");
        append_decimal(&mut h, content_size as u64);
        h.append(" \r\nContent-Type: application/json; charset=utf-8 \r\n\r\n");
        h
    }
}

} // verus!

