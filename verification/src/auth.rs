//! The first HTTP/1.0 client of the authentication service: `GET` requests and plain replies.
use vstd::prelude::*;
use vstd::string::StringExecFns;
use vstd::string::StringSliceAdditionalSpecFns;
use crate::htp::{
    head_end, lossy_text, opt_text, parse_url, status_cut_checked, status_cut_ok, status_from,
    status_spec, text_bytes, url_parts, utf8_lossy, UrlError, UrlParts,
};
use crate::textutil::{copy_range, find_bytes, find_first, lemma_find_from, matches_at};

verus! {

/// `HTTP/1.0 `
pub open spec fn http10_word() -> Seq<u8> {
    seq![72u8, 84, 84, 80, 47, 49, 46, 48, 32]
}

pub struct HTTPResponse {
    pub status: i32,
    pub header: Option<String>,
    pub body: Option<String>,
}

/// What reading the reply `b` gives: status, head and body; `None` where the reply
/// cannot be read (a head that cannot be cut at the status).
pub open spec fn response_spec(b: Seq<u8>) -> Option<(i32, Option<Seq<char>>, Option<Seq<char>>)> {
    match find_first(b, head_end()) {
        None => Some((0i32, None, None)),
        Some(pos) => {
            let head = lossy_text(b.subrange(0, pos));
            let hb = text_bytes(head);
            if !status_cut_ok(hb, http10_word(), 9) {
                None
            } else {
                Some(
                    (
                        status_spec(hb, http10_word(), 9),
                        Some(head),
                        Some(lossy_text(b.subrange(pos + 4, b.len() as int))),
                    ),
                )
            }
        },
    }
}

impl HTTPResponse {
    pub open spec fn spec_parts(&self) -> (i32, Option<Seq<char>>, Option<Seq<char>>) {
        (self.status, opt_text(self.header), opt_text(self.body))
    }

    /// Reads the reply `bytes`: the head ends at the first empty line and the status code
    /// follows `HTTP/1.0 `. A head, and a body, that are valid UTF-8 come back as the text
    /// they encode.
    pub fn parse(bytes: &Vec<u8>) -> (r: Option<HTTPResponse>)
        ensures
            match r {
                Some(resp) => response_spec(bytes@) == Some(resp.spec_parts()),
                None => response_spec(bytes@) is None,
            },
            r matches Some(resp) ==> (find_first(bytes@, head_end()) matches Some(pos) ==> {
                let hb = bytes@.subrange(0, pos);
                let rest = bytes@.subrange(pos + 4, bytes@.len() as int);
                &&& vstd::utf8::valid_utf8(hb) ==> opt_text(resp.header) == Some(
                    vstd::utf8::decode_utf8(hb),
                )
                &&& vstd::utf8::valid_utf8(rest) ==> opt_text(resp.body) == Some(
                    vstd::utf8::decode_utf8(rest),
                )
            }),
    {
        let blen = bytes.len();
        let needle: [u8; 4] = [13u8, 10, 13, 10];
        assert(needle@ =~= head_end());
        match find_bytes(bytes.as_slice(), needle.as_slice()) {
            Some(pos) => {
                proof {
                    lemma_find_from(bytes@, head_end(), 0);
                    assert(matches_at(bytes@, head_end(), pos as int));
                    assert(head_end().len() == 4);
                }
                let head_bytes = copy_range(bytes.as_slice(), 0, pos);
                let s = utf8_lossy(head_bytes.as_slice());
                let marker: [u8; 9] = [72u8, 84, 84, 80, 47, 49, 46, 48, 32];
                assert(marker@ =~= http10_word());
                if !status_cut_checked(s.as_str(), marker.as_slice(), 9) {
                    return None;
                }
                let status = HTTPResponse::extract_status(s.as_str());
                let bb = copy_range(bytes.as_slice(), pos + 4, blen);
                let body = utf8_lossy(bb.as_slice());
                Some(HTTPResponse { status, header: Some(s), body: Some(body) })
            },
            None => Some(HTTPResponse { status: 0, header: None, body: None }),
        }
    }

    /// The status code after `HTTP/1.0 ` in the head, or 0.
    pub fn extract_status(header_str: &str) -> (r: i32)
        requires
            status_cut_ok(header_str.spec_bytes(), http10_word(), 9),
        ensures
            r == status_spec(header_str.spec_bytes(), http10_word(), 9),
    {
        let marker: [u8; 9] = [72u8, 84, 84, 80, 47, 49, 46, 48, 32];
        assert(marker@ =~= http10_word());
        status_from(header_str, marker.as_slice(), 9)
    }
}

/// A `GET` request to one URL.
pub struct HTTPRequest {
    url_parsed: UrlParts,
}

impl HTTPRequest {
    pub closed spec fn spec_url(&self) -> UrlParts {
        self.url_parsed
    }

    /// A request to `url`; an error where the URL does not parse.
    pub fn new(url: &str) -> (r: Result<HTTPRequest, UrlError>)
        ensures
            match r {
                Ok(req) => url_parts(url@) == Some(req.spec_url().spec_parts()),
                Err(_) => url_parts(url@) is None,
            },
    {
        match parse_url(url) {
            Some(p) => Ok(HTTPRequest { url_parsed: p }),
            None => Err(UrlError),
        }
    }

    /// The parts of the URL of the request.
    pub fn url(&self) -> (r: &UrlParts)
        ensures
            *r == self.spec_url(),
    {
        &self.url_parsed
    }

    /// The request goes over TLS: its scheme is `https`.
    pub fn is_secure(&self) -> (r: bool)
        ensures
            r == (self.spec_url().scheme@ == "https"@),
    {
        let https = String::from_str("https");
        self.url_parsed.scheme == https
    }

    /// The head of the `GET` request.
    pub fn to_http_header(&self) -> (r: String)
        requires
            self.spec_url().host is Some,
        ensures
            r@ == "GET "@ + self.spec_url().path@ + " HTTP/1.0\r\nHost: "@
                + self.spec_url().host->0@ + "\r\n\r\n"@,
    {
        let mut h = String::from_str("GET ");
        h.append(self.url_parsed.path.as_str());
        h.append(" HTTP/1.0\r\nHost: ");
        match &self.url_parsed.host {
            Some(host) => h.append(host.as_str()),
            None => {},
        }
        h.append("\r\n\r\n");
        h
    }
}

} // verus!
