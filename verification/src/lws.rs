//! The websocket client handshake and the framing of the stream that follows it.
use base64::Engine;
use vstd::prelude::*;
use vstd::string::StringExecFns;
use crate::textutil::{find_bytes, find_first, lemma_find_from, matches_at, copy_range};

verus! {

/// The text of `b` in base64 with padding, as `base64::engine::general_purpose::STANDARD`
/// encodes it.
pub uninterp spec fn base64_text(b: Seq<u8>) -> Seq<char>;

/// Sixteen random bytes from `rand::random`.
#[verifier::external_body]
fn random_16() -> [u8; 16] {
    rand::random()
}

/// Encodes `b` with `base64::engine::general_purpose::STANDARD`.
#[verifier::external_body]
fn base64_encode(b: &[u8]) -> (r: String)
    ensures
        r@ == base64_text(b@),
{
    base64::engine::general_purpose::STANDARD.encode(b)
}

/// A random key for the `Sec-WebSocket-Key` header: sixteen bytes in base64.
pub fn generate_key() -> (r: String)
    ensures
        exists|b: Seq<u8>| b.len() == 16 && r@ == base64_text(b),
{
    let r = random_16();
    let k = base64_encode(r.as_slice());
    assert(r@.len() == 16);
    k
}

/// The request that opens a websocket on `host` at the path `pth` with the key `key`.
pub open spec fn handshake_text(host: Seq<char>, pth: Seq<char>, key: Seq<char>) -> Seq<char> {
    "GET "@ + pth + " HTTP/1.1\r\nHost: "@ + host
        + "\r\nConnection: upgrade\r\nUpgrade: websocket\r\nSec-WebSocket-Version: 13\r\nSec-WebSocket-Key: "@
        + key + "\r\n\r\n"@
}

/// Writes the request that opens a websocket on `host` at the path `pth` with `key`.
pub fn handshake_request(host: &str, pth: &str, key: &str) -> (r: String)
    ensures
        r@ == handshake_text(host@, pth@, key@),
{
    let mut h = String::from_str("GET ");
    h.append(pth);
    h.append(" HTTP/1.1\r\nHost: ");
    h.append(host);
    h.append(
        "\r\nConnection: upgrade\r\nUpgrade: websocket\r\nSec-WebSocket-Version: 13\r\nSec-WebSocket-Key: ",
    );
    h.append(key);
    h.append("\r\n\r\n");
    h
}

/// The bytes that end the head of a reply: an empty line.
pub open spec fn head_end() -> Seq<u8> {
    seq![13u8, 10, 13, 10]
}

/// The most bytes of the server's reply that the handshake holds.
pub const HANDSHAKE_READ_CAP: usize = 1024;

/// The states of a client handshake.
#[derive(PartialEq, Eq, Structural)]
pub enum CHState {
    WritingHeader,
    ReadingResponse,
    Done,
}

/// Why a handshake failed.
#[derive(PartialEq, Eq, Structural)]
pub enum HandshakeError {
    /// The head of the reply does not fit.
    HeaderTooLarge,
    /// The stream ended before the head of the reply did.
    Incomplete,
}

/// A client handshake on the stream `io`: it writes `request`, then reads the reply up to
/// the end of its head; what follows the head is kept.
pub struct CHandshake<T> {
    pub io: Option<T>,
    pub read_buf: Vec<u8>,
    pub request: String,
    pub state: CHState,
}

/// Starts a handshake on `io` for the websocket at `pth` on `host`, with a random key.
pub fn do_client_hanshake<T>(io: T, host: &str, pth: &str) -> (r: CHandshake<T>)
    ensures
        r.io == Some(io),
        r.read_buf@.len() == 0,
        r.state == CHState::WritingHeader,
        exists|b: Seq<u8>| b.len() == 16 && r.request@ == handshake_text(host@, pth@, base64_text(b)),
{
    let key = generate_key();
    let request = handshake_request(host, pth, key.as_str());
    CHandshake { io: Some(io), read_buf: Vec::new(), request, state: CHState::WritingHeader }
}

impl<T> CHandshake<T> {
    /// Looks for the end of the head in what was read: where it is there, what comes up to
    /// it and the empty line go, and the rest stays.
    pub fn parse_response(&mut self) -> (r: bool)
        ensures
            final(self).io == old(self).io,
            final(self).state == old(self).state,
            final(self).request == old(self).request,
            match find_first(old(self).read_buf@, head_end()) {
                Some(p) => r && final(self).read_buf@ == old(self).read_buf@.subrange(
                    p + 4,
                    old(self).read_buf@.len() as int,
                ),
                None => !r && final(self).read_buf@ == old(self).read_buf@,
            },
    {
        let needle: [u8; 4] = [13u8, 10, 13, 10];
        assert(needle@ =~= head_end());
        match find_bytes(self.read_buf.as_slice(), needle.as_slice()) {
            Some(pos) => {
                proof {
                    lemma_find_from(self.read_buf@, head_end(), 0);
                    assert(matches_at(self.read_buf@, head_end(), pos as int));
                }
                let n = self.read_buf.len();
                let rest = copy_range(self.read_buf.as_slice(), pos + 4, n);
                self.read_buf = rest;
                true
            },
            None => false,
        }
    }

    /// The request went out, all of it (`completed`) or not: once it has, the reply is
    /// read.
    pub fn on_written(&mut self, completed: bool)
        requires
            old(self).state == CHState::WritingHeader,
        ensures
            final(self).state == (if completed { CHState::ReadingResponse } else { CHState::WritingHeader }),
            final(self).read_buf == old(self).read_buf,
            final(self).io == old(self).io,
    {
        if completed {
            self.state = CHState::ReadingResponse;
        }
    }

    /// How many more bytes of the reply can be read; an error where none can.
    pub fn read_room(&self) -> (r: Result<usize, HandshakeError>)
        ensures
            self.read_buf@.len() >= HANDSHAKE_READ_CAP ==> r == Err::<usize, HandshakeError>(HandshakeError::HeaderTooLarge),
            self.read_buf@.len() < HANDSHAKE_READ_CAP ==> r == Ok::<usize, HandshakeError>((HANDSHAKE_READ_CAP - self.read_buf@.len()) as usize),
    {
        let n = self.read_buf.len();
        if n >= HANDSHAKE_READ_CAP {
            Err(HandshakeError::HeaderTooLarge)
        } else {
            Ok(HANDSHAKE_READ_CAP - n)
        }
    }

    /// `data` was read (nothing where the stream ended): it is added, and the handshake is
    /// done where the head of the reply is complete. Returns whether it is done.
    pub fn on_read(&mut self, data: &[u8]) -> (r: Result<bool, HandshakeError>)
        requires
            old(self).state == CHState::ReadingResponse,
            old(self).read_buf@.len() + data@.len() <= HANDSHAKE_READ_CAP,
        ensures
            final(self).io == old(self).io,
            data@.len() == 0 ==> r == Err::<bool, HandshakeError>(HandshakeError::Incomplete) && *final(self) == *old(self),
            data@.len() > 0 ==> ({
                let b = old(self).read_buf@ + data@;
                match find_first(b, head_end()) {
                    Some(p) => r == Ok::<bool, HandshakeError>(true) && final(self).state == CHState::Done
                        && final(self).read_buf@ == b.subrange(p + 4, b.len() as int),
                    None => r == Ok::<bool, HandshakeError>(false) && final(self).state == CHState::ReadingResponse
                        && final(self).read_buf@ == b,
                }
            }),
    {
        if data.len() == 0 {
            return Err(HandshakeError::Incomplete);
        }
        let n = data.len();
        let mut i: usize = 0;
        let ghost b0 = self.read_buf@;
        while i < n
            invariant
                n == data@.len(),
                i <= n,
                self.read_buf@ == b0 + data@.subrange(0, i as int),
                self.state == old(self).state,
                self.io == old(self).io,
                self.request == old(self).request,
            decreases n - i,
        {
            self.read_buf.push(data[i]);
            i = i + 1;
            assert(self.read_buf@ =~= b0 + data@.subrange(0, i as int));
        }
        assert(data@.subrange(0, n as int) =~= data@);
        if self.parse_response() {
            self.state = CHState::Done;
            Ok(true)
        } else {
            Ok(false)
        }
    }

    /// The end of a finished handshake: the stream, and the bytes read after the head of
    /// the reply, where there are any.
    pub fn finish(&mut self) -> (r: (Option<T>, Option<Vec<u8>>))
        requires
            old(self).state == CHState::Done,
        ensures
            r.0 == old(self).io,
            final(self).io is None,
            old(self).read_buf@.len() > 0 ==> (r.1 matches Some(v) && v@ == old(self).read_buf@),
            old(self).read_buf@.len() == 0 ==> r.1 is None,
    {
        let mut io: Option<T> = None;
        std::mem::swap(&mut io, &mut self.io);
        if self.read_buf.len() > 0 {
            let mut v: Vec<u8> = Vec::new();
            std::mem::swap(&mut v, &mut self.read_buf);
            (io, Some(v))
        } else {
            (io, None)
        }
    }
}

/// Splits `tail` for a buffer with `room` bytes free: the part that fits goes to the
/// buffer (the first of the pair), the rest stays (the second).
pub fn read_from_tail(tail: &Vec<u8>, room: usize) -> (r: (Vec<u8>, Vec<u8>))
    ensures
        ({
            let k = if tail@.len() < room { tail@.len() as int } else { room as int };
            &&& r.0@ == tail@.subrange(0, k)
            &&& r.1@ == tail@.subrange(k, tail@.len() as int)
        }),
{
    let len_in_vec = tail.len();
    let len_to_copy = if len_in_vec < room { len_in_vec } else { room };
    let a = copy_range(tail.as_slice(), 0, len_to_copy);
    let b = copy_range(tail.as_slice(), len_to_copy, len_in_vec);
    (a, b)
}

/// The framed stream after a handshake: what the handshake read after the head (the
/// tail) is read before anything from `io`.
pub struct LwsFramed<T> {
    pub io: T,
    pub tail: Option<Vec<u8>>,
    pub has_finished: bool,
}

impl<T> LwsFramed<T> {
    pub fn new(io: T, tail: Option<Vec<u8>>) -> (r: LwsFramed<T>)
        ensures
            r.io == io,
            r.tail == tail,
            !r.has_finished,
    {
        LwsFramed { io, tail, has_finished: false }
    }

    /// Takes what fits in `room` bytes from the tail, where there is one; the tail goes
    /// once it is read to its end. `None` where there is no tail: then `io` is read.
    pub fn take_from_tail(&mut self, room: usize) -> (r: Option<Vec<u8>>)
        ensures
            final(self).io == old(self).io,
            final(self).has_finished == old(self).has_finished,
            old(self).tail is None ==> r is None && final(self).tail is None,
            old(self).tail matches Some(t) ==> ({
                let k = if t@.len() < room { t@.len() as int } else { room as int };
                &&& r matches Some(v) && v@ == t@.subrange(0, k)
                &&& (k == t@.len() ==> final(self).tail is None)
                &&& (k < t@.len() ==> (final(self).tail matches Some(rest) && rest@ == t@.subrange(k, t@.len() as int)))
            }),
    {
        let mut t: Option<Vec<u8>> = None;
        std::mem::swap(&mut t, &mut self.tail);
        match t {
            Some(tail) => {
                let (a, b) = read_from_tail(&tail, room);
                if b.len() < 1 {
                    self.tail = None;
                } else {
                    self.tail = Some(b);
                }
                Some(a)
            },
            None => None,
        }
    }

    /// A read from `io` gave `n` bytes or failed (`None`): the stream is finished where it
    /// failed or gave nothing. Returns whether it is.
    pub fn on_io_read(&mut self, n: Option<usize>) -> (r: bool)
        ensures
            r == (n is None || n == Some(0usize)),
            final(self).has_finished == (old(self).has_finished || r),
            final(self).tail == old(self).tail,
    {
        let fin = match n {
            Some(k) => k == 0,
            None => true,
        };
        if fin {
            self.has_finished = true;
        }
        fin
    }

    /// The stream is finished.
    pub fn is_terminated(&self) -> (r: bool)
        ensures
            r == self.has_finished,
    {
        self.has_finished
    }
}

} // verus!
