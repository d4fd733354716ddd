//! Netlink messages that add an address to an ipset set.
use byteorder::ByteOrder;
use byteorder::NativeEndian;
use vstd::prelude::*;
use vstd::string::StringSliceAdditionalSpecFns;

verus! {

pub const NLM_F_REQUEST: u16 = 1;
pub const IPSET_CMD_ADD: u16 = 9;
pub const NFNL_SUBSYS_IPSET: u16 = 6;
pub const IPSET_PROTOCOL: u8 = 6;
pub const IPSET_ATTR_PROTOCOL: u16 = 1;
pub const IPSET_ATTR_SETNAME: u16 = 2;
pub const NLA_F_NESTED: u16 = 0x8000;
pub const IPSET_ATTR_DATA: u16 = 7;
pub const IPSET_ATTR_IPADDR_IPV4: u16 = 1;
pub const IPSET_ATTR_IPADDR_IPV6: u16 = 2;
pub const IPSET_ATTR_IP: u16 = 1;
pub const NLA_F_NET_BYTEORDER: u16 = 0x4000;
/// The address family `AF_INET` of Linux.
pub const AF_INET: u8 = 2;

/// Rounds `len` up to the next multiple of four.
pub open spec fn spec_align4(len: int) -> int {
    ((len + 3) / 4) * 4
}

/// The two bytes of `v`, least significant first.
pub open spec fn le16(v: u16) -> Seq<u8> {
    seq![(v % 256) as u8, (v / 256) as u8]
}

/// The two bytes of `v`, most significant first.
pub open spec fn be16(v: u16) -> Seq<u8> {
    seq![(v / 256) as u8, (v % 256) as u8]
}

/// The four bytes of `v`, least significant first.
pub open spec fn le32(v: u32) -> Seq<u8> {
    seq![(v % 256) as u8, ((v / 256) % 256) as u8, ((v / 65536) % 256) as u8, (v / 16777216) as u8]
}

/// The four bytes of `v`, most significant first.
pub open spec fn be32(v: u32) -> Seq<u8> {
    seq![(v / 16777216) as u8, ((v / 65536) % 256) as u8, ((v / 256) % 256) as u8, (v % 256) as u8]
}

/// `b` is `v` in the byte order of the machine: little or big endian.
pub open spec fn native16(b: Seq<u8>, v: u16) -> bool {
    b == le16(v) || b == be16(v)
}

/// `b` is `v` in the byte order of the machine: little or big endian.
pub open spec fn native32(b: Seq<u8>, v: u32) -> bool {
    b == le32(v) || b == be32(v)
}

/// `s` with `b` written over it from position `pos` on.
pub open spec fn splice(s: Seq<u8>, pos: int, b: Seq<u8>) -> Seq<u8> {
    s.subrange(0, pos) + b + s.subrange(pos + b.len(), s.len() as int)
}

/// Writes `n` into two bytes with `byteorder::NativeEndian::write_u16`.
/// Trusted: the two bytes are `n` in little or big endian order, as the machine has it.
#[verifier::external_body]
fn native_u16_bytes(n: u16) -> (r: [u8; 2])
    ensures
        native16(r@, n),
{
    let mut b = [0u8; 2];
    NativeEndian::write_u16(&mut b, n);
    b
}

/// Writes `n` into four bytes with `byteorder::NativeEndian::write_u32`.
/// Trusted: the four bytes are `n` in little or big endian order, as the machine has it.
#[verifier::external_body]
fn native_u32_bytes(n: u32) -> (r: [u8; 4])
    ensures
        native32(r@, n),
{
    let mut b = [0u8; 4];
    NativeEndian::write_u32(&mut b, n);
    b
}

/// Copies `b` into `out` from position `pos` on.
fn put_bytes(out: &mut [u8], pos: usize, b: &[u8])
    requires
        pos + b@.len() <= old(out)@.len(),
    ensures
        final(out)@ == splice(old(out)@, pos as int, b@),
{
    let n = out.len();
    let mut i: usize = 0;
    while i < b.len()
        invariant
            n == out@.len(),
            pos + b@.len() <= out@.len(),
            out@.len() == old(out)@.len(),
            i <= b@.len(),
            out@ == splice(old(out)@, pos as int, b@.subrange(0, i as int)),
        decreases b@.len() - i,
    {
        out[pos + i] = b[i];
        i = i + 1;
        assert(out@ =~= splice(old(out)@, pos as int, b@.subrange(0, i as int)));
    }
    assert(b@.subrange(0, b@.len() as int) =~= b@);
}

/// Facts on rounding up to a multiple of four.
proof fn lemma_align4(x: int)
    requires
        0 <= x,
    ensures
        x <= spec_align4(x) < x + 4,
        spec_align4(x) % 4 == 0,
        spec_align4(spec_align4(x)) == spec_align4(x),
        spec_align4(4 + spec_align4(x)) == 4 + spec_align4(x),
{
    assert(x <= spec_align4(x) < x + 4) by (nonlinear_arith)
        requires 0 <= x;
    assert(spec_align4(x) % 4 == 0) by (nonlinear_arith);
    let a = spec_align4(x);
    assert(spec_align4(a) == a) by (nonlinear_arith)
        requires a % 4 == 0, a >= 0;
    assert(spec_align4(4 + a) == 4 + a) by (nonlinear_arith)
        requires a % 4 == 0, a >= 0;
}

pub fn align4(len: usize) -> (r: u32)
    requires
        len + 3 <= u32::MAX,
    ensures
        r == spec_align4(len as int),
{
    let x: usize = (len + 3) / 4 * 4;
    x as u32
}

/// The header of a netlink message.
pub struct NlMsgHdr {
    /// Length of the netlink packet, including the header and the payload
    pub length: u32,
    /// The netlink message type.
    pub message_type: u16,
    /// Flags
    pub flags: u16,
    /// Sequence number of the packet
    pub sequence_number: u32,
    /// Port number (usually the process ID)
    pub port_number: u32,
}

impl NlMsgHdr {
    /// A header of an ipset `add` request with no length yet.
    pub fn new() -> (r: NlMsgHdr)
        ensures
            r.length == 0,
            r.message_type == (IPSET_CMD_ADD | (NFNL_SUBSYS_IPSET << 8)),
            r.message_type == 0x0609,
            r.flags == NLM_F_REQUEST,
            r.sequence_number == 0,
            r.port_number == 0,
    {
        let t: u16 = IPSET_CMD_ADD | (NFNL_SUBSYS_IPSET << 8);
        assert((9u16 | (6u16 << 8u16)) == 0x0609u16) by (bit_vector);
        NlMsgHdr { length: 0, message_type: t, flags: NLM_F_REQUEST, sequence_number: 0, port_number: 0 }
    }

    pub fn align_size(&self) -> (r: u32)
        ensures
            r == 16,
    {
        16
    }

    /// Writes the header into `buffer` at `pos`, each field in the byte order of the machine.
    pub fn write_to(&self, buffer: &mut [u8], pos: usize)
        requires
            pos + 16 <= old(buffer)@.len(),
        ensures
            final(buffer)@.len() == old(buffer)@.len(),
            native32(final(buffer)@.subrange(pos as int, pos + 4), self.length),
            native16(final(buffer)@.subrange(pos + 4, pos + 6), self.message_type),
            native16(final(buffer)@.subrange(pos + 6, pos + 8), self.flags),
            native32(final(buffer)@.subrange(pos + 8, pos + 12), self.sequence_number),
            native32(final(buffer)@.subrange(pos + 12, pos + 16), self.port_number),
            forall|i: int| 0 <= i < old(buffer)@.len() && !(pos <= i < pos + 16)
                ==> final(buffer)@[i] == old(buffer)@[i],
    {
        let _n = buffer.len();
        let b0 = native_u32_bytes(self.length);
        let b1 = native_u16_bytes(self.message_type);
        let b2 = native_u16_bytes(self.flags);
        let b3 = native_u32_bytes(self.sequence_number);
        let b4 = native_u32_bytes(self.port_number);
        put_bytes(buffer, pos, &b0);
        put_bytes(buffer, pos + 4, &b1);
        put_bytes(buffer, pos + 6, &b2);
        put_bytes(buffer, pos + 8, &b3);
        put_bytes(buffer, pos + 12, &b4);
        assert(buffer@.subrange(pos as int, pos + 4) =~= b0@);
        assert(buffer@.subrange(pos + 4, pos + 6) =~= b1@);
        assert(buffer@.subrange(pos + 6, pos + 8) =~= b2@);
        assert(buffer@.subrange(pos + 8, pos + 12) =~= b3@);
        assert(buffer@.subrange(pos + 12, pos + 16) =~= b4@);
    }
}


/// The nfnetlink header that follows the netlink header.
pub struct NfGenMsg {
    /// `AF_INET` or `AF_INET6`
    pub nfgen_family: u8,
    /// `NFNETLINK_V0`
    pub version: u8,
    /// big endian, always zero
    pub res_id: u16,
}

impl NfGenMsg {
    pub fn new(af: u8) -> (r: NfGenMsg)
        ensures
            r.nfgen_family == af,
            r.version == 0,
            r.res_id == 0,
    {
        NfGenMsg { nfgen_family: af, version: 0, res_id: 0 }
    }

    pub fn align_size(&self) -> (r: u32)
        ensures
            r == 4,
    {
        align4(4)
    }

    /// Writes the message into `buffer` at `pos`.
    pub fn write_to(&self, buffer: &mut [u8], pos: usize)
        requires
            pos + 4 <= old(buffer)@.len(),
        ensures
            final(buffer)@.len() == old(buffer)@.len(),
            final(buffer)@[pos as int] == self.nfgen_family,
            final(buffer)@[pos + 1] == self.version,
            native16(final(buffer)@.subrange(pos + 2, pos + 4), self.res_id),
            forall|i: int| 0 <= i < old(buffer)@.len() && !(pos <= i < pos + 4)
                ==> final(buffer)@[i] == old(buffer)@[i],
    {
        let _n = buffer.len();
        buffer[pos] = self.nfgen_family;
        buffer[pos + 1] = self.version;
        let b = native_u16_bytes(self.res_id);
        put_bytes(buffer, pos + 2, &b);
        assert(buffer@.subrange(pos + 2, pos + 4) =~= b@);
    }
}

/// The header of a netlink attribute.
pub struct NlAttr {
    /// native endian
    pub nla_len: u16,
    /// native endian
    pub nla_type: u16,
}

impl NlAttr {
    /// The header of an attribute that carries `data_len` bytes.
    pub fn new_data(nla_type: u16, data_len: u16) -> (r: NlAttr)
        requires
            data_len + 4 <= u16::MAX,
        ensures
            r.nla_len == data_len + 4,
            r.nla_type == nla_type,
    {
        let nla_len = (align4(4) as u16) + data_len;
        NlAttr { nla_len, nla_type }
    }

    pub fn align_size(&self) -> (r: u32)
        ensures
            r == spec_align4(self.nla_len as int),
    {
        align4(self.nla_len as usize)
    }

    /// Writes the attribute header into `buffer` at `pos`.
    pub fn write_to(&self, buffer: &mut [u8], pos: usize)
        requires
            pos + 4 <= old(buffer)@.len(),
        ensures
            final(buffer)@.len() == old(buffer)@.len(),
            native16(final(buffer)@.subrange(pos as int, pos + 2), self.nla_len),
            native16(final(buffer)@.subrange(pos + 2, pos + 4), self.nla_type),
            forall|i: int| 0 <= i < old(buffer)@.len() && !(pos <= i < pos + 4)
                ==> final(buffer)@[i] == old(buffer)@[i],
    {
        let _n = buffer.len();
        let b0 = native_u16_bytes(self.nla_len);
        let b1 = native_u16_bytes(self.nla_type);
        put_bytes(buffer, pos, &b0);
        put_bytes(buffer, pos + 2, &b1);
        assert(buffer@.subrange(pos as int, pos + 2) =~= b0@);
        assert(buffer@.subrange(pos + 2, pos + 4) =~= b1@);
    }
}

/// Where the nested data attribute of an ipset packet starts.
pub open spec fn ipset_data_pos(name_len: int) -> int {
    28 + spec_align4(4 + name_len)
}

/// The length of an ipset `add` packet for a set name and an address of these lengths.
pub open spec fn ipset_packet_len(name_len: int, ip_len: int) -> int {
    16 + 4 + 8 + spec_align4(4 + name_len) + 8 + spec_align4(4 + ip_len)
}

/// The attribute type of an address of `ip_len` bytes.
pub open spec fn ipset_addr_type(ip_len: int) -> u16 {
    if ip_len > 4 { IPSET_ATTR_IPADDR_IPV6 } else { IPSET_ATTR_IPADDR_IPV4 }
}

/// `i` is a byte that building an ipset packet writes.
pub open spec fn ipset_written(i: int, name_len: int, ip_len: int) -> bool {
    let a3 = ipset_data_pos(name_len);
    ||| 0 <= i < 25
    ||| 28 <= i < 32 + name_len
    ||| a3 <= i < a3 + 12 + ip_len
}

/// Builds into `out` a netlink packet that adds the address `ipvec` (four bytes for IPv4,
/// sixteen for IPv6) to the ipset set `setname`, and returns the packet's length.
/// Bytes that the packet leaves as padding keep what `out` held.
#[verifier::rlimit(100)]
#[verifier::spinoff_prover]
pub fn construct_ipset_packet(setname: &str, ipvec: &[u8], out: &mut [u8]) -> (len: u32)
    requires
        setname.spec_bytes().len() <= 65000,
        ipvec@.len() <= 65000,
        ipset_data_pos(setname.spec_bytes().len() as int) + 12 + ipvec@.len() <= old(out)@.len(),
    ensures
        ({
            let s = setname.spec_bytes();
            let ip = ipvec@;
            let o = final(out)@;
            let a3 = ipset_data_pos(s.len() as int);
            let a5 = spec_align4(4 + ip.len() as int);
            &&& len == ipset_packet_len(s.len() as int, ip.len() as int)
            &&& o.len() == old(out)@.len()
            // the netlink header
            &&& native32(o.subrange(0, 4), len)
            &&& native16(o.subrange(4, 6), 0x0609u16)
            &&& native16(o.subrange(6, 8), NLM_F_REQUEST)
            &&& native32(o.subrange(8, 12), 0u32)
            &&& native32(o.subrange(12, 16), 0u32)
            // the nfnetlink header
            &&& o[16] == AF_INET
            &&& o[17] == 0
            &&& native16(o.subrange(18, 20), 0u16)
            // the protocol attribute
            &&& native16(o.subrange(20, 22), 5u16)
            &&& native16(o.subrange(22, 24), IPSET_ATTR_PROTOCOL)
            &&& o[24] == IPSET_PROTOCOL
            // the set name attribute
            &&& native16(o.subrange(28, 30), (4 + s.len()) as u16)
            &&& native16(o.subrange(30, 32), IPSET_ATTR_SETNAME)
            &&& o.subrange(32, 32 + s.len() as int) == s
            // the nested data, ip and address attributes
            &&& native16(o.subrange(a3, a3 + 2), (8 + a5) as u16)
            &&& native16(o.subrange(a3 + 2, a3 + 4), NLA_F_NESTED | IPSET_ATTR_DATA)
            &&& native16(o.subrange(a3 + 4, a3 + 6), (4 + a5) as u16)
            &&& native16(o.subrange(a3 + 6, a3 + 8), NLA_F_NESTED | IPSET_ATTR_IP)
            &&& native16(o.subrange(a3 + 8, a3 + 10), (4 + ip.len()) as u16)
            &&& native16(o.subrange(a3 + 10, a3 + 12),
                    ipset_addr_type(ip.len() as int) | NLA_F_NET_BYTEORDER)
            &&& o.subrange(a3 + 12, a3 + 12 + ip.len() as int) == ip
            &&& forall|i: int| 0 <= i < o.len() && !ipset_written(i, s.len() as int, ip.len() as int)
                ==> #[trigger] o[i] == old(out)@[i]
        }),
{
    let _n = out.len();
    let sb = setname.as_bytes();
    let slen = setname.len();
    let iplen = ipvec.len();

    let mut hdr = NlMsgHdr::new();
    let nfg = NfGenMsg::new(AF_INET);
    let attr1 = NlAttr::new_data(IPSET_ATTR_PROTOCOL, 1);
    let attr2 = NlAttr::new_data(IPSET_ATTR_SETNAME, slen as u16);
    let ipaddr_type = if iplen > 4 { IPSET_ATTR_IPADDR_IPV6 } else { IPSET_ATTR_IPADDR_IPV4 };
    let attr5 = NlAttr::new_data(ipaddr_type | NLA_F_NET_BYTEORDER, iplen as u16);
    let a5 = attr5.align_size();
    let attr4 = NlAttr::new_data(NLA_F_NESTED | IPSET_ATTR_IP, a5 as u16);
    let a4 = attr4.align_size();
    let attr3 = NlAttr::new_data(NLA_F_NESTED | IPSET_ATTR_DATA, a4 as u16);
    let a2 = attr2.align_size();
    let a3s = attr3.align_size();

    proof {
        lemma_align4(4 + slen as int);
        lemma_align4(4 + iplen as int);
        assert(spec_align4(5) == 8);
    }
    hdr.length = hdr.align_size() + nfg.align_size() + attr1.align_size() + a2 + a3s;

    let mut writen: u32 = 0;
    write_head(out, &hdr, &nfg, &attr1);
    let ghost o1 = out@;
    writen += hdr.align_size() + nfg.align_size() + attr1.align_size();

    write_attr_with_data(out, writen as usize, &attr2, sb);
    let ghost o2 = out@;
    writen += a2;

    write_nested_attrs(out, writen as usize, &attr3, &attr4, &attr5, ipvec);

    proof {
        let o = out@;
        let a3 = ipset_data_pos(slen as int);
        assert(o.subrange(0, 4) =~= o1.subrange(0, 4));
        assert(o.subrange(4, 6) =~= o1.subrange(4, 6));
        assert(o.subrange(6, 8) =~= o1.subrange(6, 8));
        assert(o.subrange(8, 12) =~= o1.subrange(8, 12));
        assert(o.subrange(12, 16) =~= o1.subrange(12, 16));
        assert(o.subrange(18, 20) =~= o1.subrange(18, 20));
        assert(o.subrange(20, 22) =~= o1.subrange(20, 22));
        assert(o.subrange(22, 24) =~= o1.subrange(22, 24));
        assert(o.subrange(28, 30) =~= o2.subrange(28, 30));
        assert(o.subrange(30, 32) =~= o2.subrange(30, 32));
        assert(o.subrange(32, 32 + slen as int) =~= o2.subrange(32, 32 + slen as int));
    }
    hdr.length
}

/// Writes the netlink header, the nfnetlink header and the protocol attribute at the start of `out`.
fn write_head(out: &mut [u8], hdr: &NlMsgHdr, nfg: &NfGenMsg, attr1: &NlAttr)
    requires
        28 <= old(out)@.len(),
        attr1.nla_len == 5,
    ensures
        ({
            let o = final(out)@;
            &&& o.len() == old(out)@.len()
            &&& native32(o.subrange(0, 4), hdr.length)
            &&& native16(o.subrange(4, 6), hdr.message_type)
            &&& native16(o.subrange(6, 8), hdr.flags)
            &&& native32(o.subrange(8, 12), hdr.sequence_number)
            &&& native32(o.subrange(12, 16), hdr.port_number)
            &&& o[16] == nfg.nfgen_family
            &&& o[17] == nfg.version
            &&& native16(o.subrange(18, 20), nfg.res_id)
            &&& native16(o.subrange(20, 22), attr1.nla_len)
            &&& native16(o.subrange(22, 24), attr1.nla_type)
            &&& o[24] == IPSET_PROTOCOL
            &&& forall|i: int| 25 <= i < o.len() ==> o[i] == old(out)@[i]
        }),
{
    hdr.write_to(out, 0);
    let ghost o1 = out@;
    nfg.write_to(out, 16);
    let ghost o2 = out@;
    attr1.write_to(out, 20);
    let ghost o3 = out@;
    out[24] = IPSET_PROTOCOL;
    proof {
        let o = out@;
        assert(o.subrange(0, 4) =~= o1.subrange(0, 4));
        assert(o.subrange(4, 6) =~= o1.subrange(4, 6));
        assert(o.subrange(6, 8) =~= o1.subrange(6, 8));
        assert(o.subrange(8, 12) =~= o1.subrange(8, 12));
        assert(o.subrange(12, 16) =~= o1.subrange(12, 16));
        assert(o.subrange(18, 20) =~= o2.subrange(18, 20));
        assert(o.subrange(20, 22) =~= o3.subrange(20, 22));
        assert(o.subrange(22, 24) =~= o3.subrange(22, 24));
    }
}

/// Writes the header `attr` at `pos` and the bytes `data` right behind it.
fn write_attr_with_data(out: &mut [u8], pos: usize, attr: &NlAttr, data: &[u8])
    requires
        pos + 4 + data@.len() <= old(out)@.len(),
    ensures
        ({
            let o = final(out)@;
            &&& o.len() == old(out)@.len()
            &&& native16(o.subrange(pos as int, pos + 2), attr.nla_len)
            &&& native16(o.subrange(pos + 2, pos + 4), attr.nla_type)
            &&& o.subrange(pos + 4, pos + 4 + data@.len()) == data@
            &&& forall|i: int| 0 <= i < o.len() && !(pos <= i < pos + 4 + data@.len())
                ==> o[i] == old(out)@[i]
        }),
{
    let _n = out.len();
    attr.write_to(out, pos);
    let ghost o1 = out@;
    put_bytes(out, pos + 4, data);
    proof {
        let o = out@;
        assert(o.subrange(pos as int, pos + 2) =~= o1.subrange(pos as int, pos + 2));
        assert(o.subrange(pos + 2, pos + 4) =~= o1.subrange(pos + 2, pos + 4));
        assert(o.subrange(pos + 4, pos + 4 + data@.len()) =~= data@);
    }
}

/// Writes the three nested attribute headers at `pos` and the address right behind them.
fn write_nested_attrs(
    out: &mut [u8],
    pos: usize,
    attr3: &NlAttr,
    attr4: &NlAttr,
    attr5: &NlAttr,
    ipvec: &[u8],
)
    requires
        pos + 12 + ipvec@.len() <= old(out)@.len(),
    ensures
        ({
            let o = final(out)@;
            &&& o.len() == old(out)@.len()
            &&& native16(o.subrange(pos as int, pos + 2), attr3.nla_len)
            &&& native16(o.subrange(pos + 2, pos + 4), attr3.nla_type)
            &&& native16(o.subrange(pos + 4, pos + 6), attr4.nla_len)
            &&& native16(o.subrange(pos + 6, pos + 8), attr4.nla_type)
            &&& native16(o.subrange(pos + 8, pos + 10), attr5.nla_len)
            &&& native16(o.subrange(pos + 10, pos + 12), attr5.nla_type)
            &&& o.subrange(pos + 12, pos + 12 + ipvec@.len()) == ipvec@
            &&& forall|i: int| 0 <= i < o.len() && !(pos <= i < pos + 12 + ipvec@.len())
                ==> o[i] == old(out)@[i]
        }),
{
    let _n = out.len();
    attr3.write_to(out, pos);
    let ghost o1 = out@;
    attr4.write_to(out, pos + 4);
    let ghost o2 = out@;
    write_attr_with_data(out, pos + 8, attr5, ipvec);
    proof {
        let o = out@;
        assert(o.subrange(pos as int, pos + 2) =~= o1.subrange(pos as int, pos + 2));
        assert(o.subrange(pos + 2, pos + 4) =~= o1.subrange(pos + 2, pos + 4));
        assert(o.subrange(pos + 4, pos + 6) =~= o2.subrange(pos + 4, pos + 6));
        assert(o.subrange(pos + 6, pos + 8) =~= o2.subrange(pos + 6, pos + 8));
    }
}

} // verus!
