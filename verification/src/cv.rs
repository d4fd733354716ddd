//! The access report messages: which source addresses reached which domains.
#![allow(non_snake_case)]
use vstd::prelude::*;
use vstd::string::StringSliceAdditionalSpecFns;
use vstd::string::StrSliceExecFns;
use vstd::utf8::encode_utf8;

verus! {

/// The source addresses (IPv4, as big endian numbers) that reached one domain.
pub struct AccDomain {
    pub domain: String,
    pub srcIP: Vec<u32>,
}

impl AccDomain {
    pub fn new() -> (r: AccDomain)
        ensures
            r.domain@ == Seq::<char>::empty(),
            r.srcIP@ == Seq::<u32>::empty(),
    {
        AccDomain { domain: String::new(), srcIP: Vec::new() }
    }

    pub fn get_domain(&self) -> (r: &str)
        ensures
            r@ == self.domain@,
    {
        self.domain.as_str()
    }

    pub fn clear_domain(&mut self)
        ensures
            final(self).domain@ == Seq::<char>::empty(),
            final(self).srcIP == old(self).srcIP,
    {
        self.domain = String::new();
    }

    pub fn set_domain(&mut self, v: String)
        ensures
            final(self).domain == v,
            final(self).srcIP == old(self).srcIP,
    {
        self.domain = v;
    }

    pub fn mut_domain(&mut self) -> (r: &mut String)
        ensures
            *r == old(self).domain,
            final(self).domain == *final(r),
            final(self).srcIP == old(self).srcIP,
    {
        &mut self.domain
    }

    pub fn take_domain(&mut self) -> (r: String)
        ensures
            r == old(self).domain,
            final(self).domain@ == Seq::<char>::empty(),
            final(self).srcIP == old(self).srcIP,
    {
        let mut t = String::new();
        std::mem::swap(&mut self.domain, &mut t);
        t
    }

    pub fn get_srcIP(&self) -> (r: &[u32])
        ensures
            r@ == self.srcIP@,
    {
        self.srcIP.as_slice()
    }

    pub fn clear_srcIP(&mut self)
        ensures
            final(self).srcIP@ == Seq::<u32>::empty(),
            final(self).domain == old(self).domain,
    {
        self.srcIP.clear();
    }

    pub fn set_srcIP(&mut self, v: Vec<u32>)
        ensures
            final(self).srcIP == v,
            final(self).domain == old(self).domain,
    {
        self.srcIP = v;
    }

    pub fn mut_srcIP(&mut self) -> (r: &mut Vec<u32>)
        ensures
            *r == old(self).srcIP,
            final(self).srcIP == *final(r),
            final(self).domain == old(self).domain,
    {
        &mut self.srcIP
    }

    pub fn take_srcIP(&mut self) -> (r: Vec<u32>)
        ensures
            r == old(self).srcIP,
            final(self).srcIP@ == Seq::<u32>::empty(),
            final(self).domain == old(self).domain,
    {
        let mut t = Vec::new();
        std::mem::swap(&mut self.srcIP, &mut t);
        t
    }
}

/// One report: an entry for each domain.
pub struct AccReport {
    pub domains: Vec<AccDomain>,
}

impl AccReport {
    pub fn new() -> (r: AccReport)
        ensures
            r.domains@ == Seq::<AccDomain>::empty(),
    {
        AccReport { domains: Vec::new() }
    }

    pub fn get_domains(&self) -> (r: &[AccDomain])
        ensures
            r@ == self.domains@,
    {
        self.domains.as_slice()
    }

    pub fn clear_domains(&mut self)
        ensures
            final(self).domains@ == Seq::<AccDomain>::empty(),
    {
        self.domains.clear();
    }

    pub fn set_domains(&mut self, v: Vec<AccDomain>)
        ensures
            final(self).domains == v,
    {
        self.domains = v;
    }

    pub fn mut_domains(&mut self) -> (r: &mut Vec<AccDomain>)
        ensures
            *r == old(self).domains,
            final(self).domains == *final(r),
    {
        &mut self.domains
    }

    pub fn take_domains(&mut self) -> (r: Vec<AccDomain>)
        ensures
            r == old(self).domains,
            final(self).domains@ == Seq::<AccDomain>::empty(),
    {
        let mut t = Vec::new();
        std::mem::swap(&mut self.domains, &mut t);
        t
    }
}


/// The varint of `v`: seven bits a byte, least significant first, the high bit set on all
/// bytes but the last.
pub open spec fn varint(v: nat) -> Seq<u8>
    decreases v,
{
    if v < 128 {
        seq![v as u8]
    } else {
        seq![(v % 128 + 128) as u8] + varint(v / 128)
    }
}

/// The largest field number of the protobuf runtime.
pub const FIELD_NUMBER_MAX: u32 = 0x1fffffff;

/// Writes the string field `field` holding `s` with `CodedOutputStream::write_string`:
/// the tag (length delimited), the length and the bytes.
#[verifier::external_body]
fn pb_write_string(field: u32, s: &str) -> (r: Vec<u8>)
    requires
        0 < field <= FIELD_NUMBER_MAX,
        s.spec_bytes().len() <= u32::MAX,
    ensures
        r@ == varint((field * 8 + 2) as nat) + varint(s.spec_bytes().len()) + s.spec_bytes(),
{
    let mut v: Vec<u8> = Vec::new();
    {
        let mut os = protobuf::CodedOutputStream::vec(&mut v);
        let _ = os.write_string(field, s);
        let _ = os.flush();
    }
    v
}

/// Writes the `uint32` field `field` holding `value` with `CodedOutputStream::write_uint32`:
/// the tag (varint) and the value.
#[verifier::external_body]
fn pb_write_uint32(field: u32, value: u32) -> (r: Vec<u8>)
    requires
        0 < field <= FIELD_NUMBER_MAX,
    ensures
        r@ == varint((field * 8) as nat) + varint(value as nat),
{
    let mut v: Vec<u8> = Vec::new();
    {
        let mut os = protobuf::CodedOutputStream::vec(&mut v);
        let _ = os.write_uint32(field, value);
        let _ = os.flush();
    }
    v
}

/// Writes the tag of the length delimited field `field` with `CodedOutputStream::write_tag`.
#[verifier::external_body]
fn pb_write_tag_ld(field: u32) -> (r: Vec<u8>)
    requires
        0 < field <= FIELD_NUMBER_MAX,
    ensures
        r@ == varint((field * 8 + 2) as nat),
{
    let mut v: Vec<u8> = Vec::new();
    {
        let mut os = protobuf::CodedOutputStream::vec(&mut v);
        let _ = os.write_tag(field, protobuf::wire_format::WireTypeLengthDelimited);
        let _ = os.flush();
    }
    v
}

/// Writes `value` as a varint with `CodedOutputStream::write_raw_varint32`.
#[verifier::external_body]
fn pb_write_varint32(value: u32) -> (r: Vec<u8>)
    ensures
        r@ == varint(value as nat),
{
    let mut v: Vec<u8> = Vec::new();
    {
        let mut os = protobuf::CodedOutputStream::vec(&mut v);
        let _ = os.write_raw_varint32(value);
        let _ = os.flush();
    }
    v
}

/// The protobuf encoding of the addresses `ips`, each as field 2.
pub open spec fn ips_bytes(ips: Seq<u32>) -> Seq<u8>
    decreases ips.len(),
{
    if ips.len() == 0 {
        Seq::empty()
    } else {
        ips_bytes(ips.drop_last()) + varint(16) + varint(ips.last() as nat)
    }
}

/// The protobuf encoding of a domain entry: the name as field 1 where it is not empty,
/// then the addresses.
pub open spec fn domain_bytes(name: Seq<char>, ips: Seq<u32>) -> Seq<u8> {
    (if name.len() > 0 {
        varint(10) + varint(encode_utf8(name).len()) + encode_utf8(name)
    } else {
        Seq::empty()
    }) + ips_bytes(ips)
}

/// The protobuf encoding of a report: each entry as field 1, with its length.
pub open spec fn report_bytes(ds: Seq<AccDomain>) -> Seq<u8>
    decreases ds.len(),
{
    if ds.len() == 0 {
        Seq::empty()
    } else {
        let d = domain_bytes(ds.last().domain@, ds.last().srcIP@);
        report_bytes(ds.drop_last()) + varint(10) + varint(d.len()) + d
    }
}

fn append_all(out: &mut Vec<u8>, b: &Vec<u8>)
    ensures
        final(out)@ == old(out)@ + b@,
{
    let n = b.len();
    let mut i: usize = 0;
    let ghost o = out@;
    while i < n
        invariant
            n == b@.len(),
            i <= n,
            out@ == o + b@.subrange(0, i as int),
        decreases n - i,
    {
        out.push(b[i]);
        i = i + 1;
        assert(out@ =~= o + b@.subrange(0, i as int));
    }
    assert(b@.subrange(0, n as int) =~= b@);
}

impl AccDomain {
    /// The protobuf encoding of the entry; `None` where its name is longer than the
    /// 32-bit lengths of the protobuf runtime allow.
    pub fn write_to_bytes(&self) -> (r: Option<Vec<u8>>)
        ensures
            encode_utf8(self.domain@).len() <= u32::MAX ==> (r matches Some(b) && b@ == domain_bytes(self.domain@, self.srcIP@)),
            encode_utf8(self.domain@).len() > u32::MAX ==> r is None,
    {
        let mut out: Vec<u8> = Vec::new();
        let name = self.domain.as_str();
        let nlen = name.as_bytes().len();
        if nlen > u32::MAX as usize {
            return None;
        }
        if name.unicode_len() > 0 {
            let b = pb_write_string(1, name);
            append_all(&mut out, &b);
        }
        let ghost head = out@;
        assert(head == (if self.domain@.len() > 0 {
            varint(10) + varint(encode_utf8(self.domain@).len()) + encode_utf8(self.domain@)
        } else {
            Seq::<u8>::empty()
        }));
        let n = self.srcIP.len();
        let mut i: usize = 0;
        while i < n
            invariant
                n == self.srcIP@.len(),
                i <= n,
                out@ == head + ips_bytes(self.srcIP@.take(i as int)),
            decreases n - i,
        {
            let b = pb_write_uint32(2, self.srcIP[i]);
            append_all(&mut out, &b);
            proof {
                assert(self.srcIP@.take(i + 1).drop_last() =~= self.srcIP@.take(i as int));
                assert(self.srcIP@.take(i + 1).last() == self.srcIP@[i as int]);
                assert(out@ =~= head + ips_bytes(self.srcIP@.take(i + 1)));
            }
            i = i + 1;
        }
        assert(self.srcIP@.take(n as int) =~= self.srcIP@);
        Some(out)
    }
}

impl AccReport {
    /// The protobuf encoding of the report; `None` where an entry is longer than the
    /// 32-bit lengths of the protobuf runtime allow.
    pub fn write_to_bytes(&self) -> (r: Option<Vec<u8>>)
        ensures
            (forall|i: int| 0 <= i < self.domains@.len() ==> encode_utf8(#[trigger] self.domains@[i].domain@).len() <= u32::MAX
                && domain_bytes(self.domains@[i].domain@, self.domains@[i].srcIP@).len() <= u32::MAX)
                ==> (r matches Some(b) && b@ == report_bytes(self.domains@)),
            r matches Some(b) ==> b@ == report_bytes(self.domains@),
    {
        let mut out: Vec<u8> = Vec::new();
        let n = self.domains.len();
        let mut i: usize = 0;
        while i < n
            invariant
                n == self.domains@.len(),
                i <= n,
                out@ == report_bytes(self.domains@.take(i as int)),
            decreases n - i,
        {
            let d = &self.domains[i];
            let inner = match d.write_to_bytes() {
                Some(b) => b,
                None => {
                    return None;
                },
            };
            if inner.len() > u32::MAX as usize {
                return None;
            }
            let t = pb_write_tag_ld(1);
            append_all(&mut out, &t);
            let l = pb_write_varint32(inner.len() as u32);
            append_all(&mut out, &l);
            append_all(&mut out, &inner);
            proof {
                assert(self.domains@.take(i + 1).drop_last() =~= self.domains@.take(i as int));
                assert(self.domains@.take(i + 1).last() == self.domains@[i as int]);
                assert(out@ =~= report_bytes(self.domains@.take(i + 1)));
            }
            i = i + 1;
        }
        assert(self.domains@.take(n as int) =~= self.domains@);
        Some(out)
    }
}

} // verus!
