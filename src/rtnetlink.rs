//! The attribute reader: the family-specific header of a route or address
//! record, then its type-length-value attributes.
use crate::aligned_buffer::{read_spec, FromBuffer, U32AlignedBuffer};
use crate::net::{ip_of_payload, lemma_payload_octets, IpAddr};
use crate::wire::{be_nat, le_u16, le_u32, lemma_be_nat_bound, lemma_pow256_mono, pow256, read_u16, read_u32};
use vstd::prelude::*;

verus! {

/// Address family: unspecified.
pub const AF_UNSPEC: u8 = 0;

/// Address family: IPv4.
pub const AF_INET: u8 = 2;

/// Address family: IPv6.
pub const AF_INET6: u8 = 10;

/// Message type: a network address was added (or is listed by a dump).
pub const RTM_NEWADDR: u16 = 20;

/// Message type: a network address was removed.
pub const RTM_DELADDR: u16 = 21;

/// Message type: request a dump of the network addresses.
pub const RTM_GETADDR: u16 = 22;

/// Message type: a route was added (or is listed by a dump).
pub const RTM_NEWROUTE: u16 = 24;

/// Message type: a route was removed.
pub const RTM_DELROUTE: u16 = 25;

/// Message type: request a dump of the routes.
pub const RTM_GETROUTE: u16 = 26;

/// Route attribute: destination address.
pub const RTA_DST: u16 = 1;

/// Route attribute: source address.
pub const RTA_SRC: u16 = 2;

/// Address attribute: the interface address.
pub const IFA_ADDRESS: u16 = 1;

/// Routing table of local and broadcast addresses.
pub const RT_TABLE_LOCAL: u8 = 255;

/// Scope of addresses valid on this host only.
pub const RT_SCOPE_HOST: u8 = 254;

/// Route type of local addresses.
pub const RTN_LOCAL: u8 = 2;

/// Route origin: unknown.
pub const RTPROT_UNSPEC: u8 = 0;

/// Route flag: report changes to the requester.
pub const RTM_F_NOTIFY: u32 = 0x100;

/// The fixed header of a route record.
#[allow(non_camel_case_types)]
#[derive(Clone, Copy, Debug, PartialEq, Eq, Structural)]
pub struct rtmsg {
    pub rtm_family: u8,
    pub rtm_dst_len: u8,
    pub rtm_src_len: u8,
    pub rtm_tos: u8,
    pub rtm_table: u8,
    pub rtm_protocol: u8,
    pub rtm_scope: u8,
    pub rtm_type: u8,
    pub rtm_flags: u32,
}

/// The fixed header of an interface-address record.
#[allow(non_camel_case_types)]
#[derive(Clone, Copy, Debug, PartialEq, Eq, Structural)]
pub struct ifaddrmsg {
    pub ifa_family: u8,
    pub ifa_prefixlen: u8,
    pub ifa_flags: u8,
    pub ifa_scope: u8,
    pub ifa_index: u32,
}

/// The header of one attribute: its length (header included) and type.
#[allow(non_camel_case_types)]
#[derive(Clone, Copy, Debug, PartialEq, Eq, Structural)]
pub struct rtattr {
    pub rta_len: u16,
    pub rta_type: u16,
}

impl FromBuffer for rtmsg {
    open spec fn spec_size() -> nat {
        12
    }

    open spec fn spec_decode(b: Seq<u8>) -> rtmsg {
        rtmsg {
            rtm_family: b[0],
            rtm_dst_len: b[1],
            rtm_src_len: b[2],
            rtm_tos: b[3],
            rtm_table: b[4],
            rtm_protocol: b[5],
            rtm_scope: b[6],
            rtm_type: b[7],
            rtm_flags: le_u32(b, 8),
        }
    }

    /// The record has no length of its own: it spans the whole body.
    open spec fn spec_len(&self, total: nat) -> nat {
        total
    }

    fn size() -> (r: usize) {
        12
    }

    fn decode(b: &[u8], start: usize) -> (r: rtmsg) {
        assert(start + 12 <= b.len());
        let ghost s = b@.subrange(start as int, start + 12);
        assert(le_u32(s, 8) == le_u32(b@, start + 8));
        rtmsg {
            rtm_family: b[start],
            rtm_dst_len: b[start + 1],
            rtm_src_len: b[start + 2],
            rtm_tos: b[start + 3],
            rtm_table: b[start + 4],
            rtm_protocol: b[start + 5],
            rtm_scope: b[start + 6],
            rtm_type: b[start + 7],
            rtm_flags: read_u32(b, start + 8),
        }
    }

    fn len(&self, total: usize) -> (r: u32) {
        total as u32
    }
}

impl FromBuffer for ifaddrmsg {
    open spec fn spec_size() -> nat {
        8
    }

    open spec fn spec_decode(b: Seq<u8>) -> ifaddrmsg {
        ifaddrmsg {
            ifa_family: b[0],
            ifa_prefixlen: b[1],
            ifa_flags: b[2],
            ifa_scope: b[3],
            ifa_index: le_u32(b, 4),
        }
    }

    /// The record has no length of its own: it spans the whole body.
    open spec fn spec_len(&self, total: nat) -> nat {
        total
    }

    fn size() -> (r: usize) {
        8
    }

    fn decode(b: &[u8], start: usize) -> (r: ifaddrmsg) {
        assert(start + 8 <= b.len());
        let ghost s = b@.subrange(start as int, start + 8);
        assert(le_u32(s, 4) == le_u32(b@, start + 4));
        ifaddrmsg {
            ifa_family: b[start],
            ifa_prefixlen: b[start + 1],
            ifa_flags: b[start + 2],
            ifa_scope: b[start + 3],
            ifa_index: read_u32(b, start + 4),
        }
    }

    fn len(&self, total: usize) -> (r: u32) {
        total as u32
    }
}

impl FromBuffer for rtattr {
    open spec fn spec_size() -> nat {
        4
    }

    open spec fn spec_decode(b: Seq<u8>) -> rtattr {
        rtattr { rta_len: le_u16(b, 0), rta_type: le_u16(b, 2) }
    }

    open spec fn spec_len(&self, total: nat) -> nat {
        self.rta_len as nat
    }

    fn size() -> (r: usize) {
        4
    }

    fn decode(b: &[u8], start: usize) -> (r: rtattr) {
        assert(start + 4 <= b.len());
        let ghost s = b@.subrange(start as int, start + 4);
        assert(le_u16(s, 0) == le_u16(b@, start as int));
        assert(le_u16(s, 2) == le_u16(b@, start + 2));
        rtattr { rta_len: read_u16(b, start), rta_type: read_u16(b, start + 2) }
    }

    fn len(&self, total: usize) -> (r: u32) {
        self.rta_len as u32
    }
}

/// Which attribute types carry the address of a record.
#[derive(Clone, Copy, Debug, PartialEq, Eq, Structural)]
pub enum RecordForm {
    /// A route record: its destination or its source.
    Route,
    /// An interface-address record: its address.
    Address,
}

/// Whether attributes of type `ty` carry the address in records of `form`.
pub open spec fn carries_address(form: RecordForm, ty: u16) -> bool {
    match form {
        RecordForm::Route => ty == RTA_DST || ty == RTA_SRC,
        RecordForm::Address => ty == IFA_ADDRESS,
    }
}

impl RecordForm {
    /// Whether attributes of type `ty` carry the address in records of this
    /// form.
    pub fn carries_address(&self, ty: u16) -> (r: bool)
        ensures
            r == carries_address(*self, ty),
    {
        match self {
            RecordForm::Route => ty == RTA_DST || ty == RTA_SRC,
            RecordForm::Address => ty == IFA_ADDRESS,
        }
    }
}

/// One attribute as the reader reports it.
#[derive(Clone, Copy, Debug, PartialEq, Eq, Structural)]
pub enum RtaMessage {
    /// An address-bearing attribute with a four- or sixteen-byte payload.
    IPAddr(IpAddr),
    /// Any other attribute; it is skipped.
    Other,
}

/// How an attribute of type `ty` with payload `payload` is reported.
pub open spec fn attribute_message(form: RecordForm, ty: u16, payload: Seq<u8>) -> RtaMessage {
    if carries_address(form, ty) {
        match ip_of_payload(payload) {
            Some(a) => RtaMessage::IPAddr(a),
            None => RtaMessage::Other,
        }
    } else {
        RtaMessage::Other
    }
}

/// The attributes that `data` holds, in order. Reading stops at the first
/// attribute header that is cut short or declares an impossible length.
pub open spec fn attributes(data: Seq<u8>, form: RecordForm) -> Seq<RtaMessage>
    decreases data.len(),
{
    match read_spec::<rtattr>(data) {
        None => Seq::empty(),
        Some((a, payload, rest)) => seq![attribute_message(form, a.rta_type, payload)]
            + attributes(rest, form),
    }
}

/// The first address among `ms`.
pub open spec fn first_address(ms: Seq<RtaMessage>) -> Option<IpAddr>
    decreases ms.len(),
{
    if ms.len() == 0 {
        None
    } else {
        match ms[0] {
            RtaMessage::IPAddr(a) => Some(a),
            RtaMessage::Other => first_address(ms.drop_first()),
        }
    }
}

/// The address that an attribute payload holds: four bytes give an IPv4
/// address, sixteen an IPv6 one, with exactly the payload's octets; any other
/// length gives `None`.
pub fn ip_addr_from_payload(payload: &U32AlignedBuffer) -> (r: Option<IpAddr>)
    ensures
        r == ip_of_payload(payload@),
        r matches Some(a) ==> a.octets() == payload@,
{
    let n = payload.len();
    if n != 4 && n != 16 {
        return None;
    }
    let mut v: u128 = 0;
    let mut i: usize = 0;
    while i < n
        invariant
            i <= n,
            n == payload@.len(),
            n == 4 || n == 16,
            v == be_nat(payload@.subrange(0, i as int)),
        decreases n - i,
    {
        let ghost prefix = payload@.subrange(0, i as int);
        proof {
            lemma_be_nat_bound(prefix);
            lemma_pow256_mono(i as nat, 15);
            assert(pow256(15) == 0x1_000000_000000_000000_000000_000000) by {
                reveal_with_fuel(pow256, 16);
            }
            assert(payload@.subrange(0, i + 1).drop_last() =~= prefix);
        }
        v = v * 256 + payload.byte(i) as u128;
        i = i + 1;
    }
    assert(payload@.subrange(0, n as int) =~= payload@);
    proof {
        lemma_payload_octets(payload@);
        lemma_be_nat_bound(payload@);
    }
    if n == 4 {
        assert(pow256(4) == 0x1_0000_0000) by {
            reveal_with_fuel(pow256, 5);
        }
        Some(IpAddr::V4(v as u32))
    } else {
        Some(IpAddr::V6(v))
    }
}

/// Reads the attributes of one record body.
pub struct RtaIterator<'a> {
    buf: U32AlignedBuffer<'a>,
    form: RecordForm,
}

impl<'a> View for RtaIterator<'a> {
    type V = Seq<RtaMessage>;

    /// The attributes still to come.
    closed spec fn view(&self) -> Seq<RtaMessage> {
        attributes(self.buf@, self.form)
    }
}

impl<'a> RtaIterator<'a> {
    /// The next attribute.
    pub fn next(&mut self) -> (r: Option<RtaMessage>)
        ensures
            old(self)@ == match r {
                None => Seq::empty(),
                Some(m) => seq![m] + final(self)@,
            },
    {
        match self.buf.read::<rtattr>() {
            None => None,
            Some((attr, payload)) => {
                let m = if self.form.carries_address(attr.rta_type) {
                    match ip_addr_from_payload(&payload) {
                        Some(a) => RtaMessage::IPAddr(a),
                        None => RtaMessage::Other,
                    }
                } else {
                    RtaMessage::Other
                };
                Some(m)
            },
        }
    }

    /// The first address among the attributes still to come.
    pub fn first_address(&mut self) -> (r: Option<IpAddr>)
        ensures
            r == first_address(old(self)@),
    {
        loop
            invariant
                first_address(self@) == first_address(old(self)@),
            decreases self@.len(),
        {
            match self.next() {
                None => {
                    return None;
                },
                Some(RtaMessage::IPAddr(a)) => {
                    return Some(a);
                },
                Some(RtaMessage::Other) => {
                    assert(first_address(seq![RtaMessage::Other] + self@) == first_address(self@)) by {
                        assert((seq![RtaMessage::Other] + self@).drop_first() =~= self@);
                    }
                },
            }
        }
    }
}

/// Reads the fixed header `M` of a record body, and returns it with a reader
/// over the attributes that follow it.
pub fn read_msg<'a, M: FromBuffer>(buffer: &mut U32AlignedBuffer<'a>, form: RecordForm) -> (r:
    Option<(M, RtaIterator<'a>)>)
    ensures
        r is None <==> read_spec::<M>(old(buffer)@) is None,
        r is None ==> final(buffer)@ == old(buffer)@,
        r matches Some((m, it)) ==> read_spec::<M>(old(buffer)@) matches Some((m2, attrs, rest)) && m
            == m2 && it@ == attributes(attrs, form) && final(buffer)@ == rest,
{
    match buffer.read::<M>() {
        None => None,
        Some((msg, body)) => Some((msg, RtaIterator { buf: body, form })),
    }
}

/// Reads the header of a route record, and returns it with a reader over its
/// attributes (destination and source carry the address).
pub fn read_rtmsg<'a>(buffer: &mut U32AlignedBuffer<'a>) -> (r: Option<(rtmsg, RtaIterator<'a>)>)
    ensures
        r is None <==> read_spec::<rtmsg>(old(buffer)@) is None,
        r is None ==> final(buffer)@ == old(buffer)@,
        r matches Some((m, it)) ==> read_spec::<rtmsg>(old(buffer)@) matches Some((m2, attrs, rest))
            && m == m2 && it@ == attributes(attrs, RecordForm::Route) && final(buffer)@ == rest,
{
    read_msg::<rtmsg>(buffer, RecordForm::Route)
}

} // verus!

verus! {

/// A span shorter than a message header holds no message, and one shorter
/// than an attribute header holds no attribute: both readers yield nothing.
pub proof fn lemma_short_span_yields_nothing(data: Seq<u8>, form: RecordForm)
    ensures
        data.len() < crate::netlink::NLMSG_HDRLEN ==> crate::netlink::messages(data)
            == Seq::<(crate::netlink::nlmsghdr, Seq<u8>)>::empty(),
        data.len() < 4 ==> attributes(data, form) == Seq::<RtaMessage>::empty(),
{
}

} // verus!
