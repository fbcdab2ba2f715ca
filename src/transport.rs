//! The decisions of the netlink transport: sequence numbers, the bytes of a
//! dump request, and what a received datagram amounts to. The socket calls
//! themselves are made by the caller, which hands over what they returned.
use crate::netlink::{nlmsghdr, NLM_F_DUMP, NLM_F_MULTI, NLM_F_REQUEST};
use crate::rtnetlink::{
    rtmsg, AF_UNSPEC, RTM_F_NOTIFY, RTN_LOCAL, RTPROT_UNSPEC, RT_SCOPE_HOST, RT_TABLE_LOCAL,
};
use vstd::prelude::*;

verus! {

/// Address family of netlink sockets.
pub const AF_NETLINK: u16 = 16;

/// Flags of a dump request.
pub const DUMP_REQUEST_FLAGS: u16 = NLM_F_REQUEST | NLM_F_MULTI | NLM_F_DUMP;

/// Size of a dump request: a message header and a route header.
pub const DUMP_REQUEST_LEN: u32 = 28;

/// Error number: no buffer space, the kernel dropped messages.
pub const ENOBUFS: i32 = 105;

/// Receive flag: the datagram was longer than the buffer.
pub const MSG_TRUNC: i32 = 0x20;

/// Receive flag: the ancillary data was longer than its buffer.
pub const MSG_CTRUNC: i32 = 8;

/// Level of socket-wide options and control messages.
pub const SOL_SOCKET: i32 = 1;

/// Control message type: the sender's credentials.
pub const SCM_CREDENTIALS: i32 = 2;

/// Size of a netlink socket address.
pub const SOCKADDR_NL_LEN: u32 = 12;

/// Size of the credentials carried by a control message.
pub const UCRED_LEN: usize = 12;

/// The sequence number that follows `seq`: one more, and after the largest
/// value one again. Zero is never used, as unsolicited messages carry it.
pub open spec fn next_seq_spec(seq: u32) -> u32 {
    if seq == u32::MAX {
        1
    } else {
        (seq + 1) as u32
    }
}

pub fn next_seq(seq: u32) -> (r: u32)
    ensures
        r == next_seq_spec(seq),
        r != 0,
{
    if seq == u32::MAX {
        1
    } else {
        seq + 1
    }
}

/// The two bytes of `x`, least significant first.
pub open spec fn le16_bytes(x: u16) -> Seq<u8> {
    seq![(x % 256) as u8, (x / 256) as u8]
}

/// The four bytes of `x`, least significant first.
pub open spec fn le32_bytes(x: u32) -> Seq<u8> {
    seq![(x % 256) as u8, (x / 256 % 256) as u8, (x / 0x10000 % 256) as u8, (x / 0x1000000) as u8]
}

/// The bytes of a message header.
pub open spec fn encode_nlmsghdr(h: nlmsghdr) -> Seq<u8> {
    le32_bytes(h.nlmsg_len) + le16_bytes(h.nlmsg_type) + le16_bytes(h.nlmsg_flags) + le32_bytes(
        h.nlmsg_seq,
    ) + le32_bytes(h.nlmsg_pid)
}

/// The bytes of a route header.
pub open spec fn encode_rtmsg(m: rtmsg) -> Seq<u8> {
    seq![
        m.rtm_family,
        m.rtm_dst_len,
        m.rtm_src_len,
        m.rtm_tos,
        m.rtm_table,
        m.rtm_protocol,
        m.rtm_scope,
        m.rtm_type,
    ] + le32_bytes(m.rtm_flags)
}

/// The header of a dump request of type `msg_type`.
pub open spec fn dump_request_header(msg_type: u16, seq: u32, pid: u32) -> nlmsghdr {
    nlmsghdr {
        nlmsg_len: DUMP_REQUEST_LEN,
        nlmsg_type: msg_type,
        nlmsg_flags: DUMP_REQUEST_FLAGS,
        nlmsg_seq: seq,
        nlmsg_pid: pid,
    }
}

/// The route header that a dump request carries: any family, local table.
pub open spec fn dump_request_body() -> rtmsg {
    rtmsg {
        rtm_family: AF_UNSPEC,
        rtm_dst_len: 0,
        rtm_src_len: 0,
        rtm_tos: 0,
        rtm_table: RT_TABLE_LOCAL,
        rtm_protocol: RTPROT_UNSPEC,
        rtm_scope: RT_SCOPE_HOST,
        rtm_type: RTN_LOCAL,
        rtm_flags: RTM_F_NOTIFY,
    }
}

fn push_u16(out: &mut Vec<u8>, x: u16)
    ensures
        final(out)@ == old(out)@ + le16_bytes(x),
{
    out.push((x % 256) as u8);
    out.push((x / 256) as u8);
    assert(final(out)@ =~= old(out)@ + le16_bytes(x));
}

fn push_u32(out: &mut Vec<u8>, x: u32)
    ensures
        final(out)@ == old(out)@ + le32_bytes(x),
{
    out.push((x % 256) as u8);
    out.push((x / 256 % 256) as u8);
    out.push((x / 0x10000 % 256) as u8);
    out.push((x / 0x1000000) as u8);
    assert(final(out)@ =~= old(out)@ + le32_bytes(x));
}

/// The bytes of a request to dump the table that `msg_type` names
/// (`RTM_GETADDR` for addresses, `RTM_GETROUTE` for routes), with sequence
/// number `seq`, sent from port `pid`.
pub fn dump_request(msg_type: u16, seq: u32, pid: u32) -> (r: Vec<u8>)
    ensures
        r@ == encode_nlmsghdr(dump_request_header(msg_type, seq, pid)) + encode_rtmsg(
            dump_request_body(),
        ),
        r@.len() == DUMP_REQUEST_LEN,
{
    let mut out: Vec<u8> = Vec::new();
    push_u32(&mut out, DUMP_REQUEST_LEN);
    push_u16(&mut out, msg_type);
    push_u16(&mut out, DUMP_REQUEST_FLAGS);
    push_u32(&mut out, seq);
    push_u32(&mut out, pid);
    let ghost h = out@;
    assert(h =~= encode_nlmsghdr(dump_request_header(msg_type, seq, pid)));
    out.push(AF_UNSPEC);
    out.push(0);
    out.push(0);
    out.push(0);
    out.push(RT_TABLE_LOCAL);
    out.push(RTPROT_UNSPEC);
    out.push(RT_SCOPE_HOST);
    out.push(RTN_LOCAL);
    push_u32(&mut out, RTM_F_NOTIFY);
    assert(out@ =~= h + encode_rtmsg(dump_request_body()));
    out
}

/// The size in bytes of a machine word, to which control messages align.
pub open spec fn word_size() -> nat {
    (usize::BITS / 8) as nat
}

/// `len` rounded up to a multiple of the machine word.
pub open spec fn cmsg_align_spec(len: nat) -> nat {
    ((len + word_size() - 1) as int / word_size() as int * word_size()) as nat
}

/// Size of a control message header: a length of one word and two `int`s.
pub open spec fn cmsghdr_len() -> nat {
    word_size() + 8
}

/// `len` rounded up to a multiple of the machine word.
pub fn cmsg_align(len: usize) -> (r: usize)
    requires
        len <= usize::MAX - 7,
    ensures
        r == cmsg_align_spec(len as nat),
        len <= r <= len + 7,
{
    if usize::BITS == 64 {
        (len + 7) / 8 * 8
    } else {
        (len + 3) / 4 * 4
    }
}

/// Room that a control message with `len` bytes of data takes.
pub fn cmsg_space(len: usize) -> (r: usize)
    requires
        len <= usize::MAX - 32,
    ensures
        r == cmsg_align_spec(len as nat) + cmsg_align_spec(cmsghdr_len()),
{
    let word = (usize::BITS / 8) as usize;
    cmsg_align(len) + cmsg_align(word + 8)
}

/// Value of the length field of a control message with `len` bytes of data.
pub fn cmsg_len(len: usize) -> (r: usize)
    requires
        len <= usize::MAX - 32,
    ensures
        r == cmsg_align_spec(cmsghdr_len()) + len,
{
    let word = (usize::BITS / 8) as usize;
    cmsg_align(word + 8) + len
}

} // verus!

verus! {

/// Credentials that the kernel attaches to what it sends.
#[derive(Clone, Copy, Debug, PartialEq, Eq, Structural)]
pub struct Credentials {
    pub pid: i32,
    pub uid: u32,
    pub gid: u32,
}

/// The first control message received with a datagram.
#[derive(Clone, Copy, Debug, PartialEq, Eq, Structural)]
pub struct ControlMessage {
    /// Its length field.
    pub len: usize,
    pub level: i32,
    pub kind: i32,
    /// Its data, read as credentials.
    pub creds: Credentials,
}

/// What one receive call on the socket returned.
#[derive(Clone, Copy, Debug, PartialEq, Eq, Structural)]
pub struct RecvInfo {
    /// Bytes received, or a negative value when the call failed.
    pub status: isize,
    /// The error number of a failed call.
    pub errno: i32,
    /// Length of the sender's address.
    pub name_len: u32,
    /// The sender's address family.
    pub family: u16,
    /// The sender's port identifier; zero for the kernel.
    pub pid: u32,
    /// Length of the ancillary data.
    pub control_len: usize,
    /// Flags of the received message.
    pub flags: i32,
    /// The first control message, if there is one.
    pub control: Option<ControlMessage>,
}

/// What a received datagram amounts to.
#[derive(Clone, Copy, Debug, PartialEq, Eq, Structural)]
pub enum RecvOutcome {
    /// A well-formed datagram from the kernel, of this many bytes.
    Data(usize),
    /// A datagram from another sender, to be dropped.
    Skip,
    /// Data was lost or arrived malformed: everything must be fetched again.
    Desync,
    /// The receive call failed with this error number.
    Io(i32),
}

/// Whether a control message holds the kernel's credentials, as a datagram
/// from the kernel must.
pub open spec fn kernel_credentials(c: ControlMessage) -> bool {
    &&& c.len == cmsg_align_spec(cmsghdr_len()) + UCRED_LEN
    &&& c.level == SOL_SOCKET
    &&& c.kind == SCM_CREDENTIALS
    &&& c.creds.pid == 0 && c.creds.uid == 0 && c.creds.gid == 0
}

/// What a receive call's result amounts to. A failed call is a desync when
/// the kernel ran out of buffer space, and an I/O error otherwise. A datagram
/// whose address or ancillary data has the wrong size, that was truncated,
/// or whose sender is not of the netlink family is a desync. One from a port
/// other than the kernel's is skipped. One from the kernel must carry the
/// kernel's credentials, else it is a desync.
pub open spec fn classify(info: RecvInfo) -> RecvOutcome {
    if info.status < 0 {
        if info.errno == ENOBUFS {
            RecvOutcome::Desync
        } else {
            RecvOutcome::Io(info.errno)
        }
    } else if info.name_len != SOCKADDR_NL_LEN || info.control_len != cmsg_align_spec(UCRED_LEN as nat)
        + cmsg_align_spec(cmsghdr_len()) || info.flags & (MSG_TRUNC | MSG_CTRUNC) != 0 {
        RecvOutcome::Desync
    } else if info.family != AF_NETLINK {
        RecvOutcome::Desync
    } else if info.pid != 0 {
        RecvOutcome::Skip
    } else {
        match info.control {
            Some(c) => if kernel_credentials(c) {
                RecvOutcome::Data(info.status as usize)
            } else {
                RecvOutcome::Desync
            },
            None => RecvOutcome::Desync,
        }
    }
}

/// Decides what a receive call's result amounts to; see `classify`.
pub fn classify_datagram(info: &RecvInfo) -> (r: RecvOutcome)
    ensures
        r == classify(*info),
{
    if info.status < 0 {
        if info.errno == ENOBUFS {
            return RecvOutcome::Desync;
        }
        return RecvOutcome::Io(info.errno);
    }
    if info.name_len != SOCKADDR_NL_LEN || info.control_len != cmsg_space(UCRED_LEN) || info.flags
        & (MSG_TRUNC | MSG_CTRUNC) != 0 {
        return RecvOutcome::Desync;
    }
    if info.family != AF_NETLINK {
        return RecvOutcome::Desync;
    }
    if info.pid != 0 {
        return RecvOutcome::Skip;
    }
    match info.control {
        Some(c) => {
            if c.len == cmsg_len(UCRED_LEN) && c.level == SOL_SOCKET && c.kind == SCM_CREDENTIALS
                && c.creds.pid == 0 && c.creds.uid == 0 && c.creds.gid == 0 {
                RecvOutcome::Data(info.status as usize)
            } else {
                RecvOutcome::Desync
            }
        },
        None => RecvOutcome::Desync,
    }
}

} // verus!

verus! {

proof fn lemma_le16_round_trip(x: u16)
    ensures
        crate::wire::le_u16(le16_bytes(x), 0) == x,
{
    let b = le16_bytes(x);
    assert(b[0] as int == x % 256);
    assert(b[1] as int == x / 256);
    assert(x % 256 + 0x100 * (x / 256) == x) by (bit_vector);
}

proof fn lemma_le32_round_trip(x: u32)
    ensures
        crate::wire::le_u32(le32_bytes(x), 0) == x,
{
    let b = le32_bytes(x);
    assert(b[0] as int == x % 256);
    assert(b[1] as int == x / 256 % 256);
    assert(b[2] as int == x / 0x10000 % 256);
    assert(b[3] as int == x / 0x1000000);
    assert(x % 256 + 0x100 * (x / 256 % 256) + 0x10000 * (x / 0x10000 % 256) + 0x1000000 * (x
        / 0x1000000) == x) by (bit_vector);
}

/// A dump request reads back, through the message reader, as one message:
/// its header, with the route header as its body.
pub proof fn lemma_request_reads_back(msg_type: u16, seq: u32, pid: u32)
    ensures
        ({
            let bytes = encode_nlmsghdr(dump_request_header(msg_type, seq, pid)) + encode_rtmsg(
                dump_request_body(),
            );
            &&& crate::netlink::messages(bytes) == seq![
                (dump_request_header(msg_type, seq, pid), encode_rtmsg(dump_request_body())),
            ]
            &&& <rtmsg as crate::aligned_buffer::FromBuffer>::spec_decode(
                encode_rtmsg(dump_request_body()),
            ) == dump_request_body()
        }),
{
    let h = dump_request_header(msg_type, seq, pid);
    let body = encode_rtmsg(dump_request_body());
    let hb = encode_nlmsghdr(h);
    let bytes = hb + body;
    lemma_le32_round_trip(DUMP_REQUEST_LEN);
    lemma_le16_round_trip(msg_type);
    lemma_le16_round_trip(DUMP_REQUEST_FLAGS);
    lemma_le32_round_trip(seq);
    lemma_le32_round_trip(pid);
    lemma_le32_round_trip(RTM_F_NOTIFY);
    let s = bytes.subrange(0, 16);
    assert(s =~= hb);
    assert(le32_bytes(DUMP_REQUEST_LEN) =~= hb.subrange(0, 4));
    assert(crate::wire::le_u32(hb, 0) == crate::wire::le_u32(le32_bytes(DUMP_REQUEST_LEN), 0));
    assert(crate::wire::le_u16(hb, 4) == crate::wire::le_u16(le16_bytes(msg_type), 0));
    assert(crate::wire::le_u16(hb, 6) == crate::wire::le_u16(le16_bytes(DUMP_REQUEST_FLAGS), 0));
    assert(crate::wire::le_u32(hb, 8) == crate::wire::le_u32(le32_bytes(seq), 0));
    assert(crate::wire::le_u32(hb, 12) == crate::wire::le_u32(le32_bytes(pid), 0));
    assert(<crate::netlink::nlmsghdr as crate::aligned_buffer::FromBuffer>::spec_decode(s) == h);
    assert(DUMP_REQUEST_FLAGS & NLM_F_MULTI != 0) by (bit_vector);
    assert(bytes.subrange(16, 28) =~= body);
    assert(bytes.subrange(28, 28) =~= Seq::<u8>::empty());
    assert(crate::netlink::messages(Seq::<u8>::empty()) == Seq::<
        (crate::netlink::nlmsghdr, Seq<u8>),
    >::empty());
    assert(seq![(h, body)] + Seq::<(crate::netlink::nlmsghdr, Seq<u8>)>::empty() =~= seq![
        (h, body),
    ]);
    assert(crate::wire::le_u32(body, 8) == crate::wire::le_u32(le32_bytes(RTM_F_NOTIFY), 0));
}

} // verus!
