//! Watches a host's local IP networks through the kernel's routing
//! notification socket and reports them as `Up` / `Down` events.
//!
//! The library holds the protocol logic: decoding of netlink records,
//! building dump requests, classifying received datagrams, and reconciling
//! the set of known networks with what the kernel reports.

pub mod wire;
pub mod net;
pub mod aligned_buffer;
pub mod netlink;
pub mod rtnetlink;
pub mod parse;
pub mod diff;
pub mod transport;
pub mod engine;
pub mod ifaddr;

pub use net::{IpAddr, IpNet, Ipv4Net, Ipv6Net, IfEvent};
pub use aligned_buffer::{FromBuffer, U32AlignedBuffer, MAX_SPAN};
pub use netlink::{
    nlmsghdr, NetlinkIterator, NLMSG_DONE, NLMSG_ERROR, NLMSG_NOOP, NLMSG_OVERRUN, NLM_F_DUMP,
    NLM_F_MULTI, NLM_F_REQUEST,
};
pub use rtnetlink::{
    ifaddrmsg, ip_addr_from_payload, read_msg, read_rtmsg, rtattr, rtmsg, RecordForm, RtaIterator,
    RtaMessage, AF_INET, AF_INET6, AF_UNSPEC, IFA_ADDRESS, RTA_DST, RTA_SRC, RTM_DELADDR,
    RTM_DELROUTE, RTM_F_NOTIFY, RTM_GETADDR, RTM_GETROUTE, RTM_NEWADDR, RTM_NEWROUTE, RTN_LOCAL,
    RTPROT_UNSPEC, RT_SCOPE_HOST, RT_TABLE_LOCAL,
};
pub use parse::{
    parse_dump, parse_notification, read_ifaddrmsg, read_record, read_route, DumpPart, Table,
    WatchError,
};
pub use transport::{
    classify_datagram, cmsg_align, cmsg_len, cmsg_space, dump_request, next_seq, ControlMessage,
    Credentials, RecvInfo, RecvOutcome, AF_NETLINK, DUMP_REQUEST_FLAGS, DUMP_REQUEST_LEN, ENOBUFS,
    MSG_CTRUNC, MSG_TRUNC, SCM_CREDENTIALS, SOCKADDR_NL_LEN, SOL_SOCKET, UCRED_LEN,
};
pub use engine::{Phase, Reconciler, ReconcilerModel, INITIAL_BUFFER, MAX_BUFFER};
pub use ifaddr::{ifaddr_to_ipnet, netmask_prefix_len, IfAddr, Ifv4Addr, Ifv6Addr};
