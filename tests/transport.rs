use if_watch::{
    classify_datagram, cmsg_align, cmsg_len, cmsg_space, dump_request, ifaddr_to_ipnet,
    netmask_prefix_len, next_seq, read_rtmsg, ControlMessage, Credentials, IfAddr, Ifv4Addr,
    Ifv6Addr, IpNet, Ipv4Net, Ipv6Net, NetlinkIterator, RecvInfo, RecvOutcome, AF_INET, AF_INET6,
    AF_NETLINK, AF_UNSPEC, DUMP_REQUEST_FLAGS, ENOBUFS, IFA_ADDRESS, MSG_CTRUNC, MSG_TRUNC,
    NLMSG_DONE, NLMSG_ERROR, NLMSG_NOOP, NLMSG_OVERRUN, NLM_F_DUMP, NLM_F_MULTI, NLM_F_REQUEST,
    RTA_DST, RTA_SRC, RTM_DELADDR, RTM_DELROUTE, RTM_F_NOTIFY, RTM_GETADDR, RTM_GETROUTE,
    RTM_NEWADDR, RTM_NEWROUTE, RTN_LOCAL, RTPROT_UNSPEC, RT_SCOPE_HOST, RT_TABLE_LOCAL,
    SCM_CREDENTIALS, SOL_SOCKET,
};

#[test]
fn sequence_numbers_wrap_to_one() {
    assert_eq!(next_seq(0), 1);
    assert_eq!(next_seq(41), 42);
    assert_eq!(next_seq(u32::MAX - 1), u32::MAX);
    assert_eq!(next_seq(u32::MAX), 1);
}

#[test]
fn constants_match_the_kernel_abi() {
    assert_eq!(NLMSG_NOOP as i32, libc::NLMSG_NOOP);
    assert_eq!(NLMSG_ERROR as i32, libc::NLMSG_ERROR);
    assert_eq!(NLMSG_DONE as i32, libc::NLMSG_DONE);
    assert_eq!(NLMSG_OVERRUN as i32, libc::NLMSG_OVERRUN);
    assert_eq!(NLM_F_REQUEST as i32, libc::NLM_F_REQUEST);
    assert_eq!(NLM_F_MULTI as i32, libc::NLM_F_MULTI);
    assert_eq!(NLM_F_DUMP as i32, libc::NLM_F_DUMP);
    assert_eq!(RTM_NEWADDR, libc::RTM_NEWADDR);
    assert_eq!(RTM_DELADDR, libc::RTM_DELADDR);
    assert_eq!(RTM_GETADDR, libc::RTM_GETADDR);
    assert_eq!(RTM_NEWROUTE, libc::RTM_NEWROUTE);
    assert_eq!(RTM_DELROUTE, libc::RTM_DELROUTE);
    assert_eq!(RTM_GETROUTE, libc::RTM_GETROUTE);
    assert_eq!(RTA_DST, libc::RTA_DST);
    assert_eq!(RTA_SRC, libc::RTA_SRC);
    assert_eq!(IFA_ADDRESS, libc::IFA_ADDRESS);
    assert_eq!(AF_UNSPEC as i32, libc::AF_UNSPEC);
    assert_eq!(AF_INET as i32, libc::AF_INET);
    assert_eq!(AF_INET6 as i32, libc::AF_INET6);
    assert_eq!(AF_NETLINK as i32, libc::AF_NETLINK);
    assert_eq!(RT_TABLE_LOCAL, libc::RT_TABLE_LOCAL);
    assert_eq!(RT_SCOPE_HOST, libc::RT_SCOPE_HOST);
    assert_eq!(RTN_LOCAL, libc::RTN_LOCAL);
    assert_eq!(RTPROT_UNSPEC, libc::RTPROT_UNSPEC);
    assert_eq!(RTM_F_NOTIFY, libc::RTM_F_NOTIFY);
    assert_eq!(ENOBUFS, libc::ENOBUFS);
    assert_eq!(MSG_TRUNC, libc::MSG_TRUNC);
    assert_eq!(MSG_CTRUNC, libc::MSG_CTRUNC);
    assert_eq!(SOL_SOCKET, libc::SOL_SOCKET);
    assert_eq!(SCM_CREDENTIALS, libc::SCM_CREDENTIALS);
    assert_eq!(std::mem::size_of::<libc::sockaddr_nl>(), 12);
    assert_eq!(std::mem::size_of::<libc::ucred>(), 12);
    assert_eq!(std::mem::size_of::<libc::nlmsghdr>(), 16);
}

#[test]
fn dump_request_bytes() {
    let r = dump_request(RTM_GETADDR, 0x01020304, 0);
    assert_eq!(
        r,
        vec![
            28, 0, 0, 0, 22, 0, 0x03, 0x03, 4, 3, 2, 1, 0, 0, 0, 0, 0, 0, 0, 0, 255, 0, 254, 2, 0,
            1, 0, 0
        ]
    );
    assert_eq!(DUMP_REQUEST_FLAGS, 0x303);
}

#[test]
fn dump_request_reads_back() {
    let r = dump_request(RTM_GETROUTE, 9, 77);
    let mut it = NetlinkIterator::new(&r);
    let (h, mut body) = it.next().unwrap();
    assert_eq!(h.nlmsg_len, 28);
    assert_eq!(h.nlmsg_type, RTM_GETROUTE);
    assert_eq!(h.nlmsg_flags, DUMP_REQUEST_FLAGS);
    assert_eq!(h.nlmsg_seq, 9);
    assert_eq!(h.nlmsg_pid, 77);
    let (m, mut attrs) = read_rtmsg(&mut body).unwrap();
    assert_eq!(m.rtm_family, AF_UNSPEC);
    assert_eq!(m.rtm_table, RT_TABLE_LOCAL);
    assert_eq!(m.rtm_protocol, RTPROT_UNSPEC);
    assert_eq!(m.rtm_scope, RT_SCOPE_HOST);
    assert_eq!(m.rtm_type, RTN_LOCAL);
    assert_eq!(m.rtm_flags, RTM_F_NOTIFY);
    assert!(attrs.next().is_none());
    assert!(it.next().is_none());
}

fn kernel_datagram(len: isize) -> RecvInfo {
    RecvInfo {
        status: len,
        errno: 0,
        name_len: 12,
        family: AF_NETLINK,
        pid: 0,
        control_len: cmsg_space(12),
        flags: 0,
        control: Some(ControlMessage {
            len: cmsg_len(12),
            level: SOL_SOCKET,
            kind: SCM_CREDENTIALS,
            creds: Credentials { pid: 0, uid: 0, gid: 0 },
        }),
    }
}

#[test]
fn well_formed_kernel_datagrams_are_data() {
    assert_eq!(classify_datagram(&kernel_datagram(96)), RecvOutcome::Data(96));
}

#[test]
fn failed_receives() {
    let mut info = kernel_datagram(-1);
    info.errno = ENOBUFS;
    assert_eq!(classify_datagram(&info), RecvOutcome::Desync);
    info.errno = 11;
    assert_eq!(classify_datagram(&info), RecvOutcome::Io(11));
}

#[test]
fn malformed_datagrams_are_desyncs() {
    let mut info = kernel_datagram(40);
    info.flags = MSG_CTRUNC;
    assert_eq!(classify_datagram(&info), RecvOutcome::Desync);
    let mut info = kernel_datagram(40);
    info.name_len = 8;
    assert_eq!(classify_datagram(&info), RecvOutcome::Desync);
    let mut info = kernel_datagram(40);
    info.family = 2;
    assert_eq!(classify_datagram(&info), RecvOutcome::Desync);
    let mut info = kernel_datagram(40);
    info.control = None;
    assert_eq!(classify_datagram(&info), RecvOutcome::Desync);
    let mut info = kernel_datagram(40);
    info.control_len = 0;
    assert_eq!(classify_datagram(&info), RecvOutcome::Desync);
    let mut info = kernel_datagram(40);
    if let Some(c) = info.control.as_mut() {
        c.creds.uid = 1000;
    }
    assert_eq!(classify_datagram(&info), RecvOutcome::Desync);
    let mut info = kernel_datagram(40);
    if let Some(c) = info.control.as_mut() {
        c.kind = 1;
    }
    assert_eq!(classify_datagram(&info), RecvOutcome::Desync);
}

#[test]
fn datagrams_from_other_ports_are_skipped() {
    let mut info = kernel_datagram(40);
    info.pid = 4242;
    assert_eq!(classify_datagram(&info), RecvOutcome::Skip);
}

#[test]
fn control_message_sizes() {
    let word = std::mem::size_of::<usize>();
    assert_eq!(cmsg_align(0), 0);
    assert_eq!(cmsg_align(1), word);
    assert_eq!(cmsg_align(word), word);
    assert_eq!(cmsg_len(12), if word == 8 { 28 } else { 24 });
    assert_eq!(cmsg_space(12), if word == 8 { 32 } else { 24 });
}

#[test]
fn netmask_prefix_lengths() {
    assert_eq!(netmask_prefix_len(0xffff_ff00, 32), 24);
    assert_eq!(netmask_prefix_len(0, 32), 0);
    assert_eq!(netmask_prefix_len(0xffff_ffff, 32), 32);
    assert_eq!(netmask_prefix_len(0xff00_ff00, 32), 8);
    assert_eq!(netmask_prefix_len(u128::MAX, 128), 128);
    assert_eq!(netmask_prefix_len(u128::MAX << 64, 128), 64);
}

#[test]
fn interface_addresses_become_networks() {
    let n = ifaddr_to_ipnet(IfAddr::V4(Ifv4Addr { ip: 0xc0a8_0105, netmask: 0xffff_ff00 }));
    assert_eq!(n, IpNet::V4(Ipv4Net::new(0xc0a8_0105, 24).unwrap()));
    let n = ifaddr_to_ipnet(IfAddr::V6(Ifv6Addr { ip: 1, netmask: u128::MAX }));
    assert_eq!(n, IpNet::V6(Ipv6Net::new(1, 128).unwrap()));
    assert_eq!(n.prefix_len(), 128);
}

#[test]
fn prefix_lengths_are_bounded() {
    assert!(Ipv4Net::new(1, 33).is_none());
    assert_eq!(Ipv4Net::new(1, 32).unwrap().prefix_len(), 32);
    assert!(Ipv6Net::new(1, 129).is_none());
    assert_eq!(Ipv6Net::new(7, 64).unwrap().addr(), 7);
}
