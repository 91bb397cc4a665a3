use net_route::bsd::{
    align, check_reply, code_to_error, message_to_change, message_to_route, parse_header,
    parse_route_dump, retry_dump, route_request, HDR_LEN,
};
use net_route::{ErrorKind, IpAddr, Reason, Route, RouteChange, RouteError};

fn header(msglen: usize, ty: u8, flags: u32, addrs: u32, index: u16, errno: i32) -> Vec<u8> {
    let mut h = vec![0u8; 92];
    h[0..2].copy_from_slice(&(msglen as u16).to_le_bytes());
    h[2] = 5;
    h[3] = ty;
    h[4..6].copy_from_slice(&index.to_le_bytes());
    h[8..12].copy_from_slice(&flags.to_le_bytes());
    h[12..16].copy_from_slice(&addrs.to_le_bytes());
    h[20..24].copy_from_slice(&1i32.to_le_bytes());
    h[24..28].copy_from_slice(&errno.to_le_bytes());
    h
}

fn sa_in(o: [u8; 4]) -> Vec<u8> {
    let mut v = vec![16, 2, 0, 0];
    v.extend_from_slice(&o);
    v.extend_from_slice(&[0; 8]);
    v
}

fn sa_in6(o: [u8; 16]) -> Vec<u8> {
    let mut v = vec![28, 30, 0, 0, 0, 0, 0, 0];
    v.extend_from_slice(&o);
    v.extend_from_slice(&[0; 4]);
    v
}

fn record(ty: u8, flags: u32, addrs: u32, index: u16, parts: &[Vec<u8>]) -> Vec<u8> {
    let mut body = Vec::new();
    for p in parts {
        body.extend_from_slice(p);
        while body.len() % 4 != 0 {
            body.push(0);
        }
    }
    let mut m = header(92 + body.len(), ty, flags, addrs, index, 0);
    m.extend_from_slice(&body);
    m
}

fn decode(m: &[u8]) -> Option<Route> {
    let h = parse_header(m, 0);
    message_to_route(&h, &m[HDR_LEN..])
}

#[test]
fn align_rounds_up_to_four() {
    assert_eq!(align(0), 0);
    assert_eq!(align(1), 4);
    assert_eq!(align(4), 4);
    assert_eq!(align(5), 8);
    assert_eq!(align(28), 28);
    assert_eq!(align(29), 32);
}

#[test]
fn errno_codes_map_to_kinds() {
    assert_eq!(code_to_error(17).kind, ErrorKind::AlreadyExists);
    assert_eq!(code_to_error(3).kind, ErrorKind::NotFound);
    assert_eq!(code_to_error(55).kind, ErrorKind::OutOfMemory);
    assert_eq!(code_to_error(22), RouteError::new(ErrorKind::Other, Reason::Errno(22)));
}

#[test]
fn header_fields_are_read_in_host_order() {
    let h = parse_header(&header(200, 1, 0x803, 7, 9, 17), 0);
    assert_eq!(h.msglen, 200);
    assert_eq!(h.version, 5);
    assert_eq!(h.msg_type, 1);
    assert_eq!(h.index, 9);
    assert_eq!(h.flags, 0x803);
    assert_eq!(h.addrs, 7);
    assert_eq!(h.seq, 1);
    assert_eq!(h.errno, 17);
}

#[test]
fn add_request_bytes_for_gateway_and_interface() {
    let route = Route::new(IpAddr::v4(10, 14, 0, 0), 24)
        .with_gateway(IpAddr::v4(192, 1, 2, 1))
        .with_ifindex(9);
    let m = route_request(&route, true).unwrap();
    assert_eq!(m.len(), 92 + 16 + 16 + 20 + 16);
    let h = parse_header(&m, 0);
    assert_eq!(h.msglen as usize, m.len());
    assert_eq!(h.version, 5);
    assert_eq!(h.msg_type, 1);
    assert_eq!(h.flags, 0x800 | 0x1 | 0x2);
    assert_eq!(h.addrs, 0x7);
    assert_eq!(h.seq, 1);
    assert_eq!(h.errno, 0);
    assert_eq!(&m[92..108], &sa_in([10, 14, 0, 0])[..]);
    assert_eq!(&m[108..124], &sa_in([192, 1, 2, 1])[..]);
    assert_eq!(&m[124..144], &[20, 18, 9, 0, 0, 0, 0, 0, 0, 0, 0, 0, 0, 0, 0, 0, 0, 0, 0, 0][..]);
    assert_eq!(&m[144..160], &sa_in([255, 255, 255, 0])[..]);
}

#[test]
fn add_request_decodes_back_to_route() {
    let route = Route::new(IpAddr::v4(192, 168, 2, 0), 26).with_gateway(IpAddr::v4(192, 168, 2, 1));
    let m = route_request(&route, true).unwrap();
    let back = decode(&m).unwrap();
    assert_eq!(back.destination, route.destination);
    assert_eq!(back.prefix, 26);
    assert_eq!(back.gateway, route.gateway);
}

#[test]
fn add_request_v6_without_gateway_uses_interface_slot() {
    let route = Route::new(IpAddr::v6(0x2001, 0xdb8, 0, 0, 0, 0, 0, 0), 48).with_ifindex(4);
    let m = route_request(&route, true).unwrap();
    assert_eq!(m.len(), 92 + 28 + 20 + 28);
    let h = parse_header(&m, 0);
    assert_eq!(h.flags, 0x801);
    let back = decode(&m).unwrap();
    assert_eq!(back.prefix, 48);
    assert_eq!(back.gateway, None);
    assert_eq!(back.destination, route.destination);
}

#[test]
fn delete_request_names_destination_and_mask_only() {
    let route = Route::new(IpAddr::v4(198, 51, 100, 0), 24).with_gateway(IpAddr::v4(198, 51, 100, 1));
    let m = route_request(&route, false).unwrap();
    assert_eq!(m.len(), 92 + 16 + 16);
    let h = parse_header(&m, 0);
    assert_eq!(h.msg_type, 2);
    assert_eq!(h.flags, 0x803);
    assert_eq!(h.addrs, 0x5);
    assert_eq!(&m[108..124], &sa_in([255, 255, 255, 0])[..]);
}

#[test]
fn add_with_v6_gateway_for_v4_destination_is_invalid_input() {
    let route = Route::new(IpAddr::v4(10, 0, 0, 0), 8).with_gateway(IpAddr::V6(1));
    assert_eq!(
        route_request(&route, true),
        Err(RouteError::new(ErrorKind::InvalidInput, Reason::GatewayFamily))
    );
}

#[test]
fn add_without_next_hop_is_invalid_input() {
    let route = Route::new(IpAddr::v4(10, 0, 0, 0), 8);
    assert_eq!(
        route_request(&route, true),
        Err(RouteError::new(ErrorKind::InvalidInput, Reason::NoNextHop))
    );
    assert!(route_request(&route, false).is_ok());
}

#[test]
fn overlong_prefix_is_invalid_input() {
    let route = Route::new(IpAddr::v4(10, 0, 0, 0), 33).with_ifindex(1);
    assert_eq!(
        route_request(&route, true),
        Err(RouteError::new(ErrorKind::InvalidInput, Reason::PrefixTooLong))
    );
}

#[test]
fn reply_errno_becomes_typed_error() {
    assert_eq!(check_reply(&header(92, 1, 0, 7, 0, 0)), Ok(()));
    assert_eq!(check_reply(&header(92, 1, 0, 7, 0, 17)).unwrap_err().kind, ErrorKind::AlreadyExists);
    assert_eq!(check_reply(&header(92, 2, 0, 5, 0, 3)).unwrap_err().kind, ErrorKind::NotFound);
    assert_eq!(
        check_reply(&[5u8; 40]),
        Err(RouteError::new(ErrorKind::Other, Reason::ShortReply))
    );
    let mut h = header(92, 1, 0, 7, 0, 0);
    h[2] = 4;
    assert_eq!(check_reply(&h), Err(RouteError::new(ErrorKind::Other, Reason::VersionMismatch)));
}

#[test]
fn decode_host_route_without_netmask() {
    let m = record(1, 0, 0x3, 4, &[sa_in([10, 0, 0, 5]), sa_in([10, 0, 0, 1])]);
    let r = decode(&m).unwrap();
    assert_eq!(r.destination, IpAddr::v4(10, 0, 0, 5));
    assert_eq!(r.prefix, 32);
    assert_eq!(r.gateway, Some(IpAddr::v4(10, 0, 0, 1)));
    assert_eq!(r.ifindex, Some(4));
}

#[test]
fn zero_length_netmask_means_prefix_zero() {
    let m = record(1, 0, 0x7, 1, &[sa_in([0, 0, 0, 0]), sa_in([192, 168, 1, 1]), vec![0]]);
    let r = decode(&m).unwrap();
    assert_eq!(r.prefix, 0);
    assert!(r.is_default_route());
}

#[test]
fn truncated_netmask_reads_missing_bytes_as_zero() {
    let m = record(1, 0, 0x7, 1, &[sa_in([10, 0, 0, 0]), sa_in([10, 0, 0, 1]), vec![5, 0, 0, 0, 255]]);
    assert_eq!(decode(&m).unwrap().prefix, 8);
}

#[test]
fn v6_netmask_prefix() {
    let mut mask = [0u8; 16];
    mask[..8].copy_from_slice(&[0xff; 8]);
    let m = record(1, 0, 0x5, 2, &[sa_in6([0x20, 0x01, 0x0d, 0xb8, 0, 0, 0, 0, 0, 0, 0, 0, 0, 0, 0, 0]), sa_in6(mask)]);
    let r = decode(&m).unwrap();
    assert_eq!(r.prefix, 64);
    assert_eq!(r.gateway, None);
}

#[test]
fn link_local_gateway_zone_is_cleared() {
    let mut gw = [0u8; 16];
    gw[0] = 0xfe;
    gw[1] = 0x80;
    gw[2] = 0x00;
    gw[3] = 0x04;
    gw[15] = 1;
    let m = record(1, 0, 0x3, 4, &[sa_in6([0; 16]), sa_in6(gw)]);
    let r = decode(&m).unwrap();
    assert_eq!(r.gateway, Some(IpAddr::v6(0xfe80, 0, 0, 0, 0, 0, 0, 1)));
}

#[test]
fn whole_link_local_prefix_has_zone_cleared() {
    let mut gw = [0u8; 16];
    gw[0] = 0xfe;
    gw[1] = 0xb0;
    gw[3] = 0x02;
    gw[15] = 9;
    let r = decode(&record(1, 0, 0x3, 4, &[sa_in6([0; 16]), sa_in6(gw)])).unwrap();
    assert_eq!(r.gateway, Some(IpAddr::v6(0xfeb0, 0, 0, 0, 0, 0, 0, 9)));
    gw[1] = 0xc0;
    let r = decode(&record(1, 0, 0x3, 4, &[sa_in6([0; 16]), sa_in6(gw)])).unwrap();
    assert_eq!(r.gateway, Some(IpAddr::v6(0xfec0, 0x0002, 0, 0, 0, 0, 0, 9)));
}

#[test]
fn multicast_gateway_zone_depends_on_scope() {
    let mut gw = [0u8; 16];
    gw[0] = 0xff;
    gw[1] = 0x02;
    gw[3] = 0x07;
    gw[15] = 1;
    let r = decode(&record(1, 0, 0x3, 4, &[sa_in6([0; 16]), sa_in6(gw)])).unwrap();
    assert_eq!(r.gateway, Some(IpAddr::v6(0xff02, 0, 0, 0, 0, 0, 0, 1)));
    gw[1] = 0x05;
    let r = decode(&record(1, 0, 0x3, 4, &[sa_in6([0; 16]), sa_in6(gw)])).unwrap();
    assert_eq!(r.gateway, Some(IpAddr::v6(0xff05, 0x0007, 0, 0, 0, 0, 0, 1)));
}

#[test]
fn link_gateway_gives_no_gateway_address() {
    let dl = vec![20, 18, 7, 0, 0, 0, 0, 0, 0, 0, 0, 0, 0, 0, 0, 0, 0, 0, 0, 0];
    let r = decode(&record(1, 0, 0x3, 7, &[sa_in([10, 1, 0, 0]), dl])).unwrap();
    assert_eq!(r.gateway, None);
    assert_eq!(r.ifindex, Some(7));
}

#[test]
fn message_without_destination_gives_no_route() {
    assert_eq!(decode(&record(1, 0, 0x2, 1, &[sa_in([10, 0, 0, 1])])), None);
}

#[test]
fn dump_skips_cloned_entries_and_keeps_order() {
    let mut dump = record(4, 0x1, 0x5, 1, &[sa_in([10, 0, 0, 0]), sa_in([255, 0, 0, 0])]);
    dump.extend(record(4, 0x20000, 0x1, 1, &[sa_in([10, 0, 0, 7])]));
    dump.extend(record(4, 0x3, 0x7, 2, &[sa_in([0, 0, 0, 0]), sa_in([192, 168, 1, 1]), vec![0]]));
    dump.extend_from_slice(&[0u8; 10]);
    let routes = parse_route_dump(&dump).unwrap();
    assert_eq!(routes.len(), 2);
    assert_eq!(routes[0].destination, IpAddr::v4(10, 0, 0, 0));
    assert_eq!(routes[0].prefix, 8);
    assert_eq!(routes[1].gateway, Some(IpAddr::v4(192, 168, 1, 1)));
    assert_eq!(routes[1].ifindex, Some(2));
}

#[test]
fn dump_errors() {
    let mut bad_version = record(4, 0, 0x1, 1, &[sa_in([10, 0, 0, 0])]);
    bad_version[2] = 3;
    assert_eq!(
        parse_route_dump(&bad_version),
        Err(RouteError::new(ErrorKind::Other, Reason::VersionMismatch))
    );
    let with_errno = header(92, 4, 0, 0, 0, 55);
    assert_eq!(parse_route_dump(&with_errno).unwrap_err().kind, ErrorKind::OutOfMemory);
    let short_len = header(10, 4, 0, 0, 0, 0);
    assert_eq!(
        parse_route_dump(&short_len),
        Err(RouteError::new(ErrorKind::Other, Reason::Malformed))
    );
    let past_end = header(400, 4, 0, 0, 0, 0);
    assert_eq!(parse_route_dump(&past_end).unwrap_err().reason, Reason::Malformed);
    assert_eq!(parse_route_dump(&[]), Ok(vec![]));
}

#[test]
fn socket_messages_become_changes() {
    let parts = [sa_in([203, 0, 113, 0]), sa_in([192, 0, 2, 1]), sa_in([255, 255, 255, 0])];
    let add = record(1, 0x803, 0x7, 3, &parts);
    let route = match message_to_change(&add) {
        Some(RouteChange::Add(r)) => r,
        other => panic!("unexpected {:?}", other),
    };
    assert_eq!(route.destination, IpAddr::v4(203, 0, 113, 0));
    assert_eq!(route.prefix, 24);
    assert_eq!(route.gateway, Some(IpAddr::v4(192, 0, 2, 1)));
    assert_eq!(message_to_change(&record(2, 0x803, 0x7, 3, &parts)), Some(RouteChange::Delete(route)));
    assert_eq!(message_to_change(&record(3, 0x803, 0x7, 3, &parts)), Some(RouteChange::Change(route)));
    assert_eq!(message_to_change(&record(4, 0x803, 0x7, 3, &parts)), None);
    assert_eq!(message_to_change(&add[..60]), None);
}

#[test]
fn dump_is_attempted_three_times() {
    assert!(retry_dump(0));
    assert!(retry_dump(2));
    assert!(!retry_dump(3));
}

#[test]
fn delete_request_decodes_back_as_delete() {
    let route = Route::new(IpAddr::v6(0x2001, 0xdb8, 0, 0, 0, 0, 0, 0), 32).with_gateway(IpAddr::V6(1));
    let m = route_request(&route, false).unwrap();
    match message_to_change(&m) {
        Some(RouteChange::Delete(r)) => {
            assert_eq!(r.destination, route.destination);
            assert_eq!(r.prefix, 32);
            assert_eq!(r.gateway, None);
        }
        other => panic!("unexpected {:?}", other),
    }
}

#[test]
fn duplicate_add_reports_already_exists() {
    let route = Route::new(IpAddr::v4(192, 168, 2, 0), 26).with_gateway(IpAddr::v4(192, 168, 2, 1));
    let m = route_request(&route, true).unwrap();
    let mut reply = m.clone();
    assert_eq!(check_reply(&reply), Ok(()));
    reply[24..28].copy_from_slice(&17i32.to_le_bytes());
    assert_eq!(
        check_reply(&reply),
        Err(RouteError::new(ErrorKind::AlreadyExists, Reason::Errno(17)))
    );
}

#[test]
fn deleting_absent_route_reports_not_found() {
    let route = Route::new(IpAddr::v4(198, 51, 100, 0), 24);
    let mut reply = route_request(&route, false).unwrap();
    reply[24..28].copy_from_slice(&3i32.to_le_bytes());
    assert_eq!(check_reply(&reply), Err(RouteError::new(ErrorKind::NotFound, Reason::Errno(3))));
}
