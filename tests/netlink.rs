use net_route::netlink::{
    add_request, code_to_error, default_route_of_messages, destination_prefix, find_route_to_delete,
    route_from_message, routes_from_messages, AddRequest, Family, NetlinkRoute, RouteAttr,
};
use net_route::{ErrorKind, IpAddr, Reason, Route, RouteError};

fn msg(family: Family, dst_len: u8, attributes: Vec<RouteAttr>) -> NetlinkRoute {
    NetlinkRoute {
        family,
        destination_prefix_length: dst_len,
        source_prefix_length: 0,
        table: 254,
        attributes,
    }
}

#[test]
fn message_decodes_to_route() {
    let m = msg(
        Family::Inet,
        24,
        vec![
            RouteAttr::Destination(Some(IpAddr::v4(10, 14, 0, 0))),
            RouteAttr::Other,
            RouteAttr::Gateway(Some(IpAddr::v4(192, 1, 2, 1))),
            RouteAttr::Oif(9),
            RouteAttr::PrefSource(Some(IpAddr::v4(10, 14, 0, 2))),
        ],
    );
    let r = route_from_message(&m).unwrap();
    assert_eq!(r.destination, IpAddr::v4(10, 14, 0, 0));
    assert_eq!(r.prefix, 24);
    assert_eq!(r.gateway, Some(IpAddr::v4(192, 1, 2, 1)));
    assert_eq!(r.ifindex, Some(9));
    assert_eq!(r.table, 254);
    assert_eq!(r.source_hint, Some(IpAddr::v4(10, 14, 0, 2)));
    assert_eq!(r.source, None);
}

#[test]
fn missing_destination_is_unspecified_of_family() {
    let r = route_from_message(&msg(Family::Inet6, 0, vec![RouteAttr::Oif(2)])).unwrap();
    assert_eq!(r.destination, IpAddr::V6(0));
    let r = route_from_message(&msg(Family::Inet, 0, vec![])).unwrap();
    assert_eq!(r.destination, IpAddr::V4(0));
    assert_eq!(route_from_message(&msg(Family::Other, 0, vec![])), None);
}

#[test]
fn later_attribute_replaces_earlier() {
    let m = msg(Family::Inet, 32, vec![RouteAttr::Oif(1), RouteAttr::Oif(5)]);
    assert_eq!(route_from_message(&m).unwrap().ifindex, Some(5));
}

#[test]
fn destination_prefix_takes_first_address() {
    let m = msg(
        Family::Inet,
        16,
        vec![RouteAttr::Destination(None), RouteAttr::Destination(Some(IpAddr::v4(10, 1, 0, 0)))],
    );
    assert_eq!(destination_prefix(&m), Some((IpAddr::v4(10, 1, 0, 0), 16)));
    assert_eq!(destination_prefix(&msg(Family::Inet, 0, vec![])), None);
}

#[test]
fn default_route_prefers_first_message_without_destination() {
    let msgs = vec![
        msg(Family::Inet, 8, vec![RouteAttr::Destination(Some(IpAddr::v4(10, 0, 0, 0)))]),
        msg(Family::Inet, 0, vec![RouteAttr::Gateway(Some(IpAddr::v4(192, 168, 1, 1))), RouteAttr::Oif(2)]),
        msg(Family::Inet6, 0, vec![RouteAttr::Gateway(Some(IpAddr::v6(0xfe80, 0, 0, 0, 0, 0, 0, 1)))]),
    ];
    let d = default_route_of_messages(&msgs).unwrap();
    assert_eq!(d.gateway, Some(IpAddr::v4(192, 168, 1, 1)));
    assert!(routes_from_messages(&msgs).contains(&d));
    let v6_only = vec![msgs[0].clone(), msgs[2].clone()];
    assert_eq!(default_route_of_messages(&v6_only).unwrap().destination, IpAddr::V6(0));
    assert_eq!(default_route_of_messages(&vec![msgs[0].clone()]), None);
}

#[test]
fn list_decodes_every_message_in_order() {
    let msgs = vec![
        msg(Family::Inet, 8, vec![RouteAttr::Destination(Some(IpAddr::v4(10, 0, 0, 0)))]),
        msg(Family::Other, 0, vec![]),
        msg(Family::Inet6, 64, vec![RouteAttr::Destination(Some(IpAddr::V6(9)))]),
    ];
    let routes = routes_from_messages(&msgs);
    assert_eq!(routes.len(), 2);
    assert_eq!(routes[0].prefix, 8);
    assert_eq!(routes[1].destination, IpAddr::V6(9));
}

#[test]
fn add_request_carries_route_fields() {
    let route = Route::new(IpAddr::v4(10, 14, 0, 0), 24)
        .with_gateway(IpAddr::v4(192, 1, 2, 1))
        .with_ifindex(9)
        .with_table(100);
    assert_eq!(
        add_request(&route),
        Ok(AddRequest {
            table: 100,
            destination: IpAddr::v4(10, 14, 0, 0),
            prefix: 24,
            output_interface: Some(9),
            gateway: Some(IpAddr::v4(192, 1, 2, 1)),
            pref_source: None,
            source: None,
            source_prefix: 0,
        })
    );
}

#[test]
fn add_request_family_mismatches() {
    let base = Route::new(IpAddr::v4(10, 0, 0, 0), 8).with_ifindex(1);
    let e = |reason| Err(RouteError::new(ErrorKind::InvalidInput, reason));
    assert_eq!(add_request(&base.with_gateway(IpAddr::V6(1))), e(Reason::GatewayFamily));
    let mut r = base;
    r.source_hint = Some(IpAddr::V6(1));
    assert_eq!(add_request(&r), e(Reason::SourceHintFamily));
    let mut r = base;
    r.source = Some(IpAddr::V6(1));
    assert_eq!(add_request(&r), e(Reason::SourceFamily));
    assert_eq!(add_request(&Route::new(IpAddr::V6(0), 0)), e(Reason::NoNextHop));
    assert_eq!(add_request(&Route::new(IpAddr::V6(0), 129).with_ifindex(1)), e(Reason::PrefixTooLong));
}

#[test]
fn delete_finds_first_match_or_not_found() {
    let msgs = vec![
        msg(Family::Inet, 24, vec![RouteAttr::Destination(Some(IpAddr::v4(10, 14, 0, 0)))]),
        msg(Family::Inet, 24, vec![RouteAttr::Destination(Some(IpAddr::v4(10, 14, 1, 0))), RouteAttr::Oif(3)]),
        msg(Family::Inet, 24, vec![RouteAttr::Destination(Some(IpAddr::v4(10, 14, 1, 0))), RouteAttr::Oif(4)]),
    ];
    let target = Route::new(IpAddr::v4(10, 14, 1, 0), 24).with_ifindex(4);
    assert_eq!(find_route_to_delete(&msgs, &target), Ok(1));
    let absent = Route::new(IpAddr::v4(198, 51, 100, 0), 24);
    assert_eq!(
        find_route_to_delete(&msgs, &absent),
        Err(RouteError::new(ErrorKind::NotFound, Reason::NoMatchingRoute))
    );
}

#[test]
fn added_route_is_listed_then_gone_after_delete() {
    let route = Route::new(IpAddr::v4(10, 14, 0, 0), 24)
        .with_gateway(IpAddr::v4(192, 1, 2, 1))
        .with_ifindex(9);
    let req = add_request(&route).unwrap();
    let installed = msg(
        Family::Inet,
        req.prefix,
        vec![
            RouteAttr::Destination(Some(req.destination)),
            RouteAttr::Gateway(req.gateway),
            RouteAttr::Oif(req.output_interface.unwrap()),
        ],
    );
    let other = msg(Family::Inet, 8, vec![RouteAttr::Destination(Some(IpAddr::v4(10, 0, 0, 0)))]);
    let dump = vec![other.clone(), installed];
    let listed = routes_from_messages(&dump);
    assert!(listed.iter().any(|r| r.destination == route.destination
        && r.prefix == 24
        && r.gateway == route.gateway
        && r.ifindex == Some(9)));
    assert_eq!(find_route_to_delete(&dump, &route), Ok(1));
    let after = vec![other];
    assert!(!routes_from_messages(&after).iter().any(|r| r.destination == route.destination));
    assert_eq!(find_route_to_delete(&after, &route).unwrap_err().kind, ErrorKind::NotFound);
}

#[test]
fn default_route_needs_a_gateway() {
    let msgs = vec![
        msg(Family::Inet, 0, vec![RouteAttr::Oif(2)]),
        msg(Family::Inet, 0, vec![RouteAttr::Gateway(Some(IpAddr::v4(0, 0, 0, 0)))]),
    ];
    assert_eq!(default_route_of_messages(&msgs), None);
}

#[test]
fn netlink_error_codes_map_to_kinds() {
    assert_eq!(code_to_error(-17), RouteError::new(ErrorKind::AlreadyExists, Reason::Errno(17)));
    assert_eq!(code_to_error(-3).kind, ErrorKind::NotFound);
    assert_eq!(code_to_error(-105).kind, ErrorKind::OutOfMemory);
    assert_eq!(code_to_error(-1), RouteError::new(ErrorKind::Other, Reason::Errno(1)));
    assert_eq!(code_to_error(i32::MIN).reason, Reason::Errno(i32::MIN));
}
