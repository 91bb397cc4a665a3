use net_route::route::default_route_of;
use net_route::{IpAddr, Route};

#[test]
fn it_calculates_v4_netmask() {
    let mut route = Route::new(IpAddr::v4(10, 10, 0, 0), 32);

    assert_eq!(route.mask(), IpAddr::v4(255, 255, 255, 255));

    route.prefix = 29;
    assert_eq!(route.mask(), IpAddr::v4(255, 255, 255, 248));

    route.prefix = 25;
    assert_eq!(route.mask(), IpAddr::v4(255, 255, 255, 128));

    route.prefix = 2;
    assert_eq!(route.mask(), IpAddr::v4(192, 0, 0, 0));
}

#[test]
fn it_calculates_v6_netmask() {
    let route = Route::new(
        IpAddr::v6(0x77ca, 0x838b, 0x9ec0, 0xfc97, 0xeedc, 0x236a, 0x9d41, 0x31e5),
        32,
    );
    assert_eq!(route.mask(), IpAddr::v6(0xffff, 0xffff, 0, 0, 0, 0, 0, 0));
}

#[test]
fn netmask_of_prefix_zero_is_all_zeros() {
    assert_eq!(Route::new(IpAddr::v4(10, 0, 0, 0), 0).mask(), IpAddr::v4(0, 0, 0, 0));
    assert_eq!(Route::new(IpAddr::v6(0x2001, 0xdb8, 0, 0, 0, 0, 0, 0), 0).mask(), IpAddr::V6(0));
}

#[test]
fn netmask_of_full_v6_prefix_is_all_ones() {
    let r = Route::new(IpAddr::v6(0x2001, 0xdb8, 0, 0, 0, 0, 0, 1), 128);
    assert_eq!(r.mask(), IpAddr::V6(u128::MAX));
    let r = Route::new(IpAddr::v6(0x2001, 0xdb8, 0, 0, 0, 0, 0, 1), 65);
    assert_eq!(r.mask(), IpAddr::v6(0xffff, 0xffff, 0xffff, 0xffff, 0x8000, 0, 0, 0));
}

#[test]
fn netmask_has_exactly_prefix_leading_ones() {
    for p in 0u8..=32 {
        let m = match Route::new(IpAddr::v4(1, 2, 3, 4), p).mask() {
            IpAddr::V4(v) => v,
            IpAddr::V6(_) => panic!("family changed"),
        };
        assert_eq!(m.leading_ones(), p as u32);
        assert_eq!(m.count_ones(), p as u32);
    }
    for p in 0u8..=128 {
        let m = match Route::new(IpAddr::V6(7), p).mask() {
            IpAddr::V6(v) => v,
            IpAddr::V4(_) => panic!("family changed"),
        };
        assert_eq!(m.leading_ones(), p as u32);
        assert_eq!(m.count_ones(), p as u32);
    }
}

#[test]
fn builder_keeps_fields_and_defaults_the_rest() {
    let d = IpAddr::v4(10, 14, 0, 0);
    let g = IpAddr::v4(192, 1, 2, 1);
    let r = Route::new(d, 24).with_gateway(g).with_ifindex(9);
    assert_eq!(r.destination, d);
    assert_eq!(r.prefix, 24);
    assert_eq!(r.gateway, Some(g));
    assert_eq!(r.ifindex, Some(9));
    assert_eq!(r.table, 254);
    assert_eq!(r.metric, None);
    assert_eq!(r.luid, None);
    assert_eq!(r.source, None);
    assert_eq!(r.source_hint, None);
}

#[test]
fn builder_sets_platform_fields() {
    let r = Route::new(IpAddr::V6(1), 128).with_table(100).with_metric(5).with_luid(77);
    assert_eq!(r.table, 100);
    assert_eq!(r.metric, Some(5));
    assert_eq!(r.luid, Some(77));
}

#[test]
fn default_route_is_first_default_in_dump_order() {
    let other = Route::new(IpAddr::v4(10, 0, 0, 0), 8).with_gateway(IpAddr::v4(10, 0, 0, 1));
    let unspec_gw = Route::new(IpAddr::v4(0, 0, 0, 0), 0).with_gateway(IpAddr::v4(0, 0, 0, 0));
    let d4 = Route::new(IpAddr::v4(0, 0, 0, 0), 0).with_gateway(IpAddr::v4(192, 168, 1, 1));
    let d6 = Route::new(IpAddr::V6(0), 0).with_gateway(IpAddr::v6(0xfe80, 0, 0, 0, 0, 0, 0, 1));
    let list = vec![other, unspec_gw, d4, d6];
    let d = default_route_of(&list).unwrap();
    assert_eq!(d, d4);
    assert!(list.contains(&d));
    assert!(d.destination.is_unspecified() && d.prefix == 0);
    assert!(!d.gateway.unwrap().is_unspecified());
    assert_eq!(default_route_of(&vec![other, unspec_gw]), None);
}

#[test]
fn default_route_without_gateway_does_not_qualify() {
    let r = Route::new(IpAddr::V6(0), 0).with_ifindex(3);
    assert!(!r.is_default_route());
    assert!(Route::new(IpAddr::V6(0), 0).with_gateway(IpAddr::V6(1)).is_default_route());
    assert!(!Route::new(IpAddr::V6(0), 1).with_gateway(IpAddr::V6(1)).is_default_route());
    assert_eq!(default_route_of(&vec![Route::new(IpAddr::v4(0, 0, 0, 0), 0)]), None);
}
