//! Requests that the routing-socket encoder writes decode, through the
//! same decoder that reads the listener's messages and the dump, to the
//! route they were made for.
use vstd::prelude::*;
use crate::addr::{IpAddr, be32, be128, octets32, octets128};
use crate::bsd::{
    AF_INET, AF_INET6, HDR_LEN, RTAX_DST, RTAX_NETMASK, RTM_ADD, RTM_DELETE, RTM_VERSION,
    RtMsgHeader, cursor, has_addr, header_at, header_bytes, le16, le16_bytes, le32, le32_bytes,
    mask_prefix, message_change, message_route, ones128_from, ones32_from, readable, request_addrs,
    request_attrs, request_bytes, request_error, request_flags, sa_byte, sa_ip, slot,
    sockaddr_dl_bytes, sockaddr_ip_bytes, span, strip_zone,
};
use crate::route::{Route, RouteChange, MAIN_TABLE, bit32, bit128, lemma_netmask_bits, netmask_of};

verus! {

proof fn lemma_le32_at(s: Seq<u8>, off: int, v: u32)
    requires
        0 <= off,
        off + 4 <= s.len(),
        s.subrange(off, off + 4) == le32_bytes(v),
    ensures
        le32(s, off) == v,
{
    let t = s.subrange(off, off + 4);
    assert(s[off] == t[0] && s[off + 1] == t[1] && s[off + 2] == t[2] && s[off + 3] == t[3]);
    assert(((v as u8) as u32) | ((((v >> 8u32) as u8) as u32) << 8u32) | ((((v >> 16u32) as u8)
        as u32) << 16u32) | ((((v >> 24u32) as u8) as u32) << 24u32) == v) by (bit_vector);
}

proof fn lemma_le16_at(s: Seq<u8>, off: int, v: u16)
    requires
        0 <= off,
        off + 2 <= s.len(),
        s.subrange(off, off + 2) == le16_bytes(v),
    ensures
        le16(s, off) == v,
{
    let t = s.subrange(off, off + 2);
    assert(s[off] == t[0] && s[off + 1] == t[1]);
    assert(((v as u8) as u16) | ((((v >> 8u16) as u8) as u16) << 8u16) == v) by (bit_vector);
}

proof fn lemma_be32_octets(v: u32)
    ensures
        be32(octets32(v)) == v,
{
    assert(((((v >> 24u32) as u8) as u32) << 24u32) | ((((v >> 16u32) as u8) as u32) << 16u32) | ((
    ((v >> 8u32) as u8) as u32) << 8u32) | ((v as u8) as u32) == v) by (bit_vector);
}

proof fn lemma_be128_octets(v: u128)
    ensures
        be128(octets128(v)) == v,
{
    let s = octets128(v);
    let w0 = (v >> 96u128) as u32;
    let w1 = (v >> 64u128) as u32;
    let w2 = (v >> 32u128) as u32;
    let w3 = v as u32;
    assert(s.subrange(0, 8).subrange(0, 4) =~= octets32(w0)) by {
        assert((v >> 120u128) as u8 == (w0 >> 24u32) as u8) by (bit_vector)
            requires w0 == (v >> 96u128) as u32;
        assert((v >> 112u128) as u8 == (w0 >> 16u32) as u8) by (bit_vector)
            requires w0 == (v >> 96u128) as u32;
        assert((v >> 104u128) as u8 == (w0 >> 8u32) as u8) by (bit_vector)
            requires w0 == (v >> 96u128) as u32;
        assert((v >> 96u128) as u8 == w0 as u8) by (bit_vector)
            requires w0 == (v >> 96u128) as u32;
    }
    assert(s.subrange(0, 8).subrange(4, 8) =~= octets32(w1)) by {
        assert((v >> 88u128) as u8 == (w1 >> 24u32) as u8) by (bit_vector)
            requires w1 == (v >> 64u128) as u32;
        assert((v >> 80u128) as u8 == (w1 >> 16u32) as u8) by (bit_vector)
            requires w1 == (v >> 64u128) as u32;
        assert((v >> 72u128) as u8 == (w1 >> 8u32) as u8) by (bit_vector)
            requires w1 == (v >> 64u128) as u32;
        assert((v >> 64u128) as u8 == w1 as u8) by (bit_vector)
            requires w1 == (v >> 64u128) as u32;
    }
    assert(s.subrange(8, 16).subrange(0, 4) =~= octets32(w2)) by {
        assert((v >> 56u128) as u8 == (w2 >> 24u32) as u8) by (bit_vector)
            requires w2 == (v >> 32u128) as u32;
        assert((v >> 48u128) as u8 == (w2 >> 16u32) as u8) by (bit_vector)
            requires w2 == (v >> 32u128) as u32;
        assert((v >> 40u128) as u8 == (w2 >> 8u32) as u8) by (bit_vector)
            requires w2 == (v >> 32u128) as u32;
        assert((v >> 32u128) as u8 == w2 as u8) by (bit_vector)
            requires w2 == (v >> 32u128) as u32;
    }
    assert(s.subrange(8, 16).subrange(4, 8) =~= octets32(w3)) by {
        assert((v >> 24u128) as u8 == (w3 >> 24u32) as u8) by (bit_vector)
            requires w3 == v as u32;
        assert((v >> 16u128) as u8 == (w3 >> 16u32) as u8) by (bit_vector)
            requires w3 == v as u32;
        assert((v >> 8u128) as u8 == (w3 >> 8u32) as u8) by (bit_vector)
            requires w3 == v as u32;
        assert((v >> 0u128) as u8 == w3 as u8) by (bit_vector)
            requires w3 == v as u32;
    }
    lemma_be32_octets(w0);
    lemma_be32_octets(w1);
    lemma_be32_octets(w2);
    lemma_be32_octets(w3);
    assert(((((((w0 as u64) << 32u64) | (w1 as u64)) as u128) << 64u128) | ((((w2 as u64)
        << 32u64) | (w3 as u64)) as u128)) == v) by (bit_vector)
        requires
            w0 == (v >> 96u128) as u32,
            w1 == (v >> 64u128) as u32,
            w2 == (v >> 32u128) as u32,
            w3 == v as u32,
    ;
}

proof fn lemma_header_read(msglen: u16, msg_type: u8, flags: u32, addrs: u32, rest: Seq<u8>)
    ensures
        header_bytes(msglen, msg_type, flags, addrs).len() == HDR_LEN,
        header_at(header_bytes(msglen, msg_type, flags, addrs) + rest, 0) == (RtMsgHeader {
            msglen,
            version: RTM_VERSION,
            msg_type,
            index: 0,
            flags,
            addrs,
            pid: 0,
            seq: 1,
            errno: 0,
        }),
{
    let h = header_bytes(msglen, msg_type, flags, addrs);
    let s = h + rest;
    assert(h.len() == 92);
    assert(le32_bytes(0) =~= seq![0u8, 0u8, 0u8, 0u8]) by {
        assert((0u32 >> 8u32) as u8 == 0u8 && (0u32 >> 16u32) as u8 == 0u8 && (0u32 >> 24u32) as u8
            == 0u8) by (bit_vector);
    }
    assert(le16_bytes(0) =~= seq![0u8, 0u8]) by {
        assert((0u16 >> 8u16) as u8 == 0u8) by (bit_vector);
    }
    assert(s.subrange(0, 2) =~= le16_bytes(msglen));
    assert(s.subrange(4, 6) =~= le16_bytes(0));
    assert(s.subrange(8, 12) =~= le32_bytes(flags));
    assert(s.subrange(12, 16) =~= le32_bytes(addrs));
    assert(s.subrange(20, 24) =~= le32_bytes(1));
    assert(s.subrange(16, 20) =~= le32_bytes(0));
    assert(s.subrange(24, 28) =~= le32_bytes(0));
    lemma_le16_at(s, 0, msglen);
    lemma_le16_at(s, 4, 0);
    lemma_le32_at(s, 8, flags);
    lemma_le32_at(s, 12, addrs);
    lemma_le32_at(s, 16, 0);
    lemma_le32_at(s, 20, 1);
    lemma_le32_at(s, 24, 0);
}

/// The `sockaddr` that the encoder writes for `a` reads back as `a`.
proof fn lemma_sockaddr_read(pre: Seq<u8>, a: IpAddr, post: Seq<u8>)
    ensures
        ({
            let s = pre + sockaddr_ip_bytes(a) + post;
            let p = pre.len() as int;
            &&& readable(s, p)
            &&& s[p] as int == sockaddr_ip_bytes(a).len()
            &&& span(s[p]) == sockaddr_ip_bytes(a).len()
            &&& sa_ip(s, p) == Some(a)
        }),
{
    let t = sockaddr_ip_bytes(a);
    let s = pre + t + post;
    let p = pre.len() as int;
    assert forall|k: int| 0 <= k < t.len() implies s[p + k] == t[k] by {
        assert((pre + t)[p + k] == t[k]);
    }
    match a {
        IpAddr::V4(v) => {
            assert(t.len() == 16);
            assert(s[p] == 16u8 && s[p + 1] == AF_INET);
            assert(s.subrange(p + 4, p + 8) =~= octets32(v)) by {
                assert forall|k: int| 0 <= k < 4 implies s[p + 4 + k] == octets32(v)[k] by {
                    assert(s[p + (4 + k)] == t[4 + k]);
                }
            }
            lemma_be32_octets(v);
        },
        IpAddr::V6(v) => {
            assert(t.len() == 28);
            assert(s[p] == 28u8 && s[p + 1] == AF_INET6);
            assert(s.subrange(p + 8, p + 24) =~= octets128(v)) by {
                assert forall|k: int| 0 <= k < 16 implies s[p + 8 + k] == octets128(v)[k] by {
                    assert(s[p + (8 + k)] == t[8 + k]);
                }
            }
            lemma_be128_octets(v);
        },
    }
}

proof fn lemma_ones32(m: u32, p: u32, i: u32)
    requires
        p <= 32,
        i <= p,
        forall|j: u32| j < 32 ==> (#[trigger] bit32(m, j) <==> j < p),
    ensures
        ones32_from(m, i) == p - i,
    decreases p - i,
{
    if i < p {
        lemma_ones32(m, p, (i + 1) as u32);
        assert(bit32(m, i));
    } else if i < 32 {
        assert(!bit32(m, i));
    }
}

proof fn lemma_ones128(m: u128, p: u128, i: u128)
    requires
        p <= 128,
        i <= p,
        forall|j: u128| j < 128 ==> (#[trigger] bit128(m, j) <==> j < p),
    ensures
        ones128_from(m, i) == p - i,
    decreases p - i,
{
    if i < p {
        lemma_ones128(m, p, (i + 1) as u128);
        assert(bit128(m, i));
    } else if i < 128 {
        assert(!bit128(m, i));
    }
}

/// The netmask `sockaddr` that the encoder writes reads back as the prefix
/// it was made from.
proof fn lemma_mask_read(pre: Seq<u8>, dst: IpAddr, prefix: u8, post: Seq<u8>)
    requires
        prefix <= dst.width(),
    ensures
        ({
            let s = pre + sockaddr_ip_bytes(netmask_of(dst, prefix)) + post;
            mask_prefix(s, pre.len() as int, dst) == prefix
        }),
{
    let m = netmask_of(dst, prefix);
    let t = sockaddr_ip_bytes(m);
    let s = pre + t + post;
    let p = pre.len() as int;
    lemma_netmask_bits(dst, prefix);
    assert forall|k: int| 0 <= k < t.len() implies s[p + k] == t[k] by {
        assert((pre + t)[p + k] == t[k]);
    }
    match m {
        IpAddr::V4(v) => {
            assert(s[p] == 16u8);
            assert(Seq::new(4, |k: int| sa_byte(s, p, 4 + k)) =~= octets32(v)) by {
                assert forall|k: int| 0 <= k < 4 implies sa_byte(s, p, 4 + k) == octets32(v)[k] by {
                    assert(s[p + (4 + k)] == t[4 + k]);
                }
            }
            lemma_be32_octets(v);
            lemma_ones32(v, prefix as u32, 0);
        },
        IpAddr::V6(v) => {
            assert(s[p] == 28u8);
            assert(Seq::new(16, |k: int| sa_byte(s, p, 8 + k)) =~= octets128(v)) by {
                assert forall|k: int| 0 <= k < 16 implies sa_byte(s, p, 8 + k) == octets128(v)[k] by {
                    assert(s[p + (8 + k)] == t[8 + k]);
                }
            }
            lemma_be128_octets(v);
            lemma_ones128(v, prefix as u128, 0);
        },
    }
}

/// The route that a request for `route` carrying `gateway` reads back as:
/// its destination and prefix, the gateway with any zone id cleared, and
/// interface index 0, the index field of every request header.
pub open spec fn request_readback(route: Route, gateway: Option<IpAddr>) -> Route {
    Route {
        destination: route.destination,
        prefix: route.prefix,
        gateway: match gateway {
            Some(g) => Some(strip_zone(g)),
            None => None,
        },
        ifindex: Some(0),
        table: MAIN_TABLE,
        metric: None,
        luid: None,
        source: None,
        source_prefix: 0,
        source_hint: None,
    }
}

proof fn lemma_decode_from_slots(h: RtMsgHeader, msg: Seq<u8>, route: Route, gateway: Option<IpAddr>)
    requires
        has_addr(h.addrs, RTAX_DST),
        has_addr(h.addrs, RTAX_NETMASK),
        h.index == 0,
        slot(msg, h.addrs, 0) == Some(0int),
        sa_ip(msg, 0) == Some(route.destination),
        match slot(msg, h.addrs, 1) {
            Some(gp) => sa_ip(msg, gp) == gateway,
            None => gateway is None,
        },
        slot(msg, h.addrs, 2) matches Some(mp) && msg[mp] != 0 && mask_prefix(
            msg,
            mp,
            route.destination,
        ) == route.prefix,
    ensures
        message_route(h, msg) == Some(request_readback(route, gateway)),
{
}

/// Slot facts of a run made of a destination, a middle part, and a netmask.
proof fn lemma_outer_slots(dst: IpAddr, mid: Seq<u8>, mask: IpAddr, prefix: u8, addrs: u32)
    requires
        addrs == 7u32 || addrs == 5u32,
        prefix <= dst.width(),
        mask == netmask_of(dst, prefix),
    ensures
        ({
            let attrs = sockaddr_ip_bytes(dst) + mid + sockaddr_ip_bytes(mask);
            let q = (sockaddr_ip_bytes(dst) + mid).len() as int;
            &&& slot(attrs, addrs, 0) == Some(0int)
            &&& sa_ip(attrs, 0) == Some(dst)
            &&& cursor(attrs, addrs, 1) == sockaddr_ip_bytes(dst).len()
            &&& readable(attrs, q)
            &&& attrs[q] != 0
            &&& mask_prefix(attrs, q, dst) == prefix
            &&& has_addr(addrs, 0)
            &&& has_addr(addrs, 2)
        }),
{
    let d = sockaddr_ip_bytes(dst);
    let tail = sockaddr_ip_bytes(mask);
    let attrs = d + mid + tail;
    assert(has_addr(7, 0) && has_addr(7, 2) && has_addr(5, 0) && has_addr(5, 2)) by (bit_vector);
    lemma_sockaddr_read(seq![], dst, mid + tail);
    assert(seq![] + d + (mid + tail) =~= attrs);
    assert(cursor(attrs, addrs, 0) == 0);
    lemma_sockaddr_read(d + mid, mask, seq![]);
    lemma_mask_read(d + mid, dst, prefix, seq![]);
    assert(d + mid + tail + seq![] =~= attrs);
}

proof fn lemma_gateway_slots(dst: IpAddr, g: IpAddr, mask: IpAddr, prefix: u8)
    requires
        prefix <= dst.width(),
        mask == netmask_of(dst, prefix),
    ensures
        ({
            let d = sockaddr_ip_bytes(dst);
            let mid = sockaddr_ip_bytes(g);
            let attrs = d + mid + sockaddr_ip_bytes(mask);
            &&& slot(attrs, 7, 1) == Some(d.len() as int)
            &&& sa_ip(attrs, d.len() as int) == Some(g)
            &&& slot(attrs, 7, 2) == Some((d + mid).len() as int)
        }),
{
    let d = sockaddr_ip_bytes(dst);
    let mid = sockaddr_ip_bytes(g);
    let tail = sockaddr_ip_bytes(mask);
    let attrs = d + mid + tail;
    lemma_outer_slots(dst, mid, mask, prefix, 7);
    assert(has_addr(7, 1)) by (bit_vector);
    lemma_sockaddr_read(d, g, tail);
    assert(cursor(attrs, 7, 2) == (d + mid).len());
}

proof fn lemma_interface_slots(dst: IpAddr, i: u16, mask: IpAddr, prefix: u8)
    requires
        prefix <= dst.width(),
        mask == netmask_of(dst, prefix),
    ensures
        ({
            let d = sockaddr_ip_bytes(dst);
            let mid = sockaddr_dl_bytes(i);
            let attrs = d + mid + sockaddr_ip_bytes(mask);
            &&& slot(attrs, 7, 1) == Some(d.len() as int)
            &&& sa_ip(attrs, d.len() as int) is None
            &&& slot(attrs, 7, 2) == Some((d + mid).len() as int)
        }),
{
    let d = sockaddr_ip_bytes(dst);
    let mid = sockaddr_dl_bytes(i);
    let tail = sockaddr_ip_bytes(mask);
    let attrs = d + mid + tail;
    lemma_outer_slots(dst, mid, mask, prefix, 7);
    assert(has_addr(7, 1)) by (bit_vector);
    assert(attrs[d.len() as int] == mid[0]);
    assert(attrs[d.len() as int + 1] == mid[1]);
    assert(readable(attrs, d.len() as int));
    assert(span(20u8) == 20);
    assert(cursor(attrs, 7, 2) == (d + mid).len());
}

proof fn lemma_delete_slots(dst: IpAddr, mask: IpAddr, prefix: u8)
    requires
        prefix <= dst.width(),
        mask == netmask_of(dst, prefix),
    ensures
        ({
            let d = sockaddr_ip_bytes(dst);
            let attrs = d + seq![] + sockaddr_ip_bytes(mask);
            &&& slot(attrs, 5, 1) is None
            &&& slot(attrs, 5, 2) == Some((d + seq![]).len() as int)
        }),
{
    let d = sockaddr_ip_bytes(dst);
    let tail = sockaddr_ip_bytes(mask);
    let attrs = d + seq![] + tail;
    lemma_outer_slots(dst, seq![], mask, prefix, 5);
    assert(!has_addr(5, 1)) by (bit_vector);
    assert(cursor(attrs, 5, 2) == (d + seq![]).len());
}

proof fn lemma_request_header(route: Route, add: bool, gateway: Option<IpAddr>, ifindex: Option<u32>)
    ensures
        ({
            let mask = netmask_of(route.destination, route.prefix);
            let attrs = request_attrs(route.destination, mask, gateway, ifindex);
            let m = request_bytes(route.destination, mask, gateway, ifindex, add);
            let h = header_at(m, 0);
            &&& m.len() >= HDR_LEN
            &&& m.subrange(HDR_LEN as int, m.len() as int) == attrs
            &&& h.msg_type == (if add {
                RTM_ADD
            } else {
                RTM_DELETE
            })
            &&& h.index == 0
            &&& h.addrs == (if add {
                7u32
            } else {
                5u32
            })
        }),
{
    let mask = netmask_of(route.destination, route.prefix);
    let attrs = request_attrs(route.destination, mask, gateway, ifindex);
    let ty = if add {
        RTM_ADD
    } else {
        RTM_DELETE
    };
    let msglen = (HDR_LEN + attrs.len()) as u16;
    let flags = request_flags(gateway is Some, add);
    let addrs = request_addrs(add);
    lemma_header_read(msglen, ty, flags, addrs, attrs);
    let m = request_bytes(route.destination, mask, gateway, ifindex, add);
    assert(m.subrange(HDR_LEN as int, m.len() as int) =~= attrs);
    assert(1u32 | 4u32 | 2u32 == 7u32 && 1u32 | 4u32 == 5u32) by (bit_vector);
}

/// A request that the encoder accepts, read back as a routing-socket
/// message, announces the destination, prefix and gateway it was made for:
/// an add announces an add and a delete a delete. An add that names both a
/// gateway and an interface is left out: its interface `sockaddr` stands
/// where the netmask slot is read.
pub proof fn lemma_request_round_trip(route: Route, add: bool)
    requires
        request_error(route, add) is None,
        add ==> route.gateway is None || route.ifindex is None,
    ensures
        ({
            let gateway = if add {
                route.gateway
            } else {
                None
            };
            let ifindex = if add {
                route.ifindex
            } else {
                None
            };
            let m = request_bytes(
                route.destination,
                netmask_of(route.destination, route.prefix),
                gateway,
                ifindex,
                add,
            );
            let back = request_readback(route, gateway);
            message_change(m) == Some(
                if add {
                    RouteChange::Add(back)
                } else {
                    RouteChange::Delete(back)
                },
            )
        }),
{
    let dst = route.destination;
    let gateway = if add {
        route.gateway
    } else {
        None
    };
    let ifindex = if add {
        route.ifindex
    } else {
        None
    };
    let mask = netmask_of(dst, route.prefix);
    let attrs = request_attrs(dst, mask, gateway, ifindex);
    let m = request_bytes(dst, mask, gateway, ifindex, add);
    lemma_request_header(route, add, gateway, ifindex);
    let h = header_at(m, 0);
    let d = sockaddr_ip_bytes(dst);
    let tail = sockaddr_ip_bytes(mask);
    match gateway {
        Some(g) => {
            let mid = sockaddr_ip_bytes(g);
            assert(attrs =~= d + mid + tail);
            lemma_outer_slots(dst, mid, mask, route.prefix, 7);
            lemma_gateway_slots(dst, g, mask, route.prefix);
            assert(sa_ip(attrs, d.len() as int) == Some(g));
            assert(gateway == Some(g));
            lemma_decode_from_slots(h, attrs, route, Some(g));
        },
        None => match ifindex {
            Some(i) => {
                let mid = sockaddr_dl_bytes(i as u16);
                assert(attrs =~= d + mid + tail);
                lemma_outer_slots(dst, mid, mask, route.prefix, 7);
                lemma_interface_slots(dst, i as u16, mask, route.prefix);
                lemma_decode_from_slots(h, attrs, route, None);
            },
            None => {
                assert(!add);
                assert(attrs =~= d + seq![] + tail);
                lemma_outer_slots(dst, seq![], mask, route.prefix, 5);
                lemma_delete_slots(dst, mask, route.prefix);
                lemma_decode_from_slots(h, attrs, route, None);
            },
        },
    }
}

} // verus!
