//! Linux rtnetlink: decoding route messages into routes, and the decisions
//! behind listing, default-route lookup, adding and deleting.
use vstd::prelude::*;
use crate::addr::IpAddr;
use crate::error::{ErrorKind, Reason, RouteError};
use crate::route::{Route, is_default};

verus! {

/// Linux `errno` values that have a kind of their own.
pub const EEXIST: i32 = 17;
pub const ESRCH: i32 = 3;
pub const ENOBUFS: i32 = 105;

/// The `errno` that a netlink error code carries: the code is the negated
/// `errno`.
pub open spec fn code_errno(code: i32) -> i32 {
    if code < 0 && code != i32::MIN {
        (-code) as i32
    } else {
        code
    }
}

/// The error kind for a Linux `errno`.
pub open spec fn errno_kind(err: i32) -> ErrorKind {
    if err == EEXIST {
        ErrorKind::AlreadyExists
    } else if err == ESRCH {
        ErrorKind::NotFound
    } else if err == ENOBUFS {
        ErrorKind::OutOfMemory
    } else {
        ErrorKind::Other
    }
}

/// The error for the code of a netlink error message: the `errno` it
/// carries, of its kind.
pub fn code_to_error(code: i32) -> (r: RouteError)
    ensures
        r == (RouteError { kind: errno_kind(code_errno(code)), reason: Reason::Errno(code_errno(code)) }),
{
    let err = if code < 0 && code != i32::MIN {
        -code
    } else {
        code
    };
    let kind = if err == EEXIST {
        ErrorKind::AlreadyExists
    } else if err == ESRCH {
        ErrorKind::NotFound
    } else if err == ENOBUFS {
        ErrorKind::OutOfMemory
    } else {
        ErrorKind::Other
    };
    RouteError { kind, reason: Reason::Errno(err) }
}

/// Address family of a route message header.
#[derive(Debug, Clone, Copy, PartialEq, Eq, Structural)]
pub enum Family {
    Inet,
    Inet6,
    Other,
}

/// The route attributes that the library reads. An address attribute
/// holds `None` when its address is neither IPv4 nor IPv6.
#[derive(Debug, Clone, Copy, PartialEq, Eq, Structural)]
pub enum RouteAttr {
    Source(Option<IpAddr>),
    PrefSource(Option<IpAddr>),
    Destination(Option<IpAddr>),
    Gateway(Option<IpAddr>),
    Oif(u32),
    Other,
}

/// A route message: its header fields and its attributes in order.
#[derive(Debug, Clone)]
pub struct NetlinkRoute {
    pub family: Family,
    pub destination_prefix_length: u8,
    pub source_prefix_length: u8,
    pub table: u8,
    pub attributes: Vec<RouteAttr>,
}

/// The values that a run of attributes sets; a later attribute of a kind
/// replaces an earlier one.
#[derive(Debug, Clone, Copy, PartialEq, Eq, Structural)]
pub struct AttrValues {
    pub source: Option<IpAddr>,
    pub source_hint: Option<IpAddr>,
    pub destination: Option<IpAddr>,
    pub gateway: Option<IpAddr>,
    pub ifindex: Option<u32>,
}

pub open spec fn no_values() -> AttrValues {
    AttrValues { source: None, source_hint: None, destination: None, gateway: None, ifindex: None }
}

pub open spec fn apply_attr(v: AttrValues, a: RouteAttr) -> AttrValues {
    match a {
        RouteAttr::Source(x) => AttrValues { source: x, ..v },
        RouteAttr::PrefSource(x) => AttrValues { source_hint: x, ..v },
        RouteAttr::Destination(x) => AttrValues { destination: x, ..v },
        RouteAttr::Gateway(x) => AttrValues { gateway: x, ..v },
        RouteAttr::Oif(i) => AttrValues { ifindex: Some(i), ..v },
        RouteAttr::Other => v,
    }
}

/// The values that `attrs` sets, read in order.
pub open spec fn attr_values(attrs: Seq<RouteAttr>) -> AttrValues
    decreases attrs.len(),
{
    if attrs.len() == 0 {
        no_values()
    } else {
        apply_attr(attr_values(attrs.drop_last()), attrs.last())
    }
}

/// The route a message describes. Without a destination attribute the
/// destination is the unspecified address of the header's family; a
/// message of neither family without one describes no route.
pub open spec fn message_route(m: NetlinkRoute) -> Option<Route> {
    let v = attr_values(m.attributes@);
    let destination = match v.destination {
        Some(d) => Some(d),
        None => match m.family {
            Family::Inet => Some(IpAddr::V4(0)),
            Family::Inet6 => Some(IpAddr::V6(0)),
            Family::Other => None,
        },
    };
    match destination {
        None => None,
        Some(d) => Some(
            Route {
                destination: d,
                prefix: m.destination_prefix_length,
                gateway: v.gateway,
                ifindex: v.ifindex,
                table: m.table,
                metric: None,
                luid: None,
                source: v.source,
                source_prefix: m.source_prefix_length,
                source_hint: v.source_hint,
            },
        ),
    }
}

/// The first destination attribute that holds an address.
pub open spec fn first_destination(attrs: Seq<RouteAttr>) -> Option<IpAddr>
    decreases attrs.len(),
{
    if attrs.len() == 0 {
        None
    } else {
        match attrs[0] {
            RouteAttr::Destination(Some(a)) => Some(a),
            _ => first_destination(attrs.drop_first()),
        }
    }
}

/// Reads the attributes of a route message into the values they set.
pub fn read_attributes(attrs: &Vec<RouteAttr>) -> (r: AttrValues)
    ensures
        r == attr_values(attrs@),
{
    let mut v = AttrValues {
        source: None,
        source_hint: None,
        destination: None,
        gateway: None,
        ifindex: None,
    };
    let mut i: usize = 0;
    while i < attrs.len()
        invariant
            i <= attrs@.len(),
            v == attr_values(attrs@.subrange(0, i as int)),
        decreases attrs@.len() - i,
    {
        assert(attrs@.subrange(0, i + 1).drop_last() =~= attrs@.subrange(0, i as int));
        v = match attrs[i] {
            RouteAttr::Source(x) => AttrValues { source: x, ..v },
            RouteAttr::PrefSource(x) => AttrValues { source_hint: x, ..v },
            RouteAttr::Destination(x) => AttrValues { destination: x, ..v },
            RouteAttr::Gateway(x) => AttrValues { gateway: x, ..v },
            RouteAttr::Oif(idx) => AttrValues { ifindex: Some(idx), ..v },
            RouteAttr::Other => v,
        };
        i = i + 1;
    }
    assert(attrs@.subrange(0, attrs@.len() as int) =~= attrs@);
    v
}

/// Decodes a route message into a route.
pub fn route_from_message(msg: &NetlinkRoute) -> (r: Option<Route>)
    ensures
        r == message_route(*msg),
{
    let v = read_attributes(&msg.attributes);
    let destination = match v.destination {
        Some(d) => d,
        None => match msg.family {
            Family::Inet => IpAddr::V4(0),
            Family::Inet6 => IpAddr::V6(0),
            Family::Other => return None,
        },
    };
    Some(
        Route {
            destination,
            prefix: msg.destination_prefix_length,
            gateway: v.gateway,
            ifindex: v.ifindex,
            table: msg.table,
            metric: None,
            luid: None,
            source: v.source,
            source_prefix: msg.source_prefix_length,
            source_hint: v.source_hint,
        },
    )
}

/// The destination prefix a message carries: its first destination
/// attribute that holds an address, with the header's prefix length.
pub fn destination_prefix(msg: &NetlinkRoute) -> (r: Option<(IpAddr, u8)>)
    ensures
        r == match first_destination(msg.attributes@) {
            Some(a) => Some((a, msg.destination_prefix_length)),
            None => None::<(IpAddr, u8)>,
        },
{
    let attrs = &msg.attributes;
    let mut i: usize = 0;
    assert(attrs@.subrange(0, attrs@.len() as int) =~= attrs@);
    while i < attrs.len()
        invariant
            i <= attrs@.len(),
            attrs@ == msg.attributes@,
            first_destination(attrs@) == first_destination(
                attrs@.subrange(i as int, attrs@.len() as int),
            ),
        decreases attrs@.len() - i,
    {
        let ghost rest = attrs@.subrange(i as int, attrs@.len() as int);
        assert(rest.drop_first() =~= attrs@.subrange(i + 1, attrs@.len() as int));
        assert(rest[0] == attrs@[i as int]);
        match attrs[i] {
            RouteAttr::Destination(Some(a)) => {
                return Some((a, msg.destination_prefix_length));
            },
            _ => {},
        }
        i = i + 1;
    }
    None
}

/// The routes of a dump, in order; a message that describes no route is
/// left out.
pub open spec fn dump_routes(msgs: Seq<NetlinkRoute>) -> Seq<Route>
    decreases msgs.len(),
{
    if msgs.len() == 0 {
        seq![]
    } else {
        let rest = dump_routes(msgs.drop_last());
        match message_route(msgs.last()) {
            Some(r) => rest.push(r),
            None => rest,
        }
    }
}

/// Decodes a dump (the IPv4 messages, then the IPv6 ones) into routes.
pub fn routes_from_messages(msgs: &Vec<NetlinkRoute>) -> (r: Vec<Route>)
    ensures
        r@ == dump_routes(msgs@),
{
    let mut out: Vec<Route> = Vec::new();
    let mut i: usize = 0;
    while i < msgs.len()
        invariant
            i <= msgs@.len(),
            out@ == dump_routes(msgs@.subrange(0, i as int)),
        decreases msgs@.len() - i,
    {
        assert(msgs@.subrange(0, i + 1).drop_last() =~= msgs@.subrange(0, i as int));
        match route_from_message(&msgs[i]) {
            Some(r) => out.push(r),
            None => {},
        }
        i = i + 1;
    }
    assert(msgs@.subrange(0, msgs@.len() as int) =~= msgs@);
    out
}

/// A message that names the default route: it has no destination
/// attribute, and the route it describes is a default route (it has a
/// gateway that is not the unspecified address).
pub open spec fn names_default(m: NetlinkRoute) -> bool {
    &&& first_destination(m.attributes@) is None
    &&& message_route(m) matches Some(r) && is_default(r)
}

/// The route of the first message of a dump that names the default route.
pub open spec fn dump_default(msgs: Seq<NetlinkRoute>) -> Option<Route>
    decreases msgs.len(),
{
    if msgs.len() == 0 {
        None
    } else if names_default(msgs[0]) {
        message_route(msgs[0])
    } else {
        dump_default(msgs.drop_first())
    }
}

/// Picks the default route of a dump (IPv4 messages first, so IPv4 wins):
/// the first message without a destination attribute whose route has the
/// unspecified destination, prefix 0 and a gateway that is not the
/// unspecified address.
pub fn default_route_of_messages(msgs: &Vec<NetlinkRoute>) -> (r: Option<Route>)
    ensures
        r == dump_default(msgs@),
        r matches Some(d) ==> is_default(d) && dump_routes(msgs@).contains(d),
{
    let mut i: usize = 0;
    assert(msgs@.subrange(0, msgs@.len() as int) =~= msgs@);
    while i < msgs.len()
        invariant
            i <= msgs@.len(),
            dump_default(msgs@) == dump_default(msgs@.subrange(i as int, msgs@.len() as int)),
        decreases msgs@.len() - i,
    {
        let ghost rest = msgs@.subrange(i as int, msgs@.len() as int);
        assert(rest.drop_first() =~= msgs@.subrange(i + 1, msgs@.len() as int));
        if destination_prefix(&msgs[i]).is_none() {
            match route_from_message(&msgs[i]) {
                Some(r) => {
                    if r.is_default_route() {
                        assert(dump_default(msgs@) == Some(r));
                        proof {
                            lemma_default_in_dump(msgs@);
                        }
                        return Some(r);
                    }
                },
                None => {},
            }
        }
        i = i + 1;
    }
    None
}

proof fn lemma_dump_routes_contains(msgs: Seq<NetlinkRoute>, k: int)
    requires
        0 <= k < msgs.len(),
        message_route(msgs[k]) is Some,
    ensures
        dump_routes(msgs).contains(message_route(msgs[k])->Some_0),
    decreases msgs.len(),
{
    let r = message_route(msgs[k])->Some_0;
    if k == msgs.len() - 1 {
        assert(dump_routes(msgs).last() == r);
    } else {
        lemma_dump_routes_contains(msgs.drop_last(), k);
        let rest = dump_routes(msgs.drop_last());
        let j = choose|j: int| 0 <= j < rest.len() && rest[j] == r;
        match message_route(msgs.last()) {
            Some(x) => assert(rest.push(x)[j] == r),
            None => {},
        }
    }
}

/// The default route that a dump names is among the routes of the same
/// dump, and is a default route with a gateway that is not unspecified.
pub proof fn lemma_default_in_dump(msgs: Seq<NetlinkRoute>)
    ensures
        dump_default(msgs) matches Some(d) ==> dump_routes(msgs).contains(d) && is_default(d),
    decreases msgs.len(),
{
    if msgs.len() > 0 {
        if names_default(msgs[0]) {
            lemma_dump_routes_contains(msgs, 0);
        } else {
            lemma_default_in_dump(msgs.drop_first());
            if let Some(d) = dump_default(msgs.drop_first()) {
                let tail = msgs.drop_first();
                let k = choose|k: int| 0 <= k < dump_routes(tail).len() && dump_routes(tail)[k] == d;
                lemma_dump_routes_has_source(tail, k);
                let m = choose|m: int| 0 <= m < tail.len() && message_route(tail[m]) == Some(d);
                assert(msgs[m + 1] == tail[m]);
                lemma_dump_routes_contains(msgs, m + 1);
            }
        }
    }
}

proof fn lemma_dump_routes_has_source(msgs: Seq<NetlinkRoute>, k: int)
    requires
        0 <= k < dump_routes(msgs).len(),
    ensures
        exists|m: int| 0 <= m < msgs.len() && message_route(msgs[m]) == Some(dump_routes(msgs)[k]),
    decreases msgs.len(),
{
    let rest = dump_routes(msgs.drop_last());
    if k < rest.len() {
        match message_route(msgs.last()) {
            Some(x) => assert(rest.push(x)[k] == rest[k]),
            None => {},
        }
        lemma_dump_routes_has_source(msgs.drop_last(), k);
        let m = choose|m: int|
            0 <= m < msgs.drop_last().len() && message_route(msgs.drop_last()[m]) == Some(rest[k]);
        assert(msgs[m] == msgs.drop_last()[m]);
    } else {
        assert(message_route(msgs[msgs.len() - 1]) == Some(dump_routes(msgs)[k]));
    }
}

/// What rtnetlink is asked to install for a route.
#[derive(Debug, Clone, Copy, PartialEq, Eq, Structural)]
pub struct AddRequest {
    pub table: u8,
    pub destination: IpAddr,
    pub prefix: u8,
    pub output_interface: Option<u32>,
    pub gateway: Option<IpAddr>,
    pub pref_source: Option<IpAddr>,
    pub source: Option<IpAddr>,
    pub source_prefix: u8,
}

/// An optional address is absent or of the family of `d`.
pub open spec fn fits_family(a: Option<IpAddr>, d: IpAddr) -> bool {
    match a {
        Some(x) => x.same_family(d),
        None => true,
    }
}

/// What an add of `route` must be refused for, if anything, in the order
/// checked: the prefix, the gateway's family, the preferred source's
/// family, the source's family, and the lack of any next hop.
pub open spec fn add_error(route: Route) -> Option<RouteError> {
    if !route.prefix_fits() {
        Some(RouteError { kind: ErrorKind::InvalidInput, reason: Reason::PrefixTooLong })
    } else if !fits_family(route.gateway, route.destination) {
        Some(RouteError { kind: ErrorKind::InvalidInput, reason: Reason::GatewayFamily })
    } else if !fits_family(route.source_hint, route.destination) {
        Some(RouteError { kind: ErrorKind::InvalidInput, reason: Reason::SourceHintFamily })
    } else if !fits_family(route.source, route.destination) {
        Some(RouteError { kind: ErrorKind::InvalidInput, reason: Reason::SourceFamily })
    } else if route.gateway is None && route.ifindex is None {
        Some(RouteError { kind: ErrorKind::InvalidInput, reason: Reason::NoNextHop })
    } else {
        None
    }
}

fn family_fits(a: Option<IpAddr>, d: IpAddr) -> (r: bool)
    ensures
        r == fits_family(a, d),
{
    match a {
        Some(x) => x.is_ipv4() == d.is_ipv4(),
        None => true,
    }
}

/// The request that installs `route` in its table: destination and
/// prefix, and the interface, gateway, preferred source and source that
/// the route has.
pub fn add_request(route: &Route) -> (r: Result<AddRequest, RouteError>)
    ensures
        match add_error(*route) {
            Some(e) => r == Err::<AddRequest, RouteError>(e),
            None => r == Ok::<AddRequest, RouteError>(
                AddRequest {
                    table: route.table,
                    destination: route.destination,
                    prefix: route.prefix,
                    output_interface: route.ifindex,
                    gateway: route.gateway,
                    pref_source: route.source_hint,
                    source: route.source,
                    source_prefix: route.source_prefix,
                },
            ),
        },
{
    let width: u8 = match route.destination {
        IpAddr::V4(_) => 32,
        IpAddr::V6(_) => 128,
    };
    if route.prefix > width {
        return Err(RouteError::new(ErrorKind::InvalidInput, Reason::PrefixTooLong));
    }
    if !family_fits(route.gateway, route.destination) {
        return Err(RouteError::new(ErrorKind::InvalidInput, Reason::GatewayFamily));
    }
    if !family_fits(route.source_hint, route.destination) {
        return Err(RouteError::new(ErrorKind::InvalidInput, Reason::SourceHintFamily));
    }
    if !family_fits(route.source, route.destination) {
        return Err(RouteError::new(ErrorKind::InvalidInput, Reason::SourceFamily));
    }
    if route.gateway.is_none() && route.ifindex.is_none() {
        return Err(RouteError::new(ErrorKind::InvalidInput, Reason::NoNextHop));
    }
    Ok(
        AddRequest {
            table: route.table,
            destination: route.destination,
            prefix: route.prefix,
            output_interface: route.ifindex,
            gateway: route.gateway,
            pref_source: route.source_hint,
            source: route.source,
            source_prefix: route.source_prefix,
        },
    )
}

/// The message describes a route with the destination and prefix of
/// `target`.
pub open spec fn matches_target(m: NetlinkRoute, target: Route) -> bool {
    message_route(m) matches Some(r) && r.destination == target.destination && r.prefix
        == target.prefix
}

/// Finds the message to delete for `route`: the first of the dump whose
/// route has the same destination and prefix. Table, gateway and interface
/// are not compared.
pub fn find_route_to_delete(msgs: &Vec<NetlinkRoute>, route: &Route) -> (r: Result<
    usize,
    RouteError,
>)
    ensures
        match r {
            Ok(i) => i < msgs@.len() && matches_target(msgs@[i as int], *route) && forall|j: int|
                0 <= j < i ==> !matches_target(#[trigger] msgs@[j], *route),
            Err(e) => e == (RouteError {
                kind: ErrorKind::NotFound,
                reason: Reason::NoMatchingRoute,
            }) && forall|j: int| 0 <= j < msgs@.len() ==> !matches_target(#[trigger] msgs@[j], *route),
        },
{
    let mut i: usize = 0;
    while i < msgs.len()
        invariant
            i <= msgs@.len(),
            forall|j: int| 0 <= j < i ==> !matches_target(#[trigger] msgs@[j], *route),
        decreases msgs@.len() - i,
    {
        match route_from_message(&msgs[i]) {
            Some(other) => {
                if other.destination == route.destination && other.prefix == route.prefix {
                    return Ok(i);
                }
            },
            None => {},
        }
        i = i + 1;
    }
    Err(RouteError::new(ErrorKind::NotFound, Reason::NoMatchingRoute))
}

} // verus!
