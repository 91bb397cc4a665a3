//! Windows IP Helper: forwarding-table rows and routes, status codes, and
//! change notifications.
use vstd::prelude::*;
use crate::addr::IpAddr;
use crate::error::{ErrorKind, Reason, RouteError};
use crate::route::{Route, RouteChange, is_default, MAIN_TABLE};

verus! {

pub const AF_INET: u16 = 2;
pub const AF_INET6: u16 = 23;

pub const MIB_PARAMETER_NOTIFICATION: i32 = 0;
pub const MIB_ADD_INSTANCE: i32 = 1;
pub const MIB_DELETE_INSTANCE: i32 = 2;

pub const ERROR_FILE_NOT_FOUND: u32 = 2;
pub const ERROR_ACCESS_DENIED: u32 = 5;
pub const ERROR_INVALID_PARAMETER: u32 = 87;
pub const ERROR_NOT_FOUND: u32 = 1168;
pub const ERROR_OBJECT_ALREADY_EXISTS: u32 = 5010;

/// A `SOCKADDR_INET`: an address tagged by its family, or only a family
/// value that is neither IPv4 nor IPv6.
#[derive(Debug, Clone, Copy, PartialEq, Eq, Structural)]
pub enum RowAddr {
    Inet(u32),
    Inet6(u128),
    Unspec(u16),
}

/// The fields of a `MIB_IPFORWARD_ROW2` that make up a route.
#[derive(Debug, Clone, Copy, PartialEq, Eq, Structural)]
pub struct ForwardRow {
    pub destination: RowAddr,
    pub prefix_length: u8,
    pub next_hop: RowAddr,
    pub interface_index: u32,
    pub interface_luid: u64,
    pub metric: u32,
}

/// The fields to set on a row that `InitializeIpForwardEntry` prepared;
/// `None` leaves the prepared value.
#[derive(Debug, Clone, Copy, PartialEq, Eq, Structural)]
pub struct RowSettings {
    pub interface_index: Option<u32>,
    pub interface_luid: Option<u64>,
    pub next_hop: RowAddr,
    pub destination: RowAddr,
    pub prefix_length: u8,
    pub metric: Option<u32>,
}

pub open spec fn row_ip(a: RowAddr) -> Option<IpAddr> {
    match a {
        RowAddr::Inet(v) => Some(IpAddr::V4(v)),
        RowAddr::Inet6(v) => Some(IpAddr::V6(v)),
        RowAddr::Unspec(_) => None,
    }
}

/// The route a row describes, if its destination is IPv4 or IPv6.
pub open spec fn row_route(row: ForwardRow) -> Option<Route> {
    match row_ip(row.destination) {
        None => None,
        Some(d) => Some(
            Route {
                destination: d,
                prefix: row.prefix_length,
                gateway: row_ip(row.next_hop),
                ifindex: Some(row.interface_index),
                table: MAIN_TABLE,
                metric: Some(row.metric),
                luid: Some(row.interface_luid),
                source: None,
                source_prefix: 0,
                source_hint: None,
            },
        ),
    }
}

fn addr_of_row(a: RowAddr) -> (r: Option<IpAddr>)
    ensures
        r == row_ip(a),
{
    match a {
        RowAddr::Inet(v) => Some(IpAddr::V4(v)),
        RowAddr::Inet6(v) => Some(IpAddr::V6(v)),
        RowAddr::Unspec(_) => None,
    }
}

/// Converts a forwarding row into a route: destination and prefix, the
/// next hop when it has an address family, interface index, LUID and
/// metric. A row whose destination is of neither family gives none.
pub fn row_to_route(row: &ForwardRow) -> (r: Option<Route>)
    ensures
        r == row_route(*row),
{
    match addr_of_row(row.destination) {
        None => None,
        Some(d) => Some(
            Route {
                destination: d,
                prefix: row.prefix_length,
                gateway: addr_of_row(row.next_hop),
                ifindex: Some(row.interface_index),
                table: MAIN_TABLE,
                metric: Some(row.metric),
                luid: Some(row.interface_luid),
                source: None,
                source_prefix: 0,
                source_hint: None,
            },
        ),
    }
}

pub open spec fn ip_row(a: IpAddr) -> RowAddr {
    match a {
        IpAddr::V4(v) => RowAddr::Inet(v),
        IpAddr::V6(v) => RowAddr::Inet6(v),
    }
}

/// The zero address of the family of `a`.
pub open spec fn zero_row(a: IpAddr) -> RowAddr {
    match a {
        IpAddr::V4(_) => RowAddr::Inet(0),
        IpAddr::V6(_) => RowAddr::Inet6(0),
    }
}

/// The row settings for `route`: its interface, LUID and metric if set,
/// its destination prefix, and its gateway as next hop, or only the
/// destination's family when it has no gateway.
pub open spec fn route_row(route: Route) -> RowSettings {
    RowSettings {
        interface_index: route.ifindex,
        interface_luid: route.luid,
        next_hop: match route.gateway {
            Some(g) => ip_row(g),
            None => zero_row(route.destination),
        },
        destination: ip_row(route.destination),
        prefix_length: route.prefix,
        metric: route.metric,
    }
}

fn row_addr_of(a: IpAddr) -> (r: RowAddr)
    ensures
        r == ip_row(a),
{
    match a {
        IpAddr::V4(v) => RowAddr::Inet(v),
        IpAddr::V6(v) => RowAddr::Inet6(v),
    }
}

/// Converts a route into the settings of a forwarding row.
pub fn route_to_row(route: &Route) -> (r: RowSettings)
    ensures
        r == route_row(*route),
{
    let next_hop = match route.gateway {
        Some(g) => row_addr_of(g),
        None => match route.destination {
            IpAddr::V4(_) => RowAddr::Inet(0),
            IpAddr::V6(_) => RowAddr::Inet6(0),
        },
    };
    RowSettings {
        interface_index: route.ifindex,
        interface_luid: route.luid,
        next_hop,
        destination: row_addr_of(route.destination),
        prefix_length: route.prefix,
        metric: route.metric,
    }
}

/// A prepared row with `s` applied: the fields `s` sets replace the
/// prepared ones, the others stay.
pub open spec fn settled(row: ForwardRow, s: RowSettings) -> ForwardRow {
    ForwardRow {
        destination: s.destination,
        prefix_length: s.prefix_length,
        next_hop: s.next_hop,
        interface_index: match s.interface_index {
            Some(i) => i,
            None => row.interface_index,
        },
        interface_luid: match s.interface_luid {
            Some(l) => l,
            None => row.interface_luid,
        },
        metric: match s.metric {
            Some(m) => m,
            None => row.metric,
        },
    }
}

/// Applies row settings to a row that `InitializeIpForwardEntry` prepared.
pub fn apply_settings(row: &ForwardRow, s: &RowSettings) -> (r: ForwardRow)
    ensures
        r == settled(*row, *s),
{
    ForwardRow {
        destination: s.destination,
        prefix_length: s.prefix_length,
        next_hop: s.next_hop,
        interface_index: match s.interface_index {
            Some(i) => i,
            None => row.interface_index,
        },
        interface_luid: match s.interface_luid {
            Some(l) => l,
            None => row.interface_luid,
        },
        metric: match s.metric {
            Some(m) => m,
            None => row.metric,
        },
    }
}

/// A route that sets every field a forwarding row holds (gateway,
/// interface index, LUID and metric) comes back unchanged from a row made
/// from it, whatever the row was prepared with; fields that only other
/// kernels read come back at their defaults.
pub proof fn lemma_row_round_trip(route: Route, prepared: ForwardRow)
    requires
        route.gateway is Some,
        route.ifindex is Some,
        route.luid is Some,
        route.metric is Some,
    ensures
        row_route(settled(prepared, route_row(route))) == Some(
            Route {
                table: MAIN_TABLE,
                source: None,
                source_prefix: 0,
                source_hint: None,
                ..route
            },
        ),
{
}

/// The error kind for an IP Helper status code.
pub open spec fn status_kind(code: u32) -> ErrorKind {
    if code == ERROR_FILE_NOT_FOUND || code == ERROR_NOT_FOUND {
        ErrorKind::NotFound
    } else if code == ERROR_ACCESS_DENIED {
        ErrorKind::PermissionDenied
    } else if code == ERROR_INVALID_PARAMETER {
        ErrorKind::InvalidInput
    } else if code == ERROR_OBJECT_ALREADY_EXISTS {
        ErrorKind::AlreadyExists
    } else {
        ErrorKind::Other
    }
}

/// The error for an IP Helper status code.
pub fn code_to_error(code: u32) -> (r: RouteError)
    ensures
        r == (RouteError { kind: status_kind(code), reason: Reason::Status(code) }),
{
    let kind = if code == ERROR_FILE_NOT_FOUND || code == ERROR_NOT_FOUND {
        ErrorKind::NotFound
    } else if code == ERROR_ACCESS_DENIED {
        ErrorKind::PermissionDenied
    } else if code == ERROR_INVALID_PARAMETER {
        ErrorKind::InvalidInput
    } else if code == ERROR_OBJECT_ALREADY_EXISTS {
        ErrorKind::AlreadyExists
    } else {
        ErrorKind::Other
    };
    RouteError { kind, reason: Reason::Status(code) }
}

/// The change that a route-change notification of type `kind` about `row`
/// announces; the initial notification and rows without a destination
/// family announce none.
pub open spec fn notification_change(row: ForwardRow, kind: i32) -> Option<RouteChange> {
    match row_route(row) {
        None => None,
        Some(r) => if kind == MIB_PARAMETER_NOTIFICATION {
            Some(RouteChange::Change(r))
        } else if kind == MIB_ADD_INSTANCE {
            Some(RouteChange::Add(r))
        } else if kind == MIB_DELETE_INSTANCE {
            Some(RouteChange::Delete(r))
        } else {
            None
        },
    }
}

/// Turns a route-change notification into a change event.
pub fn notification_to_change(row: &ForwardRow, kind: i32) -> (r: Option<RouteChange>)
    ensures
        r == notification_change(*row, kind),
{
    match row_to_route(row) {
        None => None,
        Some(route) => if kind == MIB_PARAMETER_NOTIFICATION {
            Some(RouteChange::Change(route))
        } else if kind == MIB_ADD_INSTANCE {
            Some(RouteChange::Add(route))
        } else if kind == MIB_DELETE_INSTANCE {
            Some(RouteChange::Delete(route))
        } else {
            None
        },
    }
}

/// The routes of a forwarding table, in order; rows that describe no route
/// are left out.
pub open spec fn table_routes(rows: Seq<ForwardRow>) -> Seq<Route>
    decreases rows.len(),
{
    if rows.len() == 0 {
        seq![]
    } else {
        let rest = table_routes(rows.drop_last());
        match row_route(rows.last()) {
            Some(r) => rest.push(r),
            None => rest,
        }
    }
}

/// Converts a forwarding table into routes.
pub fn rows_to_routes(rows: &Vec<ForwardRow>) -> (r: Vec<Route>)
    ensures
        r@ == table_routes(rows@),
{
    let mut out: Vec<Route> = Vec::new();
    let mut i: usize = 0;
    while i < rows.len()
        invariant
            i <= rows@.len(),
            out@ == table_routes(rows@.subrange(0, i as int)),
        decreases rows@.len() - i,
    {
        assert(rows@.subrange(0, i + 1).drop_last() =~= rows@.subrange(0, i as int));
        match row_to_route(&rows[i]) {
            Some(r) => out.push(r),
            None => {},
        }
        i = i + 1;
    }
    assert(rows@.subrange(0, rows@.len() as int) =~= rows@);
    out
}

/// Sort key of a route's metric: an unset metric orders before every set
/// one.
pub open spec fn metric_key(r: Route) -> int {
    match r.metric {
        Some(m) => m as int,
        None => -1,
    }
}

/// `rs[i]` is the default route chosen by metric: a default route whose
/// metric no other default route undercuts, and the first such in order.
pub open spec fn is_best_default(rs: Seq<Route>, i: int) -> bool {
    &&& 0 <= i < rs.len()
    &&& is_default(rs[i])
    &&& forall|j: int|
        0 <= j < rs.len() && is_default(#[trigger] rs[j]) ==> metric_key(rs[i]) <= metric_key(rs[j])
    &&& forall|j: int|
        0 <= j < i && is_default(#[trigger] rs[j]) ==> metric_key(rs[i]) < metric_key(rs[j])
}

fn key_less(a: &Route, b: &Route) -> (r: bool)
    ensures
        r == (metric_key(*a) < metric_key(*b)),
{
    match (a.metric, b.metric) {
        (None, Some(_)) => true,
        (Some(x), Some(y)) => x < y,
        _ => false,
    }
}

/// Picks the default route with the lowest metric, the earliest of equals.
pub fn default_route_by_metric(routes: &Vec<Route>) -> (r: Option<Route>)
    ensures
        match r {
            Some(d) => exists|i: int| is_best_default(routes@, i) && routes@[i] == d,
            None => forall|j: int| 0 <= j < routes@.len() ==> !is_default(#[trigger] routes@[j]),
        },
{
    let mut best: Option<usize> = None;
    let mut i: usize = 0;
    while i < routes.len()
        invariant
            i <= routes@.len(),
            match best {
                Some(b) => b < i && is_best_default(routes@.subrange(0, i as int), b as int),
                None => forall|j: int| 0 <= j < i ==> !is_default(#[trigger] routes@[j]),
            },
        decreases routes@.len() - i,
    {
        let ghost prev = routes@.subrange(0, i as int);
        let ghost next = routes@.subrange(0, i + 1);
        assert(forall|j: int| 0 <= j < i ==> next[j] == prev[j]);
        if routes[i].is_default_route() {
            match best {
                None => {
                    best = Some(i);
                },
                Some(b) => {
                    if key_less(&routes[i], &routes[b]) {
                        best = Some(i);
                    }
                },
            }
        }
        i = i + 1;
    }
    assert(routes@.subrange(0, routes@.len() as int) =~= routes@);
    match best {
        Some(b) => Some(routes[b]),
        None => None,
    }
}

} // verus!
