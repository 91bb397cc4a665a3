//! The route value, change events, the netmask and the default-route rule.
use vstd::prelude::*;
use crate::addr::IpAddr;

verus! {

/// The routing table that Linux installs routes into unless told otherwise.
pub const MAIN_TABLE: u8 = 254;

/// One entry of an IPv4 or IPv6 routing table. Fields that only one kernel
/// interface knows are carried by all and ignored by the others.
#[derive(Debug, Clone, Copy, PartialEq, Eq, Structural)]
pub struct Route {
    /// Network address of the destination; the unspecified address with a
    /// prefix of 0 is a default route.
    pub destination: IpAddr,
    /// Length of the network prefix of `destination`, in bits.
    pub prefix: u8,
    /// Address of the next hop.
    pub gateway: Option<IpAddr>,
    /// Index of the interface through which the next hop is reached.
    pub ifindex: Option<u32>,
    /// Linux routing table id.
    pub table: u8,
    /// Windows route metric offset.
    pub metric: Option<u32>,
    /// Windows locally unique interface identifier.
    pub luid: Option<u64>,
    /// Linux source selector address.
    pub source: Option<IpAddr>,
    /// Prefix length of `source`.
    pub source_prefix: u8,
    /// Linux preferred source address.
    pub source_hint: Option<IpAddr>,
}

/// A change of the routing table.
#[derive(Debug, Clone, Copy, PartialEq, Eq, Structural)]
pub enum RouteChange {
    Add(Route),
    Delete(Route),
    Change(Route),
}

/// Bit `i` of `m`, counted from the most significant bit.
pub open spec fn bit32(m: u32, i: u32) -> bool {
    (m >> (31 - i) as u32) & 1u32 == 1u32
}

/// Bit `i` of `m`, counted from the most significant bit.
pub open spec fn bit128(m: u128, i: u128) -> bool {
    (m >> (127 - i) as u128) & 1u128 == 1u128
}

/// `m` is the address of its family whose first `p` bits are ones and whose
/// other bits are zeros.
pub open spec fn is_netmask(m: IpAddr, p: nat) -> bool {
    match m {
        IpAddr::V4(v) => forall|i: u32| i < 32 ==> (#[trigger] bit32(v, i) <==> i < p),
        IpAddr::V6(v) => forall|i: u128| i < 128 ==> (#[trigger] bit128(v, i) <==> i < p),
    }
}

/// The netmask of a `p`-bit prefix in the family of `d`, as a shift.
pub open spec fn netmask_of(d: IpAddr, p: u8) -> IpAddr {
    match d {
        IpAddr::V4(_) => IpAddr::V4(
            if p == 0 {
                0
            } else {
                0xffff_ffffu32 << (32 - p) as u32
            },
        ),
        IpAddr::V6(_) => IpAddr::V6(
            if p == 0 {
                0
            } else {
                0xffff_ffff_ffff_ffff_ffff_ffff_ffff_ffffu128 << (128 - p) as u128
            },
        ),
    }
}

/// A default route: the unspecified destination, prefix 0, and a gateway
/// that is not itself the unspecified address. A route without a gateway
/// is not one.
pub open spec fn is_default(r: Route) -> bool {
    &&& r.destination.unspecified()
    &&& r.prefix == 0
    &&& r.gateway matches Some(g) && !g.unspecified()
}

proof fn lemma_mask32_bit(p: u32, i: u32)
    by (bit_vector)
    requires
        0 < p <= 32,
        i < 32,
    ensures
        bit32(0xffff_ffffu32 << (32 - p) as u32, i) <==> i < p,
{
}

proof fn lemma_mask128_bit(p: u128, i: u128)
    by (bit_vector)
    requires
        0 < p <= 128,
        i < 128,
    ensures
        bit128(0xffff_ffff_ffff_ffff_ffff_ffff_ffff_ffffu128 << (128 - p) as u128, i) <==> i < p,
{
}

proof fn lemma_zero_bits()
    ensures
        forall|i: u32| i < 32 ==> !#[trigger] bit32(0, i),
        forall|i: u128| i < 128 ==> !#[trigger] bit128(0, i),
{
    assert forall|i: u32| i < 32 implies !#[trigger] bit32(0, i) by {
        assert((0u32 >> (31 - i) as u32) & 1u32 == 0u32) by (bit_vector);
    }
    assert forall|i: u128| i < 128 implies !#[trigger] bit128(0, i) by {
        assert((0u128 >> (127 - i) as u128) & 1u128 == 0u128) by (bit_vector);
    }
}

/// For every prefix that fits the family, the netmask has exactly that many
/// leading one bits and zeros after them, and keeps the family.
pub proof fn lemma_netmask_bits(d: IpAddr, p: u8)
    requires
        p <= d.width(),
    ensures
        netmask_of(d, p).same_family(d),
        is_netmask(netmask_of(d, p), p as nat),
{
    lemma_zero_bits();
    match d {
        IpAddr::V4(_) => {
            if p > 0 {
                let m = 0xffff_ffffu32 << (32 - p) as u32;
                assert forall|i: u32| i < 32 implies (#[trigger] bit32(m, i) <==> i < p) by {
                    lemma_mask32_bit(p as u32, i);
                }
            }
        },
        IpAddr::V6(_) => {
            if p > 0 {
                let m = 0xffff_ffff_ffff_ffff_ffff_ffff_ffff_ffffu128 << (128 - p) as u128;
                assert forall|i: u128| i < 128 implies (#[trigger] bit128(m, i) <==> i < p) by {
                    lemma_mask128_bit(p as u128, i);
                }
            }
        },
    }
}

impl Route {
    /// The prefix fits the family of the destination.
    pub open spec fn prefix_fits(self) -> bool {
        self.prefix <= self.destination.width()
    }

    /// A route to `destination/prefix` with no next hop, the main table, and
    /// every optional field unset.
    pub fn new(destination: IpAddr, prefix: u8) -> (r: Route)
        ensures
            r == (Route {
                destination,
                prefix,
                gateway: None,
                ifindex: None,
                table: MAIN_TABLE,
                metric: None,
                luid: None,
                source: None,
                source_prefix: 0,
                source_hint: None,
            }),
    {
        Route {
            destination,
            prefix,
            gateway: None,
            ifindex: None,
            table: MAIN_TABLE,
            metric: None,
            luid: None,
            source: None,
            source_prefix: 0,
            source_hint: None,
        }
    }

    /// Sets the next hop.
    pub fn with_gateway(self, gateway: IpAddr) -> (r: Route)
        ensures
            r == (Route { gateway: Some(gateway), ..self }),
    {
        Route { gateway: Some(gateway), ..self }
    }

    /// Sets the outgoing interface index.
    pub fn with_ifindex(self, ifindex: u32) -> (r: Route)
        ensures
            r == (Route { ifindex: Some(ifindex), ..self }),
    {
        Route { ifindex: Some(ifindex), ..self }
    }

    /// Sets the Linux routing table.
    pub fn with_table(self, table: u8) -> (r: Route)
        ensures
            r == (Route { table, ..self }),
    {
        Route { table, ..self }
    }

    /// Sets the Windows route metric.
    pub fn with_metric(self, metric: u32) -> (r: Route)
        ensures
            r == (Route { metric: Some(metric), ..self }),
    {
        Route { metric: Some(metric), ..self }
    }

    /// Sets the Windows interface LUID.
    pub fn with_luid(self, luid: u64) -> (r: Route)
        ensures
            r == (Route { luid: Some(luid), ..self }),
    {
        Route { luid: Some(luid), ..self }
    }

    /// The netmask of the destination network: an address of the same family
    /// whose first `prefix` bits are ones and whose other bits are zeros.
    pub fn mask(&self) -> (r: IpAddr)
        requires
            self.prefix_fits(),
        ensures
            r.same_family(self.destination),
            is_netmask(r, self.prefix as nat),
            r == netmask_of(self.destination, self.prefix),
    {
        proof {
            lemma_netmask_bits(self.destination, self.prefix);
        }
        match self.destination {
            IpAddr::V4(_) => {
                if self.prefix == 0 {
                    IpAddr::V4(0)
                } else {
                    IpAddr::V4(0xffff_ffffu32 << (32 - self.prefix as u32))
                }
            },
            IpAddr::V6(_) => {
                if self.prefix == 0 {
                    IpAddr::V6(0)
                } else {
                    IpAddr::V6(
                        0xffff_ffff_ffff_ffff_ffff_ffff_ffff_ffffu128 << (128 - self.prefix as u128),
                    )
                }
            },
        }
    }

    /// The route is a default route: unspecified destination, prefix 0, and
    /// a gateway that is not the unspecified address.
    pub fn is_default_route(&self) -> (r: bool)
        ensures
            r == is_default(*self),
    {
        self.destination.is_unspecified() && self.prefix == 0 && match self.gateway {
            Some(g) => !g.is_unspecified(),
            None => false,
        }
    }
}

/// Building a route from a destination, a gateway and an interface index
/// keeps all three and leaves every other field at its default.
pub proof fn lemma_builder_round_trip(d: IpAddr, p: u8, g: IpAddr, i: u32)
    ensures
        ({
            let r = Route {
                destination: d,
                prefix: p,
                gateway: None,
                ifindex: None,
                table: MAIN_TABLE,
                metric: None,
                luid: None,
                source: None,
                source_prefix: 0,
                source_hint: None,
            };
            let built = Route { ifindex: Some(i), ..Route { gateway: Some(g), ..r } };
            &&& built.destination == d
            &&& built.prefix == p
            &&& built.gateway == Some(g)
            &&& built.ifindex == Some(i)
            &&& built.table == MAIN_TABLE
            &&& built.metric is None
            &&& built.luid is None
            &&& built.source is None
            &&& built.source_hint is None
        }),
{
}

/// The first default route of `rs`.
pub open spec fn first_default(rs: Seq<Route>) -> Option<Route>
    decreases rs.len(),
{
    if rs.len() == 0 {
        None
    } else if is_default(rs[0]) {
        Some(rs[0])
    } else {
        first_default(rs.drop_first())
    }
}

/// Picks the default route of a dump: the first entry, in dump order, with
/// the unspecified destination, prefix 0 and a gateway that is not the
/// unspecified address.
pub fn default_route_of(routes: &Vec<Route>) -> (r: Option<Route>)
    ensures
        r == first_default(routes@),
        r matches Some(d) ==> is_default(d) && routes@.contains(d),
{
    let mut i: usize = 0;
    assert(routes@.subrange(0, routes@.len() as int) =~= routes@);
    while i < routes.len()
        invariant
            i <= routes@.len(),
            first_default(routes@) == first_default(routes@.subrange(i as int, routes@.len() as int)),
        decreases routes@.len() - i,
    {
        let ghost rest = routes@.subrange(i as int, routes@.len() as int);
        assert(rest.drop_first() =~= routes@.subrange(i + 1, routes@.len() as int));
        if routes[i].is_default_route() {
            proof {
                lemma_default_listed(routes@);
            }
            return Some(routes[i]);
        }
        i = i + 1;
    }
    None
}

/// Whatever default route a dump gives is one of its entries, and has the
/// unspecified destination, prefix 0 and a gateway that is not unspecified.
pub proof fn lemma_default_listed(rs: Seq<Route>)
    ensures
        first_default(rs) matches Some(d) ==> rs.contains(d) && is_default(d),
    decreases rs.len(),
{
    if rs.len() > 0 && !is_default(rs[0]) {
        lemma_default_listed(rs.drop_first());
        if let Some(d) = first_default(rs.drop_first()) {
            let k = choose|k: int| 0 <= k < rs.drop_first().len() && rs.drop_first()[k] == d;
            assert(rs[k + 1] == d);
        }
    }
    if rs.len() > 0 && is_default(rs[0]) {
        assert(rs[0] == rs[0]);
    }
}

} // verus!
