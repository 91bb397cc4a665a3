//! The BSD/macOS routing-socket message format: an `rt_msghdr` followed by a
//! packed run of `sockaddr`s, one for each bit set in `rtm_addrs`. Multi-byte
//! header fields are in the host's (little-endian) order, addresses in
//! network order.
use vstd::prelude::*;
use crate::addr::{IpAddr, be32, be128, octets32, octets128, push_octets, read_be32, read_be128};
use crate::error::{ErrorKind, Reason, RouteError};
use crate::route::{Route, RouteChange, MAIN_TABLE, netmask_of};

verus! {

/// Size of `struct rt_msghdr`.
pub const HDR_LEN: usize = 92;
/// The message format version this codec speaks.
pub const RTM_VERSION: u8 = 5;
pub const RTM_ADD: u8 = 1;
pub const RTM_DELETE: u8 = 2;
pub const RTM_CHANGE: u8 = 3;

pub const RTF_UP: u32 = 0x1;
pub const RTF_GATEWAY: u32 = 0x2;
pub const RTF_STATIC: u32 = 0x800;
pub const RTF_WASCLONED: u32 = 0x20000;

pub const RTA_DST: u32 = 0x1;
pub const RTA_GATEWAY: u32 = 0x2;
pub const RTA_NETMASK: u32 = 0x4;

pub const RTAX_DST: u32 = 0;
pub const RTAX_GATEWAY: u32 = 1;
pub const RTAX_NETMASK: u32 = 2;

pub const AF_INET: u8 = 2;
pub const AF_LINK: u8 = 18;
pub const AF_INET6: u8 = 30;

pub const SOCKADDR_IN_LEN: u8 = 16;
pub const SOCKADDR_IN6_LEN: u8 = 28;
pub const SOCKADDR_DL_LEN: u8 = 20;

/// How many times a routing-table dump is attempted before giving up.
pub const DUMP_ATTEMPTS: usize = 3;

pub const EEXIST: i32 = 17;
pub const ESRCH: i32 = 3;
pub const ENOBUFS: i32 = 55;

/// The fields of `rt_msghdr` that the routing logic reads or writes.
#[derive(Debug, Clone, Copy, PartialEq, Eq, Structural)]
pub struct RtMsgHeader {
    pub msglen: u16,
    pub version: u8,
    pub msg_type: u8,
    pub index: u16,
    pub flags: u32,
    pub addrs: u32,
    pub pid: i32,
    pub seq: i32,
    pub errno: i32,
}

pub open spec fn le16(s: Seq<u8>, off: int) -> u16 {
    (s[off] as u16) | ((s[off + 1] as u16) << 8u16)
}

pub open spec fn le32(s: Seq<u8>, off: int) -> u32 {
    (s[off] as u32) | ((s[off + 1] as u32) << 8u32) | ((s[off + 2] as u32) << 16u32) | ((s[off
        + 3] as u32) << 24u32)
}

/// The header that starts at `off`.
pub open spec fn header_at(s: Seq<u8>, off: int) -> RtMsgHeader {
    RtMsgHeader {
        msglen: le16(s, off),
        version: s[off + 2],
        msg_type: s[off + 3],
        index: le16(s, off + 4),
        flags: le32(s, off + 8),
        addrs: le32(s, off + 12),
        pid: #[verifier::truncate] (le32(s, off + 16) as i32),
        seq: #[verifier::truncate] (le32(s, off + 20) as i32),
        errno: #[verifier::truncate] (le32(s, off + 24) as i32),
    }
}

fn read_le16(buf: &[u8], off: usize) -> (r: u16)
    requires
        off + 2 <= buf@.len(),
    ensures
        r == le16(buf@, off as int),
{
    (buf[off] as u16) | ((buf[off + 1] as u16) << 8u16)
}

fn read_le32(buf: &[u8], off: usize) -> (r: u32)
    requires
        off + 4 <= buf@.len(),
    ensures
        r == le32(buf@, off as int),
{
    (buf[off] as u32) | ((buf[off + 1] as u32) << 8u32) | ((buf[off + 2] as u32) << 16u32) | ((
    buf[off + 3] as u32) << 24u32)
}

/// Reads the header that starts at `off`.
pub fn parse_header(buf: &[u8], off: usize) -> (h: RtMsgHeader)
    requires
        off + HDR_LEN <= buf@.len(),
    ensures
        h == header_at(buf@, off as int),
{
    let n: usize = buf.len();
    assert(off + HDR_LEN <= n);
    RtMsgHeader {
        msglen: read_le16(buf, off),
        version: buf[off + 2],
        msg_type: buf[off + 3],
        index: read_le16(buf, off + 4),
        flags: read_le32(buf, off + 8),
        addrs: read_le32(buf, off + 12),
        pid: #[verifier::truncate] (read_le32(buf, off + 16) as i32),
        seq: #[verifier::truncate] (read_le32(buf, off + 20) as i32),
        errno: #[verifier::truncate] (read_le32(buf, off + 24) as i32),
    }
}

/// `n` rounded up to a multiple of four.
pub open spec fn round4(n: int) -> int {
    (n + 3) / 4 * 4
}

/// Rounds a length up to the next multiple of four.
pub fn align(len: usize) -> (r: usize)
    requires
        len + 3 <= usize::MAX,
    ensures
        r == round4(len as int),
{
    assert(((len + 3) as usize) & !3usize == ((len + 3) as usize) / 4 * 4) by (bit_vector);
    (len + 3) & !3usize
}

/// The error kind for a routing-socket `errno`.
pub open spec fn errno_kind(err: i32) -> ErrorKind {
    if err == EEXIST {
        ErrorKind::AlreadyExists
    } else if err == ESRCH {
        ErrorKind::NotFound
    } else if err == ENOBUFS {
        ErrorKind::OutOfMemory
    } else {
        ErrorKind::Other
    }
}

/// The error for a routing-socket `errno`.
pub fn code_to_error(err: i32) -> (r: RouteError)
    ensures
        r == (RouteError { kind: errno_kind(err), reason: Reason::Errno(err) }),
{
    let kind = if err == EEXIST {
        ErrorKind::AlreadyExists
    } else if err == ESRCH {
        ErrorKind::NotFound
    } else if err == ENOBUFS {
        ErrorKind::OutOfMemory
    } else {
        ErrorKind::Other
    };
    RouteError { kind, reason: Reason::Errno(err) }
}

/// Whether to try the two-call `sysctl` dump again after `failed` attempts
/// whose second call failed: the size the kernel reported can grow between
/// the calls, so a few attempts are made.
pub fn retry_dump(failed: usize) -> (r: bool)
    ensures
        r == (failed < DUMP_ATTEMPTS),
{
    failed < DUMP_ATTEMPTS
}

/// Bit `i` of an address-presence mask is set.
pub open spec fn has_addr(addrs: u32, i: u32) -> bool {
    addrs & (1u32 << i) != 0
}

/// Room a `sockaddr` of length `l` takes in the packed run: its length
/// rounded up to four bytes, and four bytes when the length is 0.
pub open spec fn span(l: u8) -> int {
    if l == 0 {
        4
    } else {
        round4(l as int)
    }
}

/// A `sockaddr` starts at `p` and its declared length fits in `msg`.
pub open spec fn readable(msg: Seq<u8>, p: int) -> bool {
    0 <= p < msg.len() && p + msg[p] <= msg.len()
}

/// Where the walk stands before slot `n`. A `sockaddr` that runs past the
/// end leaves the walk at the end.
pub open spec fn cursor(msg: Seq<u8>, addrs: u32, n: nat) -> int
    decreases n,
{
    if n == 0 {
        0
    } else {
        let p = cursor(msg, addrs, (n - 1) as nat);
        if has_addr(addrs, (n - 1) as u32) && readable(msg, p) {
            if p + span(msg[p]) > msg.len() {
                msg.len() as int
            } else {
                p + span(msg[p])
            }
        } else {
            p
        }
    }
}

/// Where the `sockaddr` of slot `i` starts, if the mask has it and it fits.
pub open spec fn slot(msg: Seq<u8>, addrs: u32, i: nat) -> Option<int> {
    let p = cursor(msg, addrs, i);
    if has_addr(addrs, i as u32) && readable(msg, p) {
        Some(p)
    } else {
        None
    }
}

/// Byte `k` of the `sockaddr` at `p`; bytes past its declared length read 0.
pub open spec fn sa_byte(msg: Seq<u8>, p: int, k: int) -> u8 {
    if k < msg[p] {
        msg[p + k]
    } else {
        0
    }
}

/// The address that the `sockaddr` at `p` holds, if it is a whole
/// `sockaddr_in` or `sockaddr_in6`.
pub open spec fn sa_ip(msg: Seq<u8>, p: int) -> Option<IpAddr> {
    let l = msg[p];
    let family = sa_byte(msg, p, 1);
    if family == AF_INET && l >= SOCKADDR_IN_LEN {
        Some(IpAddr::V4(be32(msg.subrange(p + 4, p + 8))))
    } else if family == AF_INET6 && l >= SOCKADDR_IN6_LEN {
        Some(IpAddr::V6(be128(msg.subrange(p + 8, p + 24))))
    } else {
        None
    }
}

/// Link-local unicast (`fe80::/10`), and multicast of interface-local or
/// link-local scope: the addresses whose second and third octets the kernel
/// fills with a zone id.
pub open spec fn zone_scoped(v: u128) -> bool {
    (v >> 118u128) as u16 == 0x3fau16 || ((v >> 120u128) as u8 == 0xffu8 && (((v >> 112u128)
        as u8) & 0x0fu8 == 1u8 || ((v >> 112u128) as u8) & 0x0fu8 == 2u8))
}

/// A gateway as the kernel reports it, with the zone id taken out again.
pub open spec fn strip_zone(a: IpAddr) -> IpAddr {
    match a {
        IpAddr::V6(v) => if zone_scoped(v) {
            IpAddr::V6(v & !(0xffffu128 << 96u128))
        } else {
            a
        },
        IpAddr::V4(_) => a,
    }
}

/// Number of leading one bits of a 32-bit value, from bit `i` on.
pub open spec fn ones32_from(v: u32, i: u32) -> nat
    decreases 32 - i,
{
    if i >= 32 {
        0
    } else if (v >> (31 - i) as u32) & 1u32 == 1u32 {
        1 + ones32_from(v, (i + 1) as u32)
    } else {
        0
    }
}

/// Number of leading one bits of a 128-bit value, from bit `i` on.
pub open spec fn ones128_from(v: u128, i: u128) -> nat
    decreases 128 - i,
{
    if i >= 128 {
        0
    } else if (v >> (127 - i) as u128) & 1u128 == 1u128 {
        1 + ones128_from(v, (i + 1) as u128)
    } else {
        0
    }
}

/// The netmask of the `sockaddr` at `p`, for a destination of family
/// `dst`, zero-filled past its declared length.
pub open spec fn mask_prefix(msg: Seq<u8>, p: int, dst: IpAddr) -> nat {
    match dst {
        IpAddr::V4(_) => ones32_from(be32(Seq::new(4, |k: int| sa_byte(msg, p, 4 + k))), 0),
        IpAddr::V6(_) => ones128_from(be128(Seq::new(16, |k: int| sa_byte(msg, p, 8 + k))), 0),
    }
}

/// The route that a routing message describes, if its body has a
/// destination address.
pub open spec fn message_route(h: RtMsgHeader, msg: Seq<u8>) -> Option<Route> {
    if !has_addr(h.addrs, RTAX_DST) {
        None
    } else {
        match slot(msg, h.addrs, 0) {
            None => None,
            Some(dp) => match sa_ip(msg, dp) {
                None => None,
                Some(dst) => {
                    let gateway = match slot(msg, h.addrs, 1) {
                        Some(gp) => match sa_ip(msg, gp) {
                            Some(g) => Some(strip_zone(g)),
                            None => None,
                        },
                        None => None,
                    };
                    let prefix = if !has_addr(h.addrs, RTAX_NETMASK) {
                        dst.width()
                    } else {
                        match slot(msg, h.addrs, 2) {
                            None => 0,
                            Some(mp) => if msg[mp] == 0 {
                                0
                            } else {
                                mask_prefix(msg, mp, dst)
                            },
                        }
                    };
                    Some(
                        Route {
                            destination: dst,
                            prefix: prefix as u8,
                            gateway,
                            ifindex: Some(h.index as u32),
                            table: MAIN_TABLE,
                            metric: None,
                            luid: None,
                            source: None,
                            source_prefix: 0,
                            source_hint: None,
                        },
                    )
                },
            },
        }
    }
}

/// Takes one step of the `sockaddr` walk: from the cursor before slot
/// `i`, finds where slot `i` starts and the cursor after it.
fn walk_step(msg: &[u8], addrs: u32, i: u32, cur: usize) -> (r: (Option<usize>, usize))
    requires
        i < 32,
        cur == cursor(msg@, addrs, i as nat),
        cur <= msg@.len(),
    ensures
        r.0 == match slot(msg@, addrs, i as nat) {
            Some(p) => Some(p as usize),
            None => None::<usize>,
        },
        r.1 == cursor(msg@, addrs, (i + 1) as nat),
        r.1 <= msg@.len(),
{
    let n: usize = msg.len();
    let present = addrs & (1u32 << i) != 0;
    if present && cur < n && msg[cur] as usize <= n - cur {
        let l = msg[cur];
        let step: usize = if l == 0 {
            4
        } else {
            align(l as usize)
        };
        let next = if step > n - cur {
            n
        } else {
            cur + step
        };
        (Some(cur), next)
    } else {
        (None, cur)
    }
}

fn sa_byte_at(msg: &[u8], p: usize, k: usize) -> (r: u8)
    requires
        readable(msg@, p as int),
        k < 256,
    ensures
        r == sa_byte(msg@, p as int, k as int),
{
    if k < msg[p] as usize {
        msg[p + k]
    } else {
        0
    }
}

/// Reads the address in the `sockaddr` at `p`.
pub fn sa_to_ip(msg: &[u8], p: usize) -> (r: Option<IpAddr>)
    requires
        readable(msg@, p as int),
    ensures
        r == sa_ip(msg@, p as int),
{
    let l = msg[p];
    let family = sa_byte_at(msg, p, 1);
    if family == AF_INET && l >= SOCKADDR_IN_LEN {
        Some(IpAddr::V4(read_be32(msg, p + 4)))
    } else if family == AF_INET6 && l >= SOCKADDR_IN6_LEN {
        Some(IpAddr::V6(read_be128(msg, p + 8)))
    } else {
        None
    }
}

/// Clears the zone id that the kernel writes into scoped IPv6 gateways.
pub fn strip_gateway_zone(a: IpAddr) -> (r: IpAddr)
    ensures
        r == strip_zone(a),
{
    match a {
        IpAddr::V6(v) => {
            let top10 = (v >> 118u128) as u16;
            let b0 = (v >> 120u128) as u8;
            let scope = ((v >> 112u128) as u8) & 0x0fu8;
            if top10 == 0x3fau16 || (b0 == 0xffu8 && (scope == 1u8 || scope == 2u8)) {
                IpAddr::V6(v & !(0xffffu128 << 96u128))
            } else {
                a
            }
        },
        IpAddr::V4(_) => a,
    }
}

fn leading_ones32(v: u32) -> (r: u32)
    ensures
        r == ones32_from(v, 0),
        r <= 32,
{
    let mut i: u32 = 0;
    while i < 32 && (v >> (31 - i)) & 1u32 == 1u32
        invariant
            i <= 32,
            ones32_from(v, 0) == i + ones32_from(v, i),
        decreases 32 - i,
    {
        i = i + 1;
    }
    i
}

fn leading_ones128(v: u128) -> (r: u32)
    ensures
        r == ones128_from(v, 0),
        r <= 128,
{
    let mut i: u32 = 0;
    while i < 128 && (v >> (127 - i as u128)) & 1u128 == 1u128
        invariant
            i <= 128,
            ones128_from(v, 0) == i + ones128_from(v, i as u128),
        decreases 128 - i,
    {
        i = i + 1;
    }
    i
}

/// The prefix length that the netmask `sockaddr` at `p` encodes.
fn netmask_prefix(msg: &[u8], p: usize, dst: IpAddr) -> (r: u8)
    requires
        readable(msg@, p as int),
    ensures
        r == mask_prefix(msg@, p as int, dst) as u8,
{
    let width: usize = match dst {
        IpAddr::V4(_) => 4,
        IpAddr::V6(_) => 16,
    };
    let base: usize = match dst {
        IpAddr::V4(_) => 4,
        IpAddr::V6(_) => 8,
    };
    let mut bytes: Vec<u8> = Vec::new();
    let mut k: usize = 0;
    while k < width
        invariant
            k <= width,
            width <= 16,
            base <= 8,
            readable(msg@, p as int),
            bytes@ =~= Seq::new(k as nat, |j: int| sa_byte(msg@, p as int, base + j)),
        decreases width - k,
    {
        let b = sa_byte_at(msg, p, base + k);
        bytes.push(b);
        k = k + 1;
    }
    match dst {
        IpAddr::V4(_) => {
            let v = read_be32(bytes.as_slice(), 0);
            assert(bytes@.subrange(0, 4) =~= Seq::new(4, |j: int| sa_byte(msg@, p as int, 4 + j)));
            leading_ones32(v) as u8
        },
        IpAddr::V6(_) => {
            let v = read_be128(bytes.as_slice(), 0);
            assert(bytes@.subrange(0, 16) =~= Seq::new(
                16,
                |j: int| sa_byte(msg@, p as int, 8 + j),
            ));
            leading_ones128(v) as u8
        },
    }
}

/// Decodes the `sockaddr` run `msg` that follows the header `hdr` into a
/// route: the destination, gateway and netmask slots give the destination,
/// the next hop and the prefix, and the header gives the interface index.
pub fn message_to_route(hdr: &RtMsgHeader, msg: &[u8]) -> (r: Option<Route>)
    ensures
        r == message_route(*hdr, msg@),
{
    if hdr.addrs & (1u32 << RTAX_DST) == 0 {
        return None;
    }
    let (dst_slot, c1) = walk_step(msg, hdr.addrs, 0, 0);
    let (gw_slot, c2) = walk_step(msg, hdr.addrs, 1, c1);
    let (mask_slot, _) = walk_step(msg, hdr.addrs, 2, c2);
    let dst = match dst_slot {
        None => return None,
        Some(p) => match sa_to_ip(msg, p) {
            None => return None,
            Some(d) => d,
        },
    };
    let gateway = match gw_slot {
        Some(p) => match sa_to_ip(msg, p) {
            Some(g) => Some(strip_gateway_zone(g)),
            None => None,
        },
        None => None,
    };
    let prefix: u8 = if hdr.addrs & (1u32 << RTAX_NETMASK) == 0 {
        match dst {
            IpAddr::V4(_) => 32,
            IpAddr::V6(_) => 128,
        }
    } else {
        match mask_slot {
            None => 0,
            Some(p) => if msg[p] == 0 {
                0
            } else {
                netmask_prefix(msg, p, dst)
            },
        }
    };
    Some(
        Route {
            destination: dst,
            prefix,
            gateway,
            ifindex: Some(hdr.index as u32),
            table: MAIN_TABLE,
            metric: None,
            luid: None,
            source: None,
            source_prefix: 0,
            source_hint: None,
        },
    )
}


/// The error that a message of another format version gives.
pub open spec fn version_error() -> RouteError {
    RouteError { kind: ErrorKind::Other, reason: Reason::VersionMismatch }
}

/// The error that a cut-short or impossible message gives.
pub open spec fn malformed_error() -> RouteError {
    RouteError { kind: ErrorKind::Other, reason: Reason::Malformed }
}

/// The routes that one dump record contributes: none for a cloned entry or
/// a body without a destination, else its route.
pub open spec fn record_routes(h: RtMsgHeader, body: Seq<u8>) -> Seq<Route> {
    if h.flags & RTF_WASCLONED != 0 {
        seq![]
    } else {
        match message_route(h, body) {
            Some(r) => seq![r],
            None => seq![],
        }
    }
}

/// The routes of the dump records from `off` on, or the first error that a
/// record holds. A tail shorter than a header ends the dump.
pub open spec fn dump_from(s: Seq<u8>, off: int) -> Result<Seq<Route>, RouteError>
    decreases s.len() - off,
{
    if off < 0 || off + HDR_LEN > s.len() {
        Ok(seq![])
    } else {
        let h = header_at(s, off);
        if h.version != RTM_VERSION {
            Err(version_error())
        } else if h.errno != 0 {
            Err(RouteError { kind: errno_kind(h.errno), reason: Reason::Errno(h.errno) })
        } else if (h.msglen as int) < HDR_LEN || off + h.msglen > s.len() {
            Err(malformed_error())
        } else {
            match dump_from(s, off + h.msglen) {
                Ok(rest) => Ok(record_routes(h, s.subrange(off + HDR_LEN, off + h.msglen)) + rest),
                Err(e) => Err(e),
            }
        }
    }
}

pub open spec fn prepend(a: Seq<Route>, r: Result<Seq<Route>, RouteError>) -> Result<
    Seq<Route>,
    RouteError,
> {
    match r {
        Ok(rest) => Ok(a + rest),
        Err(e) => Err(e),
    }
}

/// Decodes a routing-table dump: a run of records, each a header whose
/// `rtm_msglen` covers it and its `sockaddr` run. Cloned entries and records
/// without a destination are left out. A record of another format version,
/// one that reports an `errno`, or one whose length is impossible ends the
/// walk with an error.
pub fn parse_route_dump(buf: &[u8]) -> (r: Result<Vec<Route>, RouteError>)
    ensures
        match r {
            Ok(v) => dump_from(buf@, 0) == Ok::<Seq<Route>, RouteError>(v@),
            Err(e) => dump_from(buf@, 0) == Err::<Seq<Route>, RouteError>(e),
        },
{
    let n: usize = buf.len();
    let mut routes: Vec<Route> = Vec::new();
    let mut off: usize = 0;
    while off <= n && n - off >= HDR_LEN
        invariant
            n == buf@.len(),
            off <= n,
            dump_from(buf@, 0) == prepend(routes@, dump_from(buf@, off as int)),
        decreases n - off,
    {
        let h = parse_header(buf, off);
        if h.version != RTM_VERSION {
            return Err(RouteError::new(ErrorKind::Other, Reason::VersionMismatch));
        }
        if h.errno != 0 {
            return Err(code_to_error(h.errno));
        }
        let msglen = h.msglen as usize;
        if msglen < HDR_LEN || msglen > n - off {
            return Err(RouteError::new(ErrorKind::Other, Reason::Malformed));
        }
        let next = off + msglen;
        let ghost old_routes = routes@;
        if h.flags & RTF_WASCLONED == 0 {
            let body = vstd::slice::slice_subrange(buf, off + HDR_LEN, next);
            match message_to_route(&h, body) {
                Some(route) => routes.push(route),
                None => {},
            }
        }
        assert(routes@ =~= old_routes + record_routes(h, buf@.subrange(off + HDR_LEN, next as int)));
        assert(dump_from(buf@, off as int) == prepend(
            record_routes(h, buf@.subrange(off + HDR_LEN, next as int)),
            dump_from(buf@, next as int),
        ));
        proof {
            match dump_from(buf@, next as int) {
                Ok(rest) => {
                    assert(old_routes + (record_routes(h, buf@.subrange(off + HDR_LEN, next as int))
                        + rest) =~= routes@ + rest);
                },
                Err(_) => {},
            }
        }
        off = next;
    }
    assert(routes@ + seq![] =~= routes@);
    Ok(routes)
}

/// The outcome a kernel reply to a route request reports.
pub open spec fn reply_result(s: Seq<u8>) -> Result<(), RouteError> {
    if s.len() < HDR_LEN {
        Err(RouteError { kind: ErrorKind::Other, reason: Reason::ShortReply })
    } else if header_at(s, 0).version != RTM_VERSION {
        Err(version_error())
    } else if header_at(s, 0).errno != 0 {
        Err(
            RouteError {
                kind: errno_kind(header_at(s, 0).errno),
                reason: Reason::Errno(header_at(s, 0).errno),
            },
        )
    } else {
        Ok(())
    }
}

/// Checks the kernel's reply to a route request: it must hold a whole
/// header of this format version, and a non-zero `errno` becomes the error
/// that it names.
pub fn check_reply(reply: &[u8]) -> (r: Result<(), RouteError>)
    ensures
        r == reply_result(reply@),
{
    if reply.len() < HDR_LEN {
        return Err(RouteError::new(ErrorKind::Other, Reason::ShortReply));
    }
    let h = parse_header(reply, 0);
    if h.version != RTM_VERSION {
        Err(RouteError::new(ErrorKind::Other, Reason::VersionMismatch))
    } else if h.errno != 0 {
        Err(code_to_error(h.errno))
    } else {
        Ok(())
    }
}

/// The change that a message read from the routing socket announces.
pub open spec fn message_change(s: Seq<u8>) -> Option<RouteChange> {
    if s.len() < HDR_LEN {
        None
    } else {
        let h = header_at(s, 0);
        if h.msg_type != RTM_ADD && h.msg_type != RTM_DELETE && h.msg_type != RTM_CHANGE {
            None
        } else {
            match message_route(h, s.subrange(HDR_LEN as int, s.len() as int)) {
                None => None,
                Some(r) => Some(
                    if h.msg_type == RTM_ADD {
                        RouteChange::Add(r)
                    } else if h.msg_type == RTM_DELETE {
                        RouteChange::Delete(r)
                    } else {
                        RouteChange::Change(r)
                    },
                ),
            }
        }
    }
}

/// Turns a message read from the routing socket into a change event. Only
/// whole add, delete and change messages with a destination give one.
pub fn message_to_change(msg: &[u8]) -> (r: Option<RouteChange>)
    ensures
        r == message_change(msg@),
{
    let n: usize = msg.len();
    if n < HDR_LEN {
        return None;
    }
    let h = parse_header(msg, 0);
    if h.msg_type != RTM_ADD && h.msg_type != RTM_DELETE && h.msg_type != RTM_CHANGE {
        return None;
    }
    let body = vstd::slice::slice_subrange(msg, HDR_LEN, n);
    match message_to_route(&h, body) {
        None => None,
        Some(route) => Some(
            if h.msg_type == RTM_ADD {
                RouteChange::Add(route)
            } else if h.msg_type == RTM_DELETE {
                RouteChange::Delete(route)
            } else {
                RouteChange::Change(route)
            },
        ),
    }
}

/// `n` zero bytes.
pub open spec fn zeros(n: nat) -> Seq<u8> {
    Seq::new(n, |i: int| 0u8)
}

pub open spec fn le16_bytes(v: u16) -> Seq<u8> {
    seq![v as u8, (v >> 8u16) as u8]
}

pub open spec fn le32_bytes(v: u32) -> Seq<u8> {
    seq![v as u8, (v >> 8u32) as u8, (v >> 16u32) as u8, (v >> 24u32) as u8]
}

/// A `sockaddr_in` or `sockaddr_in6` holding `a`, with port, flow
/// information and scope all zero.
pub open spec fn sockaddr_ip_bytes(a: IpAddr) -> Seq<u8> {
    match a {
        IpAddr::V4(v) => seq![SOCKADDR_IN_LEN, AF_INET] + zeros(2) + octets32(v) + zeros(8),
        IpAddr::V6(v) => seq![SOCKADDR_IN6_LEN, AF_INET6] + zeros(6) + octets128(v) + zeros(4),
    }
}

/// A `sockaddr_dl` naming the interface with index `index`, its other
/// fields zero.
pub open spec fn sockaddr_dl_bytes(index: u16) -> Seq<u8> {
    seq![SOCKADDR_DL_LEN, AF_LINK] + le16_bytes(index) + zeros(16)
}

/// An `rt_msghdr` of this format version with sequence number 1 and every
/// field not named here zero.
pub open spec fn header_bytes(msglen: u16, msg_type: u8, flags: u32, addrs: u32) -> Seq<u8> {
    le16_bytes(msglen) + seq![RTM_VERSION, msg_type] + zeros(4) + le32_bytes(flags) + le32_bytes(
        addrs,
    ) + zeros(4) + le32_bytes(1) + zeros(68)
}

/// The flags of a request: static and up, and a gateway route when a
/// gateway is given and for every delete.
pub open spec fn request_flags(has_gateway: bool, add: bool) -> u32 {
    if has_gateway || !add {
        RTF_STATIC | RTF_UP | RTF_GATEWAY
    } else {
        RTF_STATIC | RTF_UP
    }
}

/// The address slots of a request: destination and netmask, and the
/// gateway slot for an add.
pub open spec fn request_addrs(add: bool) -> u32 {
    if add {
        RTA_DST | RTA_NETMASK | RTA_GATEWAY
    } else {
        RTA_DST | RTA_NETMASK
    }
}

/// The `sockaddr` run of a request: destination, gateway if any, interface
/// if any, netmask.
pub open spec fn request_attrs(
    dst: IpAddr,
    mask: IpAddr,
    gateway: Option<IpAddr>,
    ifindex: Option<u32>,
) -> Seq<u8> {
    sockaddr_ip_bytes(dst) + match gateway {
        Some(g) => sockaddr_ip_bytes(g),
        None => seq![],
    } + match ifindex {
        Some(i) => sockaddr_dl_bytes(i as u16),
        None => seq![],
    } + sockaddr_ip_bytes(mask)
}

/// The whole request message for the given fields.
pub open spec fn request_bytes(
    dst: IpAddr,
    mask: IpAddr,
    gateway: Option<IpAddr>,
    ifindex: Option<u32>,
    add: bool,
) -> Seq<u8> {
    let attrs = request_attrs(dst, mask, gateway, ifindex);
    header_bytes(
        (HDR_LEN + attrs.len()) as u16,
        if add {
            RTM_ADD
        } else {
            RTM_DELETE
        },
        request_flags(gateway is Some, add),
        request_addrs(add),
    ) + attrs
}

/// What a request for `route` must be refused for, if anything: a prefix
/// too long for the family, and, for an add, a gateway of the other family
/// or neither a gateway nor an interface.
pub open spec fn request_error(route: Route, add: bool) -> Option<RouteError> {
    if !route.prefix_fits() {
        Some(RouteError { kind: ErrorKind::InvalidInput, reason: Reason::PrefixTooLong })
    } else if add && route.gateway is Some && !route.gateway->Some_0.same_family(
        route.destination,
    ) {
        Some(RouteError { kind: ErrorKind::InvalidInput, reason: Reason::GatewayFamily })
    } else if add && route.gateway is None && route.ifindex is None {
        Some(RouteError { kind: ErrorKind::InvalidInput, reason: Reason::NoNextHop })
    } else {
        None
    }
}

fn push_zeros(out: &mut Vec<u8>, n: usize)
    ensures
        final(out)@ == old(out)@ + zeros(n as nat),
{
    let mut i: usize = 0;
    while i < n
        invariant
            i <= n,
            out@ =~= old(out)@ + zeros(i as nat),
        decreases n - i,
    {
        out.push(0);
        i = i + 1;
        assert(out@ =~= old(out)@ + zeros(i as nat));
    }
}

fn push_le16(out: &mut Vec<u8>, v: u16)
    ensures
        final(out)@ == old(out)@ + le16_bytes(v),
{
    out.push(v as u8);
    out.push((v >> 8u16) as u8);
    assert(out@ =~= old(out)@ + le16_bytes(v));
}

fn push_le32(out: &mut Vec<u8>, v: u32)
    ensures
        final(out)@ == old(out)@ + le32_bytes(v),
{
    out.push(v as u8);
    out.push((v >> 8u32) as u8);
    out.push((v >> 16u32) as u8);
    out.push((v >> 24u32) as u8);
    assert(out@ =~= old(out)@ + le32_bytes(v));
}

fn push_sockaddr_ip(out: &mut Vec<u8>, a: IpAddr)
    ensures
        final(out)@ == old(out)@ + sockaddr_ip_bytes(a),
{
    match a {
        IpAddr::V4(_) => {
            out.push(SOCKADDR_IN_LEN);
            out.push(AF_INET);
            push_zeros(out, 2);
            push_octets(out, a);
            push_zeros(out, 8);
        },
        IpAddr::V6(_) => {
            out.push(SOCKADDR_IN6_LEN);
            out.push(AF_INET6);
            push_zeros(out, 6);
            push_octets(out, a);
            push_zeros(out, 4);
        },
    }
    assert(out@ =~= old(out)@ + sockaddr_ip_bytes(a));
}

fn push_sockaddr_dl(out: &mut Vec<u8>, index: u16)
    ensures
        final(out)@ == old(out)@ + sockaddr_dl_bytes(index),
{
    out.push(SOCKADDR_DL_LEN);
    out.push(AF_LINK);
    push_le16(out, index);
    push_zeros(out, 16);
    assert(out@ =~= old(out)@ + sockaddr_dl_bytes(index));
}

proof fn lemma_sockaddr_len(a: IpAddr)
    ensures
        sockaddr_ip_bytes(a).len() <= 28,
{
}

/// Encodes the request that adds (`add`) or deletes `route`. An add
/// carries the gateway and the interface of the route (the interface index
/// in the 16 bits that `sockaddr_dl` has for it); a delete names only the
/// destination and the netmask.
pub fn route_request(route: &Route, add: bool) -> (r: Result<Vec<u8>, RouteError>)
    ensures
        match request_error(*route, add) {
            Some(e) => r == Err::<Vec<u8>, RouteError>(e),
            None => r is Ok && r->Ok_0@ == (if add {
                request_bytes(
                    route.destination,
                    netmask_of(route.destination, route.prefix),
                    route.gateway,
                    route.ifindex,
                    true,
                )
            } else {
                request_bytes(
                    route.destination,
                    netmask_of(route.destination, route.prefix),
                    None,
                    None,
                    false,
                )
            }),
        },
{
    let width: u8 = match route.destination {
        IpAddr::V4(_) => 32,
        IpAddr::V6(_) => 128,
    };
    if route.prefix > width {
        return Err(RouteError::new(ErrorKind::InvalidInput, Reason::PrefixTooLong));
    }
    let (gateway, ifindex) = if add {
        (route.gateway, route.ifindex)
    } else {
        (None, None)
    };
    if add {
        match gateway {
            Some(g) => {
                if g.is_ipv4() != route.destination.is_ipv4() {
                    return Err(RouteError::new(ErrorKind::InvalidInput, Reason::GatewayFamily));
                }
            },
            None => {
                if ifindex.is_none() {
                    return Err(RouteError::new(ErrorKind::InvalidInput, Reason::NoNextHop));
                }
            },
        }
    }
    let mask = route.mask();
    let mut attrs: Vec<u8> = Vec::new();
    push_sockaddr_ip(&mut attrs, route.destination);
    match gateway {
        Some(g) => push_sockaddr_ip(&mut attrs, g),
        None => {},
    }
    match ifindex {
        Some(i) => push_sockaddr_dl(&mut attrs, i as u16),
        None => {},
    }
    push_sockaddr_ip(&mut attrs, mask);
    proof {
        lemma_sockaddr_len(route.destination);
        lemma_sockaddr_len(mask);
        if let Some(g) = gateway {
            lemma_sockaddr_len(g);
        }
        assert(attrs@ =~= request_attrs(route.destination, mask, gateway, ifindex));
    }
    let msglen = (HDR_LEN + attrs.len()) as u16;
    let msg_type = if add {
        RTM_ADD
    } else {
        RTM_DELETE
    };
    let flags = if gateway.is_some() || !add {
        RTF_STATIC | RTF_UP | RTF_GATEWAY
    } else {
        RTF_STATIC | RTF_UP
    };
    let addrs = if add {
        RTA_DST | RTA_NETMASK | RTA_GATEWAY
    } else {
        RTA_DST | RTA_NETMASK
    };
    let mut out: Vec<u8> = Vec::new();
    push_le16(&mut out, msglen);
    out.push(RTM_VERSION);
    out.push(msg_type);
    push_zeros(&mut out, 4);
    push_le32(&mut out, flags);
    push_le32(&mut out, addrs);
    push_zeros(&mut out, 4);
    push_le32(&mut out, 1);
    push_zeros(&mut out, 68);
    assert(out@ =~= header_bytes(msglen, msg_type, flags, addrs));
    let ghost hdr = out@;
    out.append(&mut attrs);
    assert(out@ =~= hdr + request_attrs(route.destination, mask, gateway, ifindex));
    Ok(out)
}

} // verus!
