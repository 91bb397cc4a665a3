//! IP addresses as plain integers in network (big-endian) bit order.
use vstd::prelude::*;

verus! {

/// An IPv4 or IPv6 address. The integer holds the address with its first
/// octet in the most significant byte, as the address is written.
#[derive(Debug, Clone, Copy, PartialEq, Eq, Structural)]
pub enum IpAddr {
    V4(u32),
    V6(u128),
}

/// The value of four octets read in network order.
pub open spec fn be32(s: Seq<u8>) -> u32 {
    ((s[0] as u32) << 24u32) | ((s[1] as u32) << 16u32) | ((s[2] as u32) << 8u32) | (s[3] as u32)
}

/// The value of eight octets read in network order.
pub open spec fn be64(s: Seq<u8>) -> u64 {
    ((be32(s.subrange(0, 4)) as u64) << 32u64) | (be32(s.subrange(4, 8)) as u64)
}

/// The value of sixteen octets read in network order.
pub open spec fn be128(s: Seq<u8>) -> u128 {
    ((be64(s.subrange(0, 8)) as u128) << 64u128) | (be64(s.subrange(8, 16)) as u128)
}

/// The four octets of a 32-bit value in network order.
pub open spec fn octets32(v: u32) -> Seq<u8> {
    seq![(v >> 24u32) as u8, (v >> 16u32) as u8, (v >> 8u32) as u8, v as u8]
}

/// The sixteen octets of a 128-bit value in network order.
pub open spec fn octets128(v: u128) -> Seq<u8> {
    Seq::new(16, |i: int| (v >> ((120 - 8 * i) as u128)) as u8)
}

impl IpAddr {
    /// Number of bits in an address of this family.
    pub open spec fn width(self) -> nat {
        match self {
            IpAddr::V4(_) => 32,
            IpAddr::V6(_) => 128,
        }
    }

    pub open spec fn is_v4(self) -> bool {
        self is V4
    }

    /// The address is all zeros (`0.0.0.0` or `::`).
    pub open spec fn unspecified(self) -> bool {
        match self {
            IpAddr::V4(v) => v == 0,
            IpAddr::V6(v) => v == 0,
        }
    }

    /// Both addresses belong to the same family.
    pub open spec fn same_family(self, other: IpAddr) -> bool {
        self.is_v4() == other.is_v4()
    }

    /// The octets of the address in network order.
    pub open spec fn octets(self) -> Seq<u8> {
        match self {
            IpAddr::V4(v) => octets32(v),
            IpAddr::V6(v) => octets128(v),
        }
    }

    /// The IPv4 address `a.b.c.d`.
    pub fn v4(a: u8, b: u8, c: u8, d: u8) -> (r: IpAddr)
        ensures
            r == IpAddr::V4(be32(seq![a, b, c, d])),
    {
        IpAddr::V4(((a as u32) << 24u32) | ((b as u32) << 16u32) | ((c as u32) << 8u32) | (d as u32))
    }

    /// The IPv6 address made of eight 16-bit segments, first segment first.
    pub fn v6(s0: u16, s1: u16, s2: u16, s3: u16, s4: u16, s5: u16, s6: u16, s7: u16) -> (r: IpAddr)
        ensures
            r == IpAddr::V6(
                ((s0 as u128) << 112u128) | ((s1 as u128) << 96u128) | ((s2 as u128) << 80u128)
                    | ((s3 as u128) << 64u128) | ((s4 as u128) << 48u128) | ((s5 as u128) << 32u128)
                    | ((s6 as u128) << 16u128) | (s7 as u128),
            ),
    {
        IpAddr::V6(
            ((s0 as u128) << 112u128) | ((s1 as u128) << 96u128) | ((s2 as u128) << 80u128) | ((
            s3 as u128) << 64u128) | ((s4 as u128) << 48u128) | ((s5 as u128) << 32u128) | ((
            s6 as u128) << 16u128) | (s7 as u128),
        )
    }

    pub fn is_unspecified(&self) -> (r: bool)
        ensures
            r == self.unspecified(),
    {
        match self {
            IpAddr::V4(v) => *v == 0,
            IpAddr::V6(v) => *v == 0,
        }
    }

    pub fn is_ipv4(&self) -> (r: bool)
        ensures
            r == self.is_v4(),
    {
        match self {
            IpAddr::V4(_) => true,
            IpAddr::V6(_) => false,
        }
    }
}

/// Reads four octets at `off` as a network-order value.
pub fn read_be32(buf: &[u8], off: usize) -> (r: u32)
    requires
        off + 4 <= buf@.len(),
    ensures
        r == be32(buf@.subrange(off as int, off + 4)),
{
    ((buf[off] as u32) << 24u32) | ((buf[off + 1] as u32) << 16u32) | ((buf[off + 2] as u32) << 8u32)
        | (buf[off + 3] as u32)
}

/// Reads eight octets at `off` as a network-order value.
pub fn read_be64(buf: &[u8], off: usize) -> (r: u64)
    requires
        off + 8 <= buf@.len(),
    ensures
        r == be64(buf@.subrange(off as int, off + 8)),
{
    let n: usize = buf.len();
    assert(off + 8 <= n);
    let hi = read_be32(buf, off);
    let lo = read_be32(buf, off + 4);
    proof {
        let s = buf@.subrange(off as int, off + 8);
        assert(s.subrange(0, 4) =~= buf@.subrange(off as int, off + 4));
        assert(s.subrange(4, 8) =~= buf@.subrange(off + 4, off + 8));
    }
    ((hi as u64) << 32u64) | (lo as u64)
}

/// Reads sixteen octets at `off` as a network-order value.
pub fn read_be128(buf: &[u8], off: usize) -> (r: u128)
    requires
        off + 16 <= buf@.len(),
    ensures
        r == be128(buf@.subrange(off as int, off + 16)),
{
    let n: usize = buf.len();
    assert(off + 16 <= n);
    let hi = read_be64(buf, off);
    let lo = read_be64(buf, off + 8);
    proof {
        let s = buf@.subrange(off as int, off + 16);
        assert(s.subrange(0, 8) =~= buf@.subrange(off as int, off + 8));
        assert(s.subrange(8, 16) =~= buf@.subrange(off + 8, off + 16));
    }
    ((hi as u128) << 64u128) | (lo as u128)
}

/// Appends the octets of `a` in network order.
pub fn push_octets(out: &mut Vec<u8>, a: IpAddr)
    ensures
        final(out)@ == old(out)@ + a.octets(),
{
    match a {
        IpAddr::V4(v) => {
            out.push((v >> 24u32) as u8);
            out.push((v >> 16u32) as u8);
            out.push((v >> 8u32) as u8);
            out.push(v as u8);
            assert(out@ =~= old(out)@ + octets32(v));
        },
        IpAddr::V6(v) => {
            let mut i: usize = 0;
            while i < 16
                invariant
                    i <= 16,
                    out@ =~= old(out)@ + octets128(v).subrange(0, i as int),
                decreases 16 - i,
            {
                let shift: u128 = (120 - 8 * i) as u128;
                out.push((v >> shift) as u8);
                i = i + 1;
                assert(out@ =~= old(out)@ + octets128(v).subrange(0, i as int));
            }
            assert(octets128(v).subrange(0, 16) =~= octets128(v));
        },
    }
}

} // verus!
