//! FNV-1a hashing, stable across processes and platforms.
use vstd::prelude::*;

verus! {

pub const FNV_OFFSET_BASIS_64: u64 = 0xcbf2_9ce4_8422_2325;

pub const FNV_PRIME_64: u64 = 0x0000_0100_0000_01b3;

/// The 64-bit FNV-1a hash of `bytes`: starting from the offset basis, each
/// byte is xored in and the state multiplied by the FNV prime, modulo 2^64.
pub open spec fn spec_fnv1a(bytes: Seq<u8>) -> u64
    decreases bytes.len(),
{
    if bytes.len() == 0 {
        FNV_OFFSET_BASIS_64
    } else {
        (spec_fnv1a(bytes.drop_last()) ^ (bytes.last() as u64)).wrapping_mul(FNV_PRIME_64)
    }
}

pub fn stable_hash64(bytes: &[u8]) -> (h: u64)
    ensures
        h == spec_fnv1a(bytes@),
{
    let mut hash: u64 = FNV_OFFSET_BASIS_64;
    let mut i: usize = 0;
    while i < bytes.len()
        invariant
            0 <= i <= bytes.len(),
            hash == spec_fnv1a(bytes@.take(i as int)),
        decreases bytes.len() - i,
    {
        proof {
            assert(bytes@.take(i + 1).drop_last() =~= bytes@.take(i as int));
        }
        hash = hash ^ (bytes[i] as u64);
        hash = hash.wrapping_mul(FNV_PRIME_64);
        i += 1;
    }
    proof {
        assert(bytes@.take(bytes.len() as int) =~= bytes@);
    }
    hash
}

/// Hashing a concatenation continues from the hash of its first part.
pub proof fn lemma_fnv1a_push(bytes: Seq<u8>, b: u8)
    ensures
        spec_fnv1a(bytes.push(b)) == (spec_fnv1a(bytes) ^ (b as u64)).wrapping_mul(FNV_PRIME_64),
{
    assert(bytes.push(b).drop_last() =~= bytes);
}

} // verus!

verus! {

/// A socket address by its parts: the address family, the IP octets in
/// network order, the port, and for IPv6 the flow label and scope id.
#[derive(Debug, Clone, Copy, PartialEq, Eq)]
pub enum SocketAddress {
    V4 { ip: [u8; 4], port: u16 },
    V6 { ip: [u8; 16], port: u16, flowinfo: u32, scope_id: u32 },
}

/// The two bytes of `v`, most significant first.
pub open spec fn be16(v: u16) -> Seq<u8> {
    seq![(v / 256) as u8, (v % 256) as u8]
}

/// The four bytes of `v`, most significant first.
pub open spec fn be32(v: u32) -> Seq<u8> {
    seq![(v / 16777216) as u8, ((v / 65536) % 256) as u8, ((v / 256) % 256) as u8, (v % 256) as u8]
}

/// The bytes that identify a socket address: a family tag (4 or 6), the IP
/// octets and the big-endian port, then for IPv6 the big-endian flow label
/// and scope id followed by four zero bytes of padding (31 bytes in all).
pub open spec fn socket_addr_bytes(addr: SocketAddress) -> Seq<u8> {
    match addr {
        SocketAddress::V4 { ip, port } => seq![4u8] + ip@ + be16(port),
        SocketAddress::V6 { ip, port, flowinfo, scope_id } => seq![6u8] + ip@ + be16(port) + be32(
            flowinfo,
        ) + be32(scope_id) + seq![0u8, 0u8, 0u8, 0u8],
    }
}

fn push_be16(out: &mut Vec<u8>, v: u16)
    ensures
        final(out)@ == old(out)@ + be16(v),
{
    out.push((v / 256) as u8);
    out.push((v % 256) as u8);
}

fn push_be32(out: &mut Vec<u8>, v: u32)
    ensures
        final(out)@ == old(out)@ + be32(v),
{
    out.push((v / 16777216) as u8);
    out.push(((v / 65536) % 256) as u8);
    out.push(((v / 256) % 256) as u8);
    out.push((v % 256) as u8);
}

fn push_octets(out: &mut Vec<u8>, octets: &[u8])
    ensures
        final(out)@ == old(out)@ + octets@,
{
    let ghost start = out@;
    let mut i: usize = 0;
    while i < octets.len()
        invariant
            0 <= i <= octets.len(),
            out@ == start + octets@.take(i as int),
        decreases octets.len() - i,
    {
        out.push(octets[i]);
        proof {
            assert(octets@.take(i + 1) =~= octets@.take(i as int).push(octets@[i as int]));
        }
        i += 1;
    }
    proof {
        assert(octets@.take(octets.len() as int) =~= octets@);
    }
}

/// The FNV-1a hash of the bytes that identify the address.
pub fn stable_hash_socket_addr(addr: &SocketAddress) -> (h: u64)
    ensures
        h == spec_fnv1a(socket_addr_bytes(*addr)),
{
    let mut bytes: Vec<u8> = Vec::new();
    match addr {
        SocketAddress::V4 { ip, port } => {
            bytes.push(4u8);
            push_octets(&mut bytes, ip.as_slice());
            push_be16(&mut bytes, *port);
        },
        SocketAddress::V6 { ip, port, flowinfo, scope_id } => {
            bytes.push(6u8);
            push_octets(&mut bytes, ip.as_slice());
            push_be16(&mut bytes, *port);
            push_be32(&mut bytes, *flowinfo);
            push_be32(&mut bytes, *scope_id);
            bytes.push(0u8);
            bytes.push(0u8);
            bytes.push(0u8);
            bytes.push(0u8);
        },
    }
    proof {
        assert(bytes@ =~= socket_addr_bytes(*addr));
    }
    stable_hash64(bytes.as_slice())
}

proof fn lemma_be16_injective(x: u16, y: u16)
    requires
        be16(x) == be16(y),
    ensures
        x == y,
{
    assert(be16(x)[0] == be16(y)[0] && be16(x)[1] == be16(y)[1]);
    assert(x == (x / 256) * 256 + x % 256) by (nonlinear_arith);
    assert(y == (y / 256) * 256 + y % 256) by (nonlinear_arith);
}

proof fn lemma_be32_injective(x: u32, y: u32)
    requires
        be32(x) == be32(y),
    ensures
        x == y,
{
    assert(be32(x)[0] == be32(y)[0] && be32(x)[1] == be32(y)[1]);
    assert(be32(x)[2] == be32(y)[2] && be32(x)[3] == be32(y)[3]);
    assert(x == (x / 16777216) * 16777216 + ((x / 65536) % 256) * 65536 + ((x / 256) % 256) * 256
        + x % 256) by (nonlinear_arith);
    assert(y == (y / 16777216) * 16777216 + ((y / 65536) % 256) * 65536 + ((y / 256) % 256) * 256
        + y % 256) by (nonlinear_arith);
}

/// Distinct socket addresses are hashed over distinct byte strings: an IPv4
/// and an IPv6 address never share their bytes, and two addresses of one
/// family share them only when every part is equal.
pub proof fn lemma_socket_addr_bytes_injective(a: SocketAddress, b: SocketAddress)
    requires
        socket_addr_bytes(a) == socket_addr_bytes(b),
    ensures
        a == b,
{
    let sa = socket_addr_bytes(a);
    let sb = socket_addr_bytes(b);
    match a {
        SocketAddress::V4 { ip: ia, port: pa } => {
            match b {
                SocketAddress::V4 { ip: ib, port: pb } => {
                    assert(sa.subrange(1, 5) =~= ia@);
                    assert(sb.subrange(1, 5) =~= ib@);
                    assert(sa.subrange(5, 7) =~= be16(pa));
                    assert(sb.subrange(5, 7) =~= be16(pb));
                    lemma_be16_injective(pa, pb);
                    assert(ia == ib);
                },
                SocketAddress::V6 { .. } => {
                    assert(sa.len() != sb.len());
                },
            }
        },
        SocketAddress::V6 { ip: ia, port: pa, flowinfo: fa, scope_id: ca } => {
            match b {
                SocketAddress::V6 { ip: ib, port: pb, flowinfo: fb, scope_id: cb } => {
                    assert(sa.subrange(1, 17) =~= ia@);
                    assert(sb.subrange(1, 17) =~= ib@);
                    assert(sa.subrange(17, 19) =~= be16(pa));
                    assert(sb.subrange(17, 19) =~= be16(pb));
                    assert(sa.subrange(19, 23) =~= be32(fa));
                    assert(sb.subrange(19, 23) =~= be32(fb));
                    assert(sa.subrange(23, 27) =~= be32(ca));
                    assert(sb.subrange(23, 27) =~= be32(cb));
                    lemma_be16_injective(pa, pb);
                    lemma_be32_injective(fa, fb);
                    lemma_be32_injective(ca, cb);
                    assert(ia == ib);
                },
                SocketAddress::V4 { .. } => {
                    assert(sa.len() != sb.len());
                },
            }
        },
    }
}

} // verus!
