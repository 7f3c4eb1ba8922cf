//! Network addresses and the ranges that no request may reach.

use crate::text::{digit, is_digit, split, split_of, texts};
use vstd::prelude::*;

verus! {

/// An address by its octets (version 4) or its segments (version 6).
#[derive(Clone, Copy, Debug, PartialEq, Eq, Structural)]
pub enum IpAddress {
    V4(u8, u8, u8, u8),
    V6(u16, u16, u16, u16, u16, u16, u16, u16),
}

/// Private, loopback, link-local, multicast, reserved and documentation ranges.
pub open spec fn prohibited_v4(a: u8, b: u8, c: u8, d: u8) -> bool {
    ||| a == 10
    ||| (a == 172 && 16 <= b <= 31)
    ||| (a == 192 && b == 168)
    ||| a == 127
    ||| (a == 169 && b == 254)
    ||| 224 <= a <= 239
    ||| a == 0
    ||| (a == 100 && 64 <= b <= 127)
    ||| (a == 192 && b == 0 && (c == 0 || c == 2))
    ||| (a == 192 && b == 88 && c == 99)
    ||| (a == 198 && (b == 18 || b == 19))
    ||| (a == 198 && b == 51 && c == 100)
    ||| (a == 203 && b == 0 && c == 113)
    ||| a >= 240
}

/// The version 4 address in the low 32 bits is prohibited.
pub open spec fn prohibited_embedded(s6: u16, s7: u16) -> bool {
    prohibited_v4((s6 / 256) as u8, (s6 % 256) as u8, (s7 / 256) as u8, (s7 % 256) as u8)
}

/// Version 4 addresses in version 6 form, and the local, multicast, reserved,
/// translation, tunnel and documentation ranges.
pub open spec fn prohibited_v6(
    s0: u16,
    s1: u16,
    s2: u16,
    s3: u16,
    s4: u16,
    s5: u16,
    s6: u16,
    s7: u16,
) -> bool {
    if s0 == 0 && s1 == 0 && s2 == 0 && s3 == 0 && s4 == 0 && s5 == 0xffff {
        prohibited_embedded(s6, s7)
    } else {
        ||| (s0 == 0 && s1 == 0 && s2 == 0 && s3 == 0 && s4 == 0 && s5 == 0)
        ||| 0xff00 <= s0
        ||| 0xfc00 <= s0 <= 0xfdff
        ||| 0xfe80 <= s0 <= 0xfebf
        ||| 0xfec0 <= s0 <= 0xfeff
        ||| (s0 == 0x0100 && s1 == 0 && s2 == 0 && s3 == 0)
        ||| (s0 == 0x0064 && s1 == 0xff9b && s2 == 0 && s3 == 0 && s4 == 0 && s5 == 0
            && prohibited_embedded(s6, s7))
        ||| (s0 == 0x0064 && s1 == 0xff9b && s2 == 1)
        ||| (s0 == 0x2001 && (s1 == 0 || s1 == 2 || 0x0010 <= s1 <= 0x002f || s1 == 0x0db8))
        ||| s0 == 0x2002
        ||| (s0 == 0x3fff && s1 <= 0x0fff)
        ||| s0 == 0x3ffe
        ||| s0 == 0x5f00
    }
}

pub open spec fn prohibited(ip: IpAddress) -> bool {
    match ip {
        IpAddress::V4(a, b, c, d) => prohibited_v4(a, b, c, d),
        IpAddress::V6(s0, s1, s2, s3, s4, s5, s6, s7) => prohibited_v6(
            s0,
            s1,
            s2,
            s3,
            s4,
            s5,
            s6,
            s7,
        ),
    }
}

pub fn is_prohibited_v4(a: u8, b: u8, c: u8, d: u8) -> (r: bool)
    ensures
        r == prohibited_v4(a, b, c, d),
{
    let private = a == 10 || (a == 172 && 16 <= b && b <= 31) || (a == 192 && b == 168);
    let loopback = a == 127;
    let link_local = a == 169 && b == 254;
    let multicast = 224 <= a && a <= 239;
    private || loopback || link_local || multicast || a == 0 || (a == 100 && 64 <= b && b <= 127)
        || (a == 192 && b == 0 && c == 0) || (a == 192 && b == 0 && c == 2) || (a == 192 && b == 88
        && c == 99) || (a == 198 && (b == 18 || b == 19)) || (a == 198 && b == 51 && c == 100) || (a
        == 203 && b == 0 && c == 113) || a >= 240
}

fn is_prohibited_embedded(s6: u16, s7: u16) -> (r: bool)
    ensures
        r == prohibited_embedded(s6, s7),
{
    is_prohibited_v4((s6 / 256) as u8, (s6 % 256) as u8, (s7 / 256) as u8, (s7 % 256) as u8)
}

pub fn is_prohibited_v6(
    s0: u16,
    s1: u16,
    s2: u16,
    s3: u16,
    s4: u16,
    s5: u16,
    s6: u16,
    s7: u16,
) -> (r: bool)
    ensures
        r == prohibited_v6(s0, s1, s2, s3, s4, s5, s6, s7),
{
    let leading_zero = s0 == 0 && s1 == 0 && s2 == 0 && s3 == 0 && s4 == 0;
    if leading_zero && s5 == 0xffff {
        return is_prohibited_embedded(s6, s7);
    }
    proof {
        assert((s0 & 0xff00) == 0xff00 <==> 0xff00 <= s0) by (bit_vector);
        assert((s0 & 0xfe00) == 0xfc00 <==> 0xfc00 <= s0 && s0 <= 0xfdff) by (bit_vector);
        assert((s0 & 0xffc0) == 0xfe80 <==> 0xfe80 <= s0 && s0 <= 0xfebf) by (bit_vector);
        assert((s0 & 0xffc0) == 0xfec0 <==> 0xfec0 <= s0 && s0 <= 0xfeff) by (bit_vector);
        assert((s1 & 0xfff0) == 0x0010 <==> 0x0010 <= s1 && s1 <= 0x001f) by (bit_vector);
        assert((s1 & 0xfff0) == 0x0020 <==> 0x0020 <= s1 && s1 <= 0x002f) by (bit_vector);
        assert((s1 & 0xf000) == 0 <==> s1 <= 0x0fff) by (bit_vector);
    }
    let v4_compatible = leading_zero && s5 == 0;
    v4_compatible || (s0 & 0xff00) == 0xff00 || (s0 & 0xfe00) == 0xfc00 || (s0 & 0xffc0) == 0xfe80
        || (s0 & 0xffc0) == 0xfec0 || (s0 == 0x0100 && s1 == 0 && s2 == 0 && s3 == 0) || (s0
        == 0x0064 && s1 == 0xff9b && s2 == 0 && s3 == 0 && s4 == 0 && s5 == 0
        && is_prohibited_embedded(s6, s7)) || (s0 == 0x0064 && s1 == 0xff9b && s2 == 1) || (s0
        == 0x2001 && s1 == 0) || (s0 == 0x2001 && s1 == 2) || (s0 == 0x2001 && (s1 & 0xfff0)
        == 0x0010) || (s0 == 0x2001 && (s1 & 0xfff0) == 0x0020) || (s0 == 0x2001 && s1 == 0x0db8)
        || s0 == 0x2002 || (s0 == 0x3fff && (s1 & 0xf000) == 0) || s0 == 0x3ffe || s0 == 0x5f00
}

/// Whether the address lies in a range that no request may reach.
pub fn is_prohibited_ip(ip: IpAddress) -> (r: bool)
    ensures
        r == prohibited(ip),
{
    match ip {
        IpAddress::V4(a, b, c, d) => is_prohibited_v4(a, b, c, d),
        IpAddress::V6(s0, s1, s2, s3, s4, s5, s6, s7) => is_prohibited_v6(
            s0,
            s1,
            s2,
            s3,
            s4,
            s5,
            s6,
            s7,
        ),
    }
}

/// The number that up to three decimal digits without a leading zero denote,
/// where it fits in an octet.
pub open spec fn octet(part: Seq<char>) -> Option<u8> {
    let digits = forall|i: int| 0 <= i < part.len() ==> is_digit(#[trigger] part[i]);
    let value = if part.len() == 1 {
        part[0] as u32 - 48
    } else if part.len() == 2 {
        (part[0] as u32 - 48) * 10 + (part[1] as u32 - 48)
    } else {
        (part[0] as u32 - 48) * 100 + (part[1] as u32 - 48) * 10 + (part[2] as u32 - 48)
    };
    if 1 <= part.len() <= 3 && digits && (part.len() == 1 || part[0] != '0') && value <= 255 {
        Some(value as u8)
    } else {
        None
    }
}

/// The version 4 address that a host denotes in dotted decimal notation.
pub open spec fn v4_literal(host: Seq<char>) -> Option<IpAddress> {
    let parts = split(host, '.');
    if parts.len() == 4 {
        match (octet(parts[0]), octet(parts[1]), octet(parts[2]), octet(parts[3])) {
            (Some(a), Some(b), Some(c), Some(d)) => Some(IpAddress::V4(a, b, c, d)),
            _ => None,
        }
    } else {
        None
    }
}

fn octet_of(part: &Vec<char>) -> (r: Option<u8>)
    ensures
        r == octet(part@),
{
    if part.len() < 1 || part.len() > 3 {
        return None;
    }
    let mut value: u32 = 0;
    let mut i: usize = 0;
    while i < part.len()
        invariant
            i <= part@.len() <= 3,
            forall|k: int| 0 <= k < i ==> is_digit(#[trigger] part@[k]),
            i == 0 ==> value == 0,
            i == 1 ==> value == part@[0] as u32 - 48,
            i == 2 ==> value == (part@[0] as u32 - 48) * 10 + (part@[1] as u32 - 48),
            i == 3 ==> value == (part@[0] as u32 - 48) * 100 + (part@[1] as u32 - 48) * 10 + (
            part@[2] as u32 - 48),
            value <= 999,
        decreases part@.len() - i,
    {
        if !digit(part[i]) {
            return None;
        }
        proof {
            assert(is_digit(part@[i as int]));
        }
        value = value * 10 + (part[i] as u32 - 48);
        i = i + 1;
    }
    if (part.len() > 1 && part[0] == '0') || value > 255 {
        return None;
    }
    Some(value as u8)
}

pub fn v4_literal_of(host: &Vec<char>) -> (r: Option<IpAddress>)
    ensures
        r == v4_literal(host@),
{
    let parts = split_of(host, '.');
    proof {
        assert(texts(parts@).len() == parts@.len());
        assert(forall|i: int| 0 <= i < parts@.len() ==> texts(parts@)[i] == (#[trigger] parts@[i])@);
    }
    if parts.len() != 4 {
        return None;
    }
    match (octet_of(&parts[0]), octet_of(&parts[1]), octet_of(&parts[2]), octet_of(&parts[3])) {
        (Some(a), Some(b), Some(c), Some(d)) => Some(IpAddress::V4(a, b, c, d)),
        _ => None,
    }
}

/// Loopback, private and link-local addresses are prohibited in every form:
/// plain, mapped into version 6, and behind the translation prefix.
pub proof fn local_addresses_are_prohibited(b: u8, c: u8, d: u8, s6: u16, s7: u16)
    requires
        s6 / 256 == 127 || s6 / 256 == 10 || (s6 / 256 == 192 && s6 % 256 == 168) || (s6 / 256 == 169
            && s6 % 256 == 254),
    ensures
        prohibited(IpAddress::V4(127, b, c, d)),
        prohibited(IpAddress::V4(10, b, c, d)),
        prohibited(IpAddress::V4(192, 168, c, d)),
        prohibited(IpAddress::V4(169, 254, c, d)),
        prohibited(IpAddress::V6(0, 0, 0, 0, 0, 0xffff, s6, s7)),
        prohibited(IpAddress::V6(0x64, 0xff9b, 0, 0, 0, 0, s6, s7)),
        prohibited(IpAddress::V6(0, 0, 0, 0, 0, 0, 0, 1)),
{
}

} // verus!
