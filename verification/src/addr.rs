//! The SOCKS5 target-address field: decoding it into a structured target,
//! encoding a target back into the field, and spelling a target as the text
//! an outbound TCP connector accepts.
//!
//! The field starts at the address-type octet: `0x01` is followed by four
//! IPv4 address bytes and a two-byte big-endian port, `0x03` by a length
//! byte, that many UTF-8 name bytes and the port, and `0x04` by sixteen IPv6
//! address bytes and the port.  Any other type octet is unsupported; any
//! length or content violation is malformed.

use vstd::prelude::*;
use vstd::utf8::decode_utf8;
use vstd::utf8::valid_utf8;
use vstd::utf8::valid_utf8_concat;

use crate::text::dec_digits;
use crate::text::hex_digits;
use crate::text::push_dec_u16;
use crate::text::push_hex_u16;
use crate::wire::be16;
use crate::wire::be16_hi;
use crate::wire::be16_lo;
use crate::wire::read_u16_be_at;
use crate::wire::string_from_utf8;
use crate::wire::utf8_check;

verus! {

/// The mathematical model of a decoded connect target.
#[verifier::ext_equal]
pub enum TargetSpec {
    V4 { addr: Seq<u8>, port: u16 },
    V6 { groups: Seq<u16>, port: u16 },
    Domain { name: Seq<u8>, port: u16 },
}

impl TargetSpec {
    /// A well-formed target: the address has its fixed width, and a domain
    /// name fits its length byte and is valid UTF-8.
    pub open spec fn wf(self) -> bool {
        match self {
            TargetSpec::V4 { addr, .. } => addr.len() == 4,
            TargetSpec::V6 { groups, .. } => groups.len() == 8,
            TargetSpec::Domain { name, .. } => name.len() <= 255 && valid_utf8(name),
        }
    }
}

/// A decoded connect target: an IPv4 address, an IPv6 address given as its
/// eight 16-bit groups, or a domain name, each with a port.
pub enum TargetAddress {
    V4 { addr: Vec<u8>, port: u16 },
    V6 { groups: Vec<u16>, port: u16 },
    Domain { name: Vec<u8>, port: u16 },
}

impl View for TargetAddress {
    type V = TargetSpec;

    open spec fn view(&self) -> TargetSpec {
        match self {
            TargetAddress::V4 { addr, port } => TargetSpec::V4 { addr: addr@, port: *port },
            TargetAddress::V6 { groups, port } => TargetSpec::V6 {
                groups: groups@,
                port: *port,
            },
            TargetAddress::Domain { name, port } => TargetSpec::Domain {
                name: name@,
                port: *port,
            },
        }
    }
}

/// The model of a decoder outcome.
#[verifier::ext_equal]
pub enum DecodeSpec {
    Target(TargetSpec),
    UnsupportedAddressType,
    MalformedRequest,
}

/// What the decoder returns: a target, an address type this crate does not
/// speak, or a structurally invalid field.
pub enum DecodeOutcome {
    Target(TargetAddress),
    UnsupportedAddressType,
    MalformedRequest,
}

impl View for DecodeOutcome {
    type V = DecodeSpec;

    open spec fn view(&self) -> DecodeSpec {
        match self {
            DecodeOutcome::Target(t) => DecodeSpec::Target(t@),
            DecodeOutcome::UnsupportedAddressType => DecodeSpec::UnsupportedAddressType,
            DecodeOutcome::MalformedRequest => DecodeSpec::MalformedRequest,
        }
    }
}

/// What decoding a target-address field yields, byte for byte.
pub open spec fn decode_addr_spec(b: Seq<u8>) -> DecodeSpec {
    if b.len() < 1 {
        DecodeSpec::MalformedRequest
    } else if b[0] == 1 {
        if b.len() == 7 {
            DecodeSpec::Target(
                TargetSpec::V4 { addr: b.subrange(1, 5), port: be16(b[5], b[6]) },
            )
        } else {
            DecodeSpec::MalformedRequest
        }
    } else if b[0] == 3 {
        if b.len() >= 2 && b.len() == 4 + (b[1] as int) && valid_utf8(
            b.subrange(2, 2 + (b[1] as int)),
        ) {
            DecodeSpec::Target(
                TargetSpec::Domain {
                    name: b.subrange(2, 2 + (b[1] as int)),
                    port: be16(b[2 + (b[1] as int)], b[3 + (b[1] as int)]),
                },
            )
        } else {
            DecodeSpec::MalformedRequest
        }
    } else if b[0] == 4 {
        if b.len() == 19 {
            DecodeSpec::Target(
                TargetSpec::V6 {
                    groups: Seq::new(8, |i: int| be16(b[1 + 2 * i], b[2 + 2 * i])),
                    port: be16(b[17], b[18]),
                },
            )
        } else {
            DecodeSpec::MalformedRequest
        }
    } else {
        DecodeSpec::UnsupportedAddressType
    }
}

/// Decodes a target-address field, handed as the bytes from the
/// address-type octet to the end of the request.
pub fn decode_addr(buf: &[u8]) -> (r: DecodeOutcome)
    ensures
        r@ == decode_addr_spec(buf@),
        r@ matches DecodeSpec::Target(t) ==> t.wf(),
{
    let len: usize = buf.len();
    if len < 1 {
        return DecodeOutcome::MalformedRequest;
    }
    let atyp: u8 = buf[0];
    if atyp == 1 {
        if len != 7 {
            return DecodeOutcome::MalformedRequest;
        }
        let mut addr: Vec<u8> = Vec::new();
        addr.push(buf[1]);
        addr.push(buf[2]);
        addr.push(buf[3]);
        addr.push(buf[4]);
        let port: u16 = read_u16_be_at(buf, 5);
        proof {
            assert(addr@ =~= buf@.subrange(1, 5));
        }
        DecodeOutcome::Target(TargetAddress::V4 { addr, port })
    } else if atyp == 3 {
        if len < 2 {
            return DecodeOutcome::MalformedRequest;
        }
        let n: usize = buf[1] as usize;
        if len != 4 + n {
            return DecodeOutcome::MalformedRequest;
        }
        let mut name: Vec<u8> = Vec::new();
        let mut i: usize = 0;
        while i < n
            invariant
                i <= n,
                n + 4 == buf@.len(),
                n == buf@[1],
                name@ == buf@.subrange(2, 2 + i as int),
            decreases n - i,
        {
            name.push(buf[2 + i]);
            i = i + 1;
            proof {
                assert(name@ =~= buf@.subrange(2, 2 + i as int));
            }
        }
        if !utf8_check(name.as_slice()) {
            return DecodeOutcome::MalformedRequest;
        }
        let port: u16 = read_u16_be_at(buf, 2 + n);
        DecodeOutcome::Target(TargetAddress::Domain { name, port })
    } else if atyp == 4 {
        if len != 19 {
            return DecodeOutcome::MalformedRequest;
        }
        let mut groups: Vec<u16> = Vec::new();
        let mut i: usize = 0;
        while i < 8
            invariant
                i <= 8,
                buf@.len() == 19,
                groups@.len() == i as int,
                forall|j: int|
                    0 <= j < i as int ==> groups@[j] == be16(buf@[1 + 2 * j], buf@[2 + 2 * j]),
            decreases 8 - i,
        {
            let g: u16 = read_u16_be_at(buf, 1 + 2 * i);
            groups.push(g);
            i = i + 1;
        }
        let port: u16 = read_u16_be_at(buf, 17);
        proof {
            assert(groups@ =~= Seq::new(8, |i: int| be16(buf@[1 + 2 * i], buf@[2 + 2 * i])));
        }
        DecodeOutcome::Target(TargetAddress::V6 { groups, port })
    } else {
        DecodeOutcome::UnsupportedAddressType
    }
}

/// The target-address field that carries a given target.
pub open spec fn encode_addr_spec(t: TargetSpec) -> Seq<u8> {
    match t {
        TargetSpec::V4 { addr, port } => seq![1u8] + addr + seq![be16_hi(port), be16_lo(port)],
        TargetSpec::V6 { groups, port } => seq![4u8] + Seq::new(
            16,
            |i: int| if i % 2 == 0 {
                be16_hi(groups[i / 2])
            } else {
                be16_lo(groups[i / 2])
            },
        ) + seq![be16_hi(port), be16_lo(port)],
        TargetSpec::Domain { name, port } => seq![3u8, name.len() as u8] + name + seq![
            be16_hi(port),
            be16_lo(port),
        ],
    }
}

/// Encodes a target back into a target-address field.
pub fn encode_addr(t: &TargetAddress) -> (r: Vec<u8>)
    requires
        t@.wf(),
    ensures
        r@ == encode_addr_spec(t@),
{
    let mut out: Vec<u8> = Vec::new();
    match t {
        TargetAddress::V4 { addr, port } => {
            out.push(1);
            out.push(addr[0]);
            out.push(addr[1]);
            out.push(addr[2]);
            out.push(addr[3]);
            out.push((*port / 256) as u8);
            out.push((*port % 256) as u8);
            proof {
                assert(out@ =~= encode_addr_spec(t@));
            }
        },
        TargetAddress::V6 { groups, port } => {
            out.push(4);
            let mut i: usize = 0;
            while i < 8
                invariant
                    i <= 8,
                    groups@.len() == 8,
                    out@.len() == 1 + 2 * i as int,
                    out@[0] == 4u8,
                    forall|k: int|
                        1 <= k < 1 + 2 * i as int ==> #[trigger] out@[k] == (if (k - 1) % 2
                            == 0 {
                            be16_hi(groups@[(k - 1) / 2])
                        } else {
                            be16_lo(groups@[(k - 1) / 2])
                        }),
                decreases 8 - i,
            {
                let g: u16 = groups[i];
                out.push((g / 256) as u8);
                out.push((g % 256) as u8);
                i = i + 1;
            }
            proof {
                assert(out@ =~= seq![4u8] + Seq::new(
                    16,
                    |j: int| if j % 2 == 0 {
                        be16_hi(t@->V6_groups[j / 2])
                    } else {
                        be16_lo(t@->V6_groups[j / 2])
                    },
                ));
            }
            out.push((*port / 256) as u8);
            out.push((*port % 256) as u8);
            proof {
                assert(out@ =~= encode_addr_spec(t@));
            }
        },
        TargetAddress::Domain { name, port } => {
            out.push(3);
            out.push(name.len() as u8);
            let n: usize = name.len();
            let mut i: usize = 0;
            while i < n
                invariant
                    i <= n,
                    n == name@.len(),
                    n <= 255,
                    out@ == seq![3u8, n as u8] + name@.subrange(0, i as int),
                decreases n - i,
            {
                out.push(name[i]);
                i = i + 1;
                proof {
                    assert(out@ =~= seq![3u8, n as u8] + name@.subrange(0, i as int));
                }
            }
            out.push((*port / 256) as u8);
            out.push((*port % 256) as u8);
            proof {
                assert(out@ =~= encode_addr_spec(t@));
            }
        },
    }
    out
}

/// Decoding the field that encodes a well-formed target yields that target
/// back.
pub proof fn lemma_encode_decode_round_trip(t: TargetSpec)
    requires
        t.wf(),
    ensures
        decode_addr_spec(encode_addr_spec(t)) == DecodeSpec::Target(t),
{
    let b = encode_addr_spec(t);
    match t {
        TargetSpec::V4 { addr, port } => {
            assert(b.len() == 7);
            assert(b[0] == 1);
            assert(b.subrange(1, 5) =~= addr);
            crate::wire::lemma_be16_round_trip(port);
            assert(be16(b[5], b[6]) == port);
        },
        TargetSpec::V6 { groups, port } => {
            let inner = Seq::new(
                16,
                |i: int| if i % 2 == 0 {
                    be16_hi(groups[i / 2])
                } else {
                    be16_lo(groups[i / 2])
                },
            );
            assert(b.len() == 19);
            assert(b[0] == 4);
            let decoded = Seq::new(8, |i: int| be16(b[1 + 2 * i], b[2 + 2 * i]));
            assert forall|i: int| 0 <= i < 8 implies decoded[i] == groups[i] by {
                assert(b[1 + 2 * i] == inner[2 * i]);
                assert(b[2 + 2 * i] == inner[2 * i + 1]);
                assert(inner[2 * i] == be16_hi(groups[i]));
                assert(inner[2 * i + 1] == be16_lo(groups[i]));
                crate::wire::lemma_be16_round_trip(groups[i]);
            }
            assert(decoded =~= groups);
            crate::wire::lemma_be16_round_trip(port);
            assert(be16(b[17], b[18]) == port);
        },
        TargetSpec::Domain { name, port } => {
            let n: int = name.len() as int;
            assert(b.len() == 4 + n);
            assert(b[0] == 3);
            assert(b[1] == n as u8);
            assert(b.subrange(2, 2 + n) =~= name);
            crate::wire::lemma_be16_round_trip(port);
            assert(be16(b[2 + n], b[3 + n]) == port);
        },
    }
}

/// The textual spelling of a target, as UTF-8 bytes: dotted decimal for
/// IPv4, bracketed lowercase hexadecimal groups for IPv6, the name itself
/// for a domain, each followed by a colon and the decimal port.
pub open spec fn addr_text_spec(t: TargetSpec) -> Seq<u8> {
    match t {
        TargetSpec::V4 { addr, port } => dec_digits(addr[0] as int) + seq![46u8] + dec_digits(
            addr[1] as int,
        ) + seq![46u8] + dec_digits(addr[2] as int) + seq![46u8] + dec_digits(addr[3] as int)
            + seq![58u8] + dec_digits(port as int),
        TargetSpec::V6 { groups, port } => seq![91u8] + hex_digits(groups[0] as int) + seq![58u8]
            + hex_digits(groups[1] as int) + seq![58u8] + hex_digits(groups[2] as int)
            + seq![58u8] + hex_digits(groups[3] as int) + seq![58u8] + hex_digits(
            groups[4] as int,
        ) + seq![58u8] + hex_digits(groups[5] as int) + seq![58u8] + hex_digits(groups[6] as int)
            + seq![58u8] + hex_digits(groups[7] as int) + seq![93u8, 58u8] + dec_digits(
            port as int,
        ),
        TargetSpec::Domain { name, port } => name + seq![58u8] + dec_digits(port as int),
    }
}

/// The textual spelling of a well-formed target is valid UTF-8.
pub proof fn lemma_addr_text_valid(t: TargetSpec)
    requires
        t.wf(),
    ensures
        valid_utf8(addr_text_spec(t)),
{
    match t {
        TargetSpec::V4 { addr, port } => {
            let a0 = dec_digits(addr[0] as int);
            let a1 = dec_digits(addr[1] as int);
            let a2 = dec_digits(addr[2] as int);
            let a3 = dec_digits(addr[3] as int);
            let p = dec_digits(port as int);
            crate::text::lemma_dec_digits_valid_utf8(addr[0] as int);
            crate::text::lemma_dec_digits_valid_utf8(addr[1] as int);
            crate::text::lemma_dec_digits_valid_utf8(addr[2] as int);
            crate::text::lemma_dec_digits_valid_utf8(addr[3] as int);
            crate::text::lemma_dec_digits_valid_utf8(port as int);
            crate::text::lemma_ascii1_valid_utf8(46u8);
            crate::text::lemma_ascii1_valid_utf8(58u8);
            valid_utf8_concat(a0, seq![46u8]);
            valid_utf8_concat(a0 + seq![46u8], a1);
            valid_utf8_concat(a0 + seq![46u8] + a1, seq![46u8]);
            valid_utf8_concat(a0 + seq![46u8] + a1 + seq![46u8], a2);
            valid_utf8_concat(a0 + seq![46u8] + a1 + seq![46u8] + a2, seq![46u8]);
            valid_utf8_concat(a0 + seq![46u8] + a1 + seq![46u8] + a2 + seq![46u8], a3);
            valid_utf8_concat(a0 + seq![46u8] + a1 + seq![46u8] + a2 + seq![46u8] + a3, seq![58u8]);
            valid_utf8_concat(
                a0 + seq![46u8] + a1 + seq![46u8] + a2 + seq![46u8] + a3 + seq![58u8],
                p,
            );
        },
        TargetSpec::V6 { groups, port } => {
            let g0 = hex_digits(groups[0] as int);
            let g1 = hex_digits(groups[1] as int);
            let g2 = hex_digits(groups[2] as int);
            let g3 = hex_digits(groups[3] as int);
            let g4 = hex_digits(groups[4] as int);
            let g5 = hex_digits(groups[5] as int);
            let g6 = hex_digits(groups[6] as int);
            let g7 = hex_digits(groups[7] as int);
            let p = dec_digits(port as int);
            crate::text::lemma_hex_digits_valid_utf8(groups[0] as int);
            crate::text::lemma_hex_digits_valid_utf8(groups[1] as int);
            crate::text::lemma_hex_digits_valid_utf8(groups[2] as int);
            crate::text::lemma_hex_digits_valid_utf8(groups[3] as int);
            crate::text::lemma_hex_digits_valid_utf8(groups[4] as int);
            crate::text::lemma_hex_digits_valid_utf8(groups[5] as int);
            crate::text::lemma_hex_digits_valid_utf8(groups[6] as int);
            crate::text::lemma_hex_digits_valid_utf8(groups[7] as int);
            crate::text::lemma_dec_digits_valid_utf8(port as int);
            crate::text::lemma_ascii1_valid_utf8(91u8);
            crate::text::lemma_ascii1_valid_utf8(58u8);
            crate::text::lemma_ascii_valid_utf8(seq![93u8, 58u8]);
            let s1 = seq![91u8] + g0;
            valid_utf8_concat(seq![91u8], g0);
            let s2 = s1 + seq![58u8];
            valid_utf8_concat(s1, seq![58u8]);
            let s3 = s2 + g1;
            valid_utf8_concat(s2, g1);
            let s4 = s3 + seq![58u8];
            valid_utf8_concat(s3, seq![58u8]);
            let s5 = s4 + g2;
            valid_utf8_concat(s4, g2);
            let s6 = s5 + seq![58u8];
            valid_utf8_concat(s5, seq![58u8]);
            let s7 = s6 + g3;
            valid_utf8_concat(s6, g3);
            let s8 = s7 + seq![58u8];
            valid_utf8_concat(s7, seq![58u8]);
            let s9 = s8 + g4;
            valid_utf8_concat(s8, g4);
            let s10 = s9 + seq![58u8];
            valid_utf8_concat(s9, seq![58u8]);
            let s11 = s10 + g5;
            valid_utf8_concat(s10, g5);
            let s12 = s11 + seq![58u8];
            valid_utf8_concat(s11, seq![58u8]);
            let s13 = s12 + g6;
            valid_utf8_concat(s12, g6);
            let s14 = s13 + seq![58u8];
            valid_utf8_concat(s13, seq![58u8]);
            let s15 = s14 + g7;
            valid_utf8_concat(s14, g7);
            let s16 = s15 + seq![93u8, 58u8];
            valid_utf8_concat(s15, seq![93u8, 58u8]);
            valid_utf8_concat(s16, p);
        },
        TargetSpec::Domain { name, port } => {
            let p = dec_digits(port as int);
            crate::text::lemma_dec_digits_valid_utf8(port as int);
            crate::text::lemma_ascii1_valid_utf8(58u8);
            valid_utf8_concat(name, seq![58u8]);
            valid_utf8_concat(name + seq![58u8], p);
        },
    }
}

/// Spells a target as address text: `a.b.c.d:port`, `[h:h:h:h:h:h:h:h]:port`
/// or `name:port`.
pub fn addr_text(t: &TargetAddress) -> (r: Vec<u8>)
    requires
        t@.wf(),
    ensures
        r@ == addr_text_spec(t@),
        valid_utf8(r@),
{
    let mut out: Vec<u8> = Vec::new();
    match t {
        TargetAddress::V4 { addr, port } => {
            push_dec_u16(&mut out, addr[0] as u16);
            out.push(46);
            push_dec_u16(&mut out, addr[1] as u16);
            out.push(46);
            push_dec_u16(&mut out, addr[2] as u16);
            out.push(46);
            push_dec_u16(&mut out, addr[3] as u16);
            out.push(58);
            push_dec_u16(&mut out, *port);
            proof {
                assert(out@ =~= addr_text_spec(t@));
            }
        },
        TargetAddress::V6 { groups, port } => {
            out.push(91);
            push_hex_u16(&mut out, groups[0]);
            out.push(58);
            push_hex_u16(&mut out, groups[1]);
            out.push(58);
            push_hex_u16(&mut out, groups[2]);
            out.push(58);
            push_hex_u16(&mut out, groups[3]);
            out.push(58);
            push_hex_u16(&mut out, groups[4]);
            out.push(58);
            push_hex_u16(&mut out, groups[5]);
            out.push(58);
            push_hex_u16(&mut out, groups[6]);
            out.push(58);
            push_hex_u16(&mut out, groups[7]);
            out.push(93);
            out.push(58);
            push_dec_u16(&mut out, *port);
            proof {
                assert(out@ =~= addr_text_spec(t@));
            }
        },
        TargetAddress::Domain { name, port } => {
            let n: usize = name.len();
            let mut i: usize = 0;
            while i < n
                invariant
                    i <= n,
                    n == name@.len(),
                    out@ == name@.subrange(0, i as int),
                decreases n - i,
            {
                out.push(name[i]);
                i = i + 1;
                proof {
                    assert(out@ =~= name@.subrange(0, i as int));
                }
            }
            proof {
                assert(out@ =~= name@);
            }
            out.push(58);
            push_dec_u16(&mut out, *port);
            proof {
                assert(out@ =~= addr_text_spec(t@));
            }
        },
    }
    proof {
        lemma_addr_text_valid(t@);
    }
    out
}

/// Spells a target as the address string handed to the outbound TCP
/// connector.
pub fn connect_string(t: &TargetAddress) -> (r: String)
    requires
        t@.wf(),
    ensures
        r@ == decode_utf8(addr_text_spec(t@)),
{
    let bytes: Vec<u8> = addr_text(t);
    string_from_utf8(bytes)
}

} // verus!
