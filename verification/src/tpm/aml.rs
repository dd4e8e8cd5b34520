//! Encoding of the ACPI Machine Language terms that the TPM's device node is
//! made of.

use crate::bytes::{be_bytes, le_bytes};
use vstd::prelude::*;

verus! {

/// A package length: one byte below 64, else four bits in a lead byte and
/// eight in the next. The length counts its own bytes.
pub open spec fn pkg_length(body_len: nat) -> Seq<u8> {
    if body_len < 63 {
        seq![(body_len + 1) as u8]
    } else {
        seq![(0x40 + (body_len + 2) % 16) as u8, ((body_len + 2) / 16) as u8]
    }
}

/// A package: its length and its body.
pub open spec fn pkg(body: Seq<u8>) -> Seq<u8> {
    pkg_length(body.len()) + body
}

/// An integer constant below 256.
pub open spec fn integer(n: u8) -> Seq<u8> {
    if n == 0 || n == 1 {
        seq![n]
    } else {
        seq![0x0au8, n]
    }
}

/// A string constant.
pub open spec fn string(chars: Seq<u8>) -> Seq<u8> {
    seq![0x0du8] + chars + seq![0u8]
}

/// `Buffer(n) { bytes }` with fewer than 256 bytes.
pub open spec fn buffer(bytes: Seq<u8>) -> Seq<u8> {
    seq![0x11u8] + pkg(integer(bytes.len() as u8) + bytes)
}

/// `Package(n) { 0, .., 0 }`.
pub open spec fn zero_package(n: u8) -> Seq<u8> {
    seq![0x12u8] + pkg(seq![n] + crate::bytes::zeros(n as nat))
}

/// `Name(name, object)`.
pub open spec fn name(name: Seq<u8>, object: Seq<u8>) -> Seq<u8> {
    seq![0x08u8] + name + object
}

/// `Scope(name) { body }`.
pub open spec fn scope(name: Seq<u8>, body: Seq<u8>) -> Seq<u8> {
    seq![0x10u8] + pkg(name + body)
}

/// `Device(name) { body }`.
pub open spec fn device(name: Seq<u8>, body: Seq<u8>) -> Seq<u8> {
    seq![0x5bu8, 0x82u8] + pkg(name + body)
}

/// `Method(name, args, ..) { body }`.
pub open spec fn method(name: Seq<u8>, args: u8, serialized: bool, body: Seq<u8>) -> Seq<u8> {
    let flags = if serialized {
        (args + 8) as u8
    } else {
        args
    };
    seq![0x14u8] + pkg(name + seq![flags] + body)
}

/// `Return(object)`.
pub open spec fn ret(object: Seq<u8>) -> Seq<u8> {
    seq![0xa4u8] + object
}

/// `If(condition) { body }`.
pub open spec fn if_then(condition: Seq<u8>, body: Seq<u8>) -> Seq<u8> {
    seq![0xa0u8] + pkg(condition + body)
}

/// `Else { body }`.
pub open spec fn otherwise(body: Seq<u8>) -> Seq<u8> {
    seq![0xa1u8] + pkg(body)
}

/// `While(condition) { body }`.
pub open spec fn while_loop(condition: Seq<u8>, body: Seq<u8>) -> Seq<u8> {
    seq![0xa2u8] + pkg(condition + body)
}

/// `Break`.
pub open spec fn leave() -> Seq<u8> {
    seq![0xa5u8]
}

/// `LEqual(a, b)`.
pub open spec fn equal(a: Seq<u8>, b: Seq<u8>) -> Seq<u8> {
    seq![0x93u8] + a + b
}

/// `Store(object, target)`.
pub open spec fn store(object: Seq<u8>, target: Seq<u8>) -> Seq<u8> {
    seq![0x70u8] + object + target
}

/// `ToInteger(object)`.
pub open spec fn to_integer(object: Seq<u8>) -> Seq<u8> {
    seq![0x99u8] + object + seq![0u8]
}

/// `Arg0` to `Arg6`.
pub open spec fn arg(n: u8) -> Seq<u8> {
    seq![(0x68 + n) as u8]
}

/// `ToUUID(..)`: the five groups of the written form, the first three in
/// little-endian order and the last two in big-endian order.
pub open spec fn uuid(a: nat, b: nat, c: nat, d: nat, e: nat) -> Seq<u8> {
    buffer(le_bytes(a, 4) + le_bytes(b, 2) + le_bytes(c, 2) + be_bytes(d, 2) + be_bytes(e, 6))
}

/// `ResourceTemplate() { Memory32Fixed(ReadWrite, base, len) }`.
pub open spec fn memory32_fixed(base: nat, len: nat) -> Seq<u8> {
    buffer(
        seq![0x86u8] + le_bytes(9, 2) + seq![1u8] + le_bytes(base, 4) + le_bytes(len, 4) + seq![
            0x79u8,
            0u8,
        ],
    )
}

} // verus!
