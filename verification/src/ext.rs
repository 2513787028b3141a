//! The few places where the library leans on outside code: byte-order
//! conversion, the machine identifier, the core count, and string
//! emission. Each item's contract states exactly what is relied upon.

use std::io::Write;
use vstd::prelude::*;

verus! {

/// The value of four bytes read as a little-endian `u32`.
pub open spec fn le_u32(b: Seq<u8>) -> u32
    recommends
        b.len() == 4,
{
    (b[0] + b[1] * 0x100 + b[2] * 0x1_0000 + b[3] * 0x100_0000) as u32
}

/// The four little-endian bytes of a `u32`.
pub open spec fn u32_le_bytes(v: u32) -> Seq<u8> {
    seq![
        (v & 0xFF) as u8,
        ((v >> 8) & 0xFF) as u8,
        ((v >> 16) & 0xFF) as u8,
        ((v >> 24) & 0xFF) as u8,
    ]
}

/// Encoding a `u32` and reading the bytes back gives the value again.
pub proof fn lemma_le_u32_roundtrip(v: u32)
    ensures
        le_u32(u32_le_bytes(v)) == v,
{
    assert((((v & 0xFF) as u8) + (((v >> 8) & 0xFF) as u8) * 0x100 + (((v >> 16) & 0xFF) as u8)
        * 0x1_0000 + (((v >> 24) & 0xFF) as u8) * 0x100_0000) as u32 == v) by (bit_vector);
}

/// Relies on byteorder's `LittleEndian::read_u32`: reads the first four
/// bytes of the slice as a little-endian `u32`; panics only on slices
/// shorter than four bytes, which the precondition rules out.
#[verifier::external_body]
pub fn read_u32_le(bytes: &[u8]) -> (r: u32)
    requires
        bytes@.len() == 4,
    ensures
        r == le_u32(bytes@),
{
    <byteorder::LittleEndian as byteorder::ByteOrder>::read_u32(bytes)
}

/// Relies on byteorder's `WriteBytesExt::write_u32` with `LittleEndian`:
/// appends the four little-endian bytes of the value to the writer.
/// Writing into a `Vec` cannot fail, so the `unwrap` cannot panic.
#[verifier::external_body]
pub fn write_u32_le(v: u32) -> (r: Vec<u8>)
    ensures
        r@ == u32_le_bytes(v),
{
    let mut wtr: Vec<u8> = vec![];
    byteorder::WriteBytesExt::write_u32::<byteorder::LittleEndian>(&mut wtr, v).unwrap();
    wtr
}

#[verifier::external_type_specification]
#[verifier::external_body]
pub struct ExUuid(uuid::Uuid);

/// Relies on `uuid::Uuid::new_v4`: a freshly generated random identifier.
/// The result is random, so nothing is stated of it.
#[verifier::external_body]
pub fn new_vm_id() -> uuid::Uuid {
    uuid::Uuid::new_v4()
}

/// Relies on `uuid::Uuid`'s derived `Clone` on a `Copy` struct: the
/// clone is the same value.
pub assume_specification[ <uuid::Uuid as Clone>::clone ](u: &uuid::Uuid) -> (r: uuid::Uuid)
    ensures
        r == *u,
;

/// Relies on `num_cpus::get`: the number of logical cores of the running
/// machine, documented to always be at least 1.
#[verifier::external_body]
pub fn logical_core_count() -> (r: usize)
    ensures
        r >= 1,
{
    num_cpus::get()
}

/// Relies on `std::io::stdout`: decodes the bytes as UTF-8 and writes the
/// text to standard output; undecodable bytes are reported there instead.
#[verifier::external_body]
pub fn emit_utf8(bytes: &[u8]) {
    let mut out = std::io::stdout();
    match core::str::from_utf8(bytes) {
        Ok(s) => {
            let _ = write!(out, "{}", s);
        },
        Err(e) => {
            let _ = writeln!(out, "Error decoding string for prts instruction: {:#?}", e);
        },
    }
}

} // verus!
