//! A register-based virtual machine and a two-pass assembler for its
//! textual assembly language.
//!
//! Source text is parsed into a `Program` of structured instructions,
//! assembled into a self-describing byte image (64-byte header, read-only
//! data segment, 4-byte fixed-width code), and executed by the `VM`.

use vstd::prelude::*;

pub mod assembler;
pub mod ext;
pub mod instruction;
pub mod parser;
pub mod symbols;
pub mod tokens;
pub mod vm;

verus! {

/// Total size in bytes of the image header.
pub const PIE_HEADER_LENGTH: usize = 64;

/// Magic bytes that open every valid image.
pub const PIE_HEADER_PREFIX: [u8; 4] = [0x45, 0x50, 0x49, 0x45];

/// The magic prefix as a sequence, for contracts.
pub open spec fn pie_prefix() -> Seq<u8> {
    seq![0x45u8, 0x50u8, 0x49u8, 0x45u8]
}

} // verus!
