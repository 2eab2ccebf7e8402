//! The byte sink: an append-only growable buffer with primitive write
//! operations and the length-backpatch operation the section encoders
//! are built on.

use vstd::prelude::*;
use vstd::utf8::encode_utf8;

use crate::encoding::{u32_le_bytes, EXPORT_SECTION, MAGIC_NUMBER, MEMORY_SECTION, VERSION};
use crate::model::EncodingError;
use crate::sections::{section_enc, section_encodable, Section};

verus! {

/// A fixed protocol constant: one of the two 4-byte header fields, or
/// a single-byte section-kind tag.
#[derive(Clone, Copy, Debug)]
pub enum Opcode {
    MagicNumber,
    Version,
    MemorySection,
    ExportSection,
}

/// The bytes a protocol constant is written as.
pub open spec fn opcode_bytes(opcode: Opcode) -> Seq<u8> {
    match opcode {
        Opcode::MagicNumber => u32_le_bytes(MAGIC_NUMBER),
        Opcode::Version => u32_le_bytes(VERSION),
        Opcode::MemorySection => seq![MEMORY_SECTION],
        Opcode::ExportSection => seq![EXPORT_SECTION],
    }
}

/// The byte sink.  Bytes are only ever appended, or overwritten in
/// place by [`Emitter::write_length`], so every previously computed
/// offset into the buffer stays valid for backpatching.
pub struct Emitter {
    bytes: Vec<u8>,
}

impl View for Emitter {
    type V = Seq<u8>;

    closed spec fn view(&self) -> Seq<u8> {
        self.bytes@
    }
}

impl Emitter {
    /// An empty sink.
    pub fn new() -> (e: Emitter)
        ensures
            e@ == Seq::<u8>::empty(),
    {
        Emitter { bytes: Vec::new() }
    }

    /// A read-only view of everything written so far, handed to the
    /// caller once encoding is finished.
    pub fn as_slice(&self) -> (r: &[u8])
        ensures
            r@ == self@,
    {
        self.bytes.as_slice()
    }

    /// Hands the finished byte sequence to the caller, consuming the
    /// sink.
    pub fn into_bytes(self) -> (r: Vec<u8>)
        ensures
            r@ == self@,
    {
        self.bytes
    }

    /// Appends one byte.
    pub fn push_u8(&mut self, byte: u8)
        ensures
            final(self)@ == old(self)@.push(byte),
    {
        self.bytes.push(byte);
    }

    /// Appends the 4-byte little-endian encoding of `value`.
    pub fn push_u32(&mut self, value: u32)
        ensures
            final(self)@ == old(self)@ + u32_le_bytes(value),
    {
        self.bytes.push((value & 0xff) as u8);
        self.bytes.push(((value >> 8) & 0xff) as u8);
        self.bytes.push(((value >> 16) & 0xff) as u8);
        self.bytes.push(((value >> 24) & 0xff) as u8);
        proof {
            assert(self.bytes@ =~= old(self)@ + u32_le_bytes(value));
        }
    }

    /// Appends the raw UTF-8 bytes of `string`: no length prefix and
    /// no terminator, so the caller must already have written (or
    /// reserved) any preceding length field.
    pub fn push_str(&mut self, string: &str)
        ensures
            final(self)@ == old(self)@ + encode_utf8(string@),
    {
        let bytes = string.as_bytes();
        let n = bytes.len();
        let mut i: usize = 0;
        while i < n
            invariant
                i <= n,
                n == bytes@.len(),
                bytes@ == encode_utf8(string@),
                self@ == old(self)@ + bytes@.take(i as int),
            decreases n - i,
        {
            let b = bytes[i];
            self.bytes.push(b);
            proof {
                assert(self.bytes@ =~= old(self)@ + bytes@.take(i + 1));
            }
            i = i + 1;
        }
        proof {
            assert(bytes@.take(n as int) =~= bytes@);
        }
    }

    /// Writes the fixed bytes of one protocol constant.
    pub fn push_opcode(&mut self, opcode: Opcode)
        ensures
            final(self)@ == old(self)@ + opcode_bytes(opcode),
    {
        match opcode {
            Opcode::MagicNumber => self.push_u32(MAGIC_NUMBER),
            Opcode::Version => self.push_u32(VERSION),
            Opcode::MemorySection => {
                self.push_u8(MEMORY_SECTION);
                proof {
                    assert(self@ =~= old(self)@ + opcode_bytes(opcode));
                }
            },
            Opcode::ExportSection => {
                self.push_u8(EXPORT_SECTION);
                proof {
                    assert(self@ =~= old(self)@ + opcode_bytes(opcode));
                }
            },
        }
    }

    /// Encodes one section descriptor, whichever kind it holds, at
    /// the current end of the sink.  Rejects a section whose body
    /// does not fit its one-byte length field without writing
    /// anything.
    pub fn push_section(&mut self, section: Section) -> (r: Result<(), EncodingError>)
        ensures
            section_encodable(section) ==> r == Ok::<(), EncodingError>(()) && final(self)@ == old(
                self,
            )@ + section_enc(section),
            !section_encodable(section) ==> r == Err::<(), EncodingError>(EncodingError::Overflow)
                && final(self)@ == old(self)@,
    {
        match section.emit(self) {
            Ok(_) => Ok(()),
            Err(e) => Err(e),
        }
    }

    /// Resolves a length placeholder: overwrites the byte `length + 1`
    /// positions before the current end with `length`.  The format
    /// puts a byte-count prefix before content whose length is only
    /// known after encoding it; a section encoder reserves the prefix
    /// byte, writes exactly `length` bytes of body, and then patches
    /// the reserved byte through this operation.  The postcondition
    /// pins the patched position exactly, so each section encoder
    /// proves that the byte it overwrites is its own placeholder.
    pub fn write_length(&mut self, length: u8)
        requires
            length + 1 <= old(self)@.len(),
        ensures
            final(self)@ == old(self)@.update(old(self)@.len() - (length + 1), length),
    {
        let len = self.bytes.len();
        let idx = len - (length as usize + 1);
        self.bytes[idx] = length;
    }
}

} // verus!
