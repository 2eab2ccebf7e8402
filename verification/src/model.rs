//! The encodable entities of the module format: resource limits and
//! export descriptors, together with the error type of the checked
//! encoders.

use vstd::prelude::*;

verus! {

/// An inclusive bound pair for a sized resource (for example a memory's
/// page count).  Both bounds must be representable in a single byte;
/// the types enforce that.  Whether `min <= max` holds is a semantic
/// question for the consumer of the format and is not enforced here.
#[derive(Clone, Copy, Debug)]
pub struct Limits {
    pub min: u8,
    pub max: Option<u8>,
}

/// The kind of entity an export descriptor refers to.
#[derive(Clone, Copy, Debug, PartialEq, Eq, Structural)]
pub enum ExportType {
    Function,
    Table,
    Memory,
    Global,
}

/// The single-byte tag that encodes an export kind.
pub open spec fn export_type_tag(t: ExportType) -> u8 {
    match t {
        ExportType::Function => 0x00,
        ExportType::Table => 0x01,
        ExportType::Memory => 0x02,
        ExportType::Global => 0x03,
    }
}

impl ExportType {
    /// The single-byte tag written for this export kind.
    pub fn tag_byte(self) -> (b: u8)
        ensures
            b == export_type_tag(self),
    {
        match self {
            ExportType::Function => 0x00,
            ExportType::Table => 0x01,
            ExportType::Memory => 0x02,
            ExportType::Global => 0x03,
        }
    }
}

/// A reference to an internal resource by kind and index.
#[derive(Clone, Copy, Debug)]
pub struct ExportDesc {
    pub export_type: ExportType,
    pub index: u8,
}

/// A binding from a human-readable name to an internal resource.
/// The name is written as its raw UTF-8 bytes behind a one-byte length
/// prefix, so only names whose UTF-8 encoding fits in 255 bytes are
/// encodable.
#[derive(Debug)]
pub struct Export {
    pub name: String,
    pub desc: ExportDesc,
}

/// The failure of a checked encoder: some counted quantity (entry
/// count, section body length, or export name length) does not fit in
/// the single byte the format gives it.
#[derive(Clone, Copy, Debug, PartialEq, Eq, Structural)]
pub enum EncodingError {
    Overflow,
}

} // verus!
