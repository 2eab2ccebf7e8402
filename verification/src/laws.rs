//! The format's structural guarantees, stated and proved once over
//! the pure encoding functions that every encoder's contract is
//! written against.

use vstd::prelude::*;

use crate::encoding::{
    export_enc, export_encodable, export_entries, export_section_enc, header_bytes,
    lemma_export_entries_split, lemma_limits_entries_split, limits_enc, limits_entries,
    memory_section_enc, name_bytes, EXPORT_SECTION, MEMORY_SECTION,
};
use crate::model::{Export, Limits};
use crate::sections::{
    lemma_sections_enc_split, lemma_sections_enc_take_succ, module_enc, module_encodable,
    section_enc, section_encodable, sections_enc, Section,
};

verus! {

/// The two header fields spelled out byte for byte: the magic number
/// `\0asm` and version 1, both little-endian.
pub proof fn lemma_header_bytes_value()
    ensures
        header_bytes() == seq![0x00u8, 0x61u8, 0x73u8, 0x6du8, 0x01u8, 0x00u8, 0x00u8, 0x00u8],
{
    assert((0x6d736100u32 & 0xff) == 0x00) by (bit_vector);
    assert(((0x6d736100u32 >> 8) & 0xff) == 0x61) by (bit_vector);
    assert(((0x6d736100u32 >> 16) & 0xff) == 0x73) by (bit_vector);
    assert(((0x6d736100u32 >> 24) & 0xff) == 0x6d) by (bit_vector);
    assert((0x00000001u32 & 0xff) == 0x01) by (bit_vector);
    assert(((0x00000001u32 >> 8) & 0xff) == 0x00) by (bit_vector);
    assert(((0x00000001u32 >> 16) & 0xff) == 0x00) by (bit_vector);
    assert(((0x00000001u32 >> 24) & 0xff) == 0x00) by (bit_vector);
    assert(header_bytes() =~= seq![
        0x00u8,
        0x61u8,
        0x73u8,
        0x6du8,
        0x01u8,
        0x00u8,
        0x00u8,
        0x00u8,
    ]);
}

/// Every encoded module starts with the fixed 8-byte header, whatever
/// sections it holds.
pub proof fn lemma_header_fixed(ss: Seq<Section>)
    ensures
        module_enc(ss).len() >= 8,
        module_enc(ss).subrange(0, 8) == header_bytes(),
{
    assert(module_enc(ss).subrange(0, 8) =~= header_bytes());
}

/// In every encodable section's encoding, the byte at the
/// length-placeholder offset equals exactly the number of bytes that
/// follow it within the section.
pub proof fn lemma_section_length_byte(s: Section)
    requires
        section_encodable(s),
    ensures
        3 <= section_enc(s).len() <= 257,
        section_enc(s)[1] == section_enc(s).len() - 2,
{
    match s {
        Section::MemorySection(m) => {
            assert(section_enc(s)[1] == (1 + limits_entries(m@).len()) as u8);
        },
        Section::ExportSection(e) => {
            assert(section_enc(s)[1] == (1 + export_entries(e@).len()) as u8);
        },
    }
}

/// The byte offset at which section `i` of an encoded module begins.
pub open spec fn section_offset(ss: Seq<Section>, i: int) -> int {
    8 + sections_enc(ss.take(i)).len() as int
}

/// Section `i` of an encoded module occupies its own segment of the
/// output: the bytes from its offset up to the offset of the next
/// section are exactly its own encoding, independent of the
/// surrounding sections.
pub proof fn lemma_module_section_segment(ss: Seq<Section>, i: int)
    requires
        0 <= i < ss.len(),
    ensures
        section_offset(ss, i + 1) == section_offset(ss, i) + section_enc(ss[i]).len(),
        section_offset(ss, i + 1) <= module_enc(ss).len(),
        module_enc(ss).subrange(section_offset(ss, i), section_offset(ss, i + 1)) == section_enc(
            ss[i],
        ),
{
    lemma_sections_enc_take_succ(ss, i);
    lemma_sections_enc_split(ss, i);
    assert(module_enc(ss).subrange(section_offset(ss, i), section_offset(ss, i + 1)) =~=
        section_enc(ss[i]));
}

/// In an encoded module, each section's length byte equals exactly
/// the number of bytes that follow it up to the start of the next
/// section (or, for the last section, the end of the buffer).
pub proof fn lemma_module_length_byte(ss: Seq<Section>, i: int)
    requires
        module_encodable(ss),
        0 <= i < ss.len(),
    ensures
        module_enc(ss)[section_offset(ss, i) + 1] == section_offset(ss, i + 1) - (section_offset(
            ss,
            i,
        ) + 2),
        i == ss.len() - 1 ==> section_offset(ss, i + 1) == module_enc(ss).len(),
{
    lemma_module_section_segment(ss, i);
    lemma_section_length_byte(ss[i]);
    if i == ss.len() - 1 {
        assert(ss.take(i + 1) =~= ss);
    }
}

/// Encoding is a pure function of the entity values: equal inputs
/// give byte-identical output, so encoding the same input twice can
/// never differ.
pub proof fn lemma_encoding_deterministic(a: Seq<Section>, b: Seq<Section>)
    requires
        a == b,
    ensures
        module_enc(a) == module_enc(b),
{
}

/// The byte offset at which entry `i` begins within the encoded
/// entries of a resource section.
pub open spec fn limits_entry_offset(ms: Seq<Limits>, i: int) -> int {
    limits_entries(ms.take(i)).len() as int
}

/// Each resource-limits entry encodes to bytes that depend on that
/// entry alone, placed after the encodings of the entries before it.
/// Permuting the entries therefore permutes the encoded segments
/// identically: only positions change, never an entry's bytes.
pub proof fn lemma_limits_entry_segment(ms: Seq<Limits>, i: int)
    requires
        0 <= i < ms.len(),
    ensures
        limits_entries(ms).subrange(
            limits_entry_offset(ms, i),
            limits_entry_offset(ms, i) + limits_enc(ms[i]).len(),
        ) == limits_enc(ms[i]),
{
    lemma_limits_entries_split(ms, i);
    assert(limits_entries(ms).subrange(
        limits_entry_offset(ms, i),
        limits_entry_offset(ms, i) + limits_enc(ms[i]).len(),
    ) =~= limits_enc(ms[i]));
}

/// The byte offset at which entry `i` begins within the encoded
/// entries of an export section.
pub open spec fn export_entry_offset(es: Seq<Export>, i: int) -> int {
    export_entries(es.take(i)).len() as int
}

/// Each export entry encodes to bytes that depend on that entry
/// alone, placed after the encodings of the entries before it.
/// Permuting the entries therefore permutes the encoded segments
/// identically: only positions change, never an entry's bytes.
pub proof fn lemma_export_entry_segment(es: Seq<Export>, i: int)
    requires
        0 <= i < es.len(),
    ensures
        export_entries(es).subrange(
            export_entry_offset(es, i),
            export_entry_offset(es, i) + export_enc(es[i]).len(),
        ) == export_enc(es[i]),
{
    lemma_export_entries_split(es, i);
    assert(export_entries(es).subrange(
        export_entry_offset(es, i),
        export_entry_offset(es, i) + export_enc(es[i]).len(),
    ) =~= export_enc(es[i]));
}

/// A section with zero entries is always encodable and encodes as
/// its kind tag, a body length of exactly 1, and an entry-count byte
/// of 0.
pub proof fn lemma_empty_sections()
    ensures
        memory_section_enc(Seq::<Limits>::empty()) == seq![MEMORY_SECTION, 1u8, 0u8],
        export_section_enc(Seq::<Export>::empty()) == seq![EXPORT_SECTION, 1u8, 0u8],
{
    assert(memory_section_enc(Seq::<Limits>::empty()) =~= seq![MEMORY_SECTION, 1u8, 0u8]);
    assert(export_section_enc(Seq::<Export>::empty()) =~= seq![EXPORT_SECTION, 1u8, 0u8]);
}

/// An encodable export entry's first byte is exactly its name's
/// UTF-8 byte length: a 255-byte name encodes with length byte 0xFF.
/// (A longer name is not encodable and is rejected by the encoders.)
pub proof fn lemma_name_length_byte(e: Export)
    requires
        export_encodable(e),
    ensures
        export_enc(e)[0] == name_bytes(e).len(),
{
}

} // verus!
