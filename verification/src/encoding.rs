//! The byte-level layout of the format, as pure specification
//! functions, together with the structural lemmas about them that the
//! encoders and the format laws rely on.
//!
//! Layout (all multi-byte values little-endian, all counted values
//! single bytes): an 8-byte header of two fixed 4-byte constants, then
//! zero or more sections, each `[kind tag][body length][entry count]`
//! followed by the entries.  A resource-limits entry is
//! `[flag][min][max?]`; an export entry is
//! `[name length][name bytes][kind tag][index]`.

use vstd::prelude::*;
use vstd::utf8::encode_utf8;

use crate::model::{export_type_tag, Export, Limits};

verus! {

/// First header field: the format's magic number (`\0asm`).
pub const MAGIC_NUMBER: u32 = 0x6d736100;

/// Second header field: the format version.
pub const VERSION: u32 = 0x00000001;

/// Section-kind tag of a resource (memory) section.
pub const MEMORY_SECTION: u8 = 0x05;

/// Section-kind tag of an export section.
pub const EXPORT_SECTION: u8 = 0x07;

/// The 4-byte little-endian encoding of a 32-bit value.
pub open spec fn u32_le_bytes(v: u32) -> Seq<u8> {
    seq![
        (v & 0xff) as u8,
        ((v >> 8) & 0xff) as u8,
        ((v >> 16) & 0xff) as u8,
        ((v >> 24) & 0xff) as u8,
    ]
}

/// The fixed 8-byte header: magic number, then version.
pub open spec fn header_bytes() -> Seq<u8> {
    u32_le_bytes(MAGIC_NUMBER) + u32_le_bytes(VERSION)
}

/// The encoding of one resource-limits entry: a presence flag for the
/// maximum, the minimum, and the maximum if present.
pub open spec fn limits_enc(l: Limits) -> Seq<u8> {
    match l.max {
        Some(m) => seq![1u8, l.min, m],
        None => seq![0u8, l.min],
    }
}

/// The concatenated encodings of a sequence of resource-limits
/// entries, in entry order.
pub open spec fn limits_entries(ms: Seq<Limits>) -> Seq<u8>
    decreases ms.len(),
{
    if ms.len() == 0 {
        Seq::<u8>::empty()
    } else {
        limits_enc(ms[0]) + limits_entries(ms.drop_first())
    }
}

/// The UTF-8 bytes an export's name is written as.
pub open spec fn name_bytes(e: Export) -> Seq<u8> {
    encode_utf8(e.name@)
}

/// The encoding of one export entry: one-byte name length, the raw
/// name bytes, the export-kind tag, and the index.
pub open spec fn export_enc(e: Export) -> Seq<u8> {
    seq![name_bytes(e).len() as u8] + name_bytes(e) + seq![
        export_type_tag(e.desc.export_type),
        e.desc.index,
    ]
}

/// An export entry is encodable exactly when its name's UTF-8 bytes
/// fit behind the one-byte length prefix.
pub open spec fn export_encodable(e: Export) -> bool {
    name_bytes(e).len() <= 255
}

/// The concatenated encodings of a sequence of export entries, in
/// entry order.
pub open spec fn export_entries(es: Seq<Export>) -> Seq<u8>
    decreases es.len(),
{
    if es.len() == 0 {
        Seq::<u8>::empty()
    } else {
        export_enc(es[0]) + export_entries(es.drop_first())
    }
}

/// A resource section is encodable exactly when its body (the entry
/// count byte plus all entries) fits the one-byte length field.
pub open spec fn memory_section_encodable(ms: Seq<Limits>) -> bool {
    1 + limits_entries(ms).len() <= 255
}

/// The complete encoding of a resource section: kind tag, body
/// length, entry count, entries.  Meaningful only for encodable
/// sequences (the casts truncate otherwise).
pub open spec fn memory_section_enc(ms: Seq<Limits>) -> Seq<u8> {
    seq![MEMORY_SECTION, (1 + limits_entries(ms).len()) as u8, ms.len() as u8]
        + limits_entries(ms)
}

/// An export section is encodable exactly when every entry is and the
/// body fits the one-byte length field.  (The body bound makes each
/// name bound redundant, but the conjunction states the contract the
/// entries rely on directly.)
pub open spec fn export_section_encodable(es: Seq<Export>) -> bool {
    &&& forall|i: int| 0 <= i < es.len() ==> export_encodable(#[trigger] es[i])
    &&& 1 + export_entries(es).len() <= 255
}

/// The complete encoding of an export section: kind tag, body length,
/// entry count, entries.
pub open spec fn export_section_enc(es: Seq<Export>) -> Seq<u8> {
    seq![EXPORT_SECTION, (1 + export_entries(es).len()) as u8, es.len() as u8]
        + export_entries(es)
}

/// Entry concatenation distributes over sequence concatenation.
pub proof fn lemma_limits_entries_app(a: Seq<Limits>, b: Seq<Limits>)
    ensures
        limits_entries(a + b) == limits_entries(a) + limits_entries(b),
    decreases a.len(),
{
    if a.len() == 0 {
        assert(a + b =~= b);
        assert(limits_entries(a) + limits_entries(b) =~= limits_entries(b));
    } else {
        assert((a + b).drop_first() =~= a.drop_first() + b);
        lemma_limits_entries_app(a.drop_first(), b);
        assert(limits_entries(a + b) =~= limits_entries(a) + limits_entries(b));
    }
}

/// Extending the encoded prefix by one entry appends that entry's
/// encoding.
pub proof fn lemma_limits_entries_take_succ(ms: Seq<Limits>, i: int)
    requires
        0 <= i < ms.len(),
    ensures
        limits_entries(ms.take(i + 1)) == limits_entries(ms.take(i)) + limits_enc(ms[i]),
{
    assert(ms.take(i + 1) =~= ms.take(i) + seq![ms[i]]);
    lemma_limits_entries_app(ms.take(i), seq![ms[i]]);
    assert(seq![ms[i]].drop_first() =~= Seq::<Limits>::empty());
    assert(limits_entries(Seq::<Limits>::empty()) =~= Seq::<u8>::empty());
    assert(limits_entries(seq![ms[i]]) =~= limits_enc(ms[i]));
}

/// Each entry takes 2 or 3 bytes, so the encoded entries take between
/// twice and three times the entry count.
pub proof fn lemma_limits_entries_len_bounds(ms: Seq<Limits>)
    ensures
        2 * ms.len() <= limits_entries(ms).len() <= 3 * ms.len(),
    decreases ms.len(),
{
    if ms.len() > 0 {
        lemma_limits_entries_len_bounds(ms.drop_first());
    }
}

/// Entry concatenation distributes over sequence concatenation.
pub proof fn lemma_export_entries_app(a: Seq<Export>, b: Seq<Export>)
    ensures
        export_entries(a + b) == export_entries(a) + export_entries(b),
    decreases a.len(),
{
    if a.len() == 0 {
        assert(a + b =~= b);
        assert(export_entries(a) + export_entries(b) =~= export_entries(b));
    } else {
        assert((a + b).drop_first() =~= a.drop_first() + b);
        lemma_export_entries_app(a.drop_first(), b);
        assert(export_entries(a + b) =~= export_entries(a) + export_entries(b));
    }
}

/// Extending the encoded prefix by one entry appends that entry's
/// encoding.
pub proof fn lemma_export_entries_take_succ(es: Seq<Export>, i: int)
    requires
        0 <= i < es.len(),
    ensures
        export_entries(es.take(i + 1)) == export_entries(es.take(i)) + export_enc(es[i]),
{
    assert(es.take(i + 1) =~= es.take(i) + seq![es[i]]);
    lemma_export_entries_app(es.take(i), seq![es[i]]);
    assert(seq![es[i]].drop_first() =~= Seq::<Export>::empty());
    assert(export_entries(Seq::<Export>::empty()) =~= Seq::<u8>::empty());
    assert(export_entries(seq![es[i]]) =~= export_enc(es[i]));
}

/// Each export entry takes at least 3 bytes (length, kind, index).
pub proof fn lemma_export_entries_len_lower(es: Seq<Export>)
    ensures
        3 * es.len() <= export_entries(es).len(),
    decreases es.len(),
{
    if es.len() > 0 {
        lemma_export_entries_len_lower(es.drop_first());
    }
}

/// Encoding a prefix of the entries never takes more bytes than
/// encoding all of them.
pub proof fn lemma_limits_entries_prefix_len(ms: Seq<Limits>, i: int)
    requires
        0 <= i <= ms.len(),
    ensures
        limits_entries(ms.take(i)).len() <= limits_entries(ms).len(),
{
    assert(ms =~= ms.take(i) + ms.skip(i));
    lemma_limits_entries_app(ms.take(i), ms.skip(i));
}

/// Encoding a prefix of the entries never takes more bytes than
/// encoding all of them.
pub proof fn lemma_export_entries_prefix_len(es: Seq<Export>, i: int)
    requires
        0 <= i <= es.len(),
    ensures
        export_entries(es.take(i)).len() <= export_entries(es).len(),
{
    assert(es =~= es.take(i) + es.skip(i));
    lemma_export_entries_app(es.take(i), es.skip(i));
}

/// The encoded entries split around any one entry: what precedes it,
/// its own encoding, and what follows it.
pub proof fn lemma_limits_entries_split(ms: Seq<Limits>, i: int)
    requires
        0 <= i < ms.len(),
    ensures
        limits_entries(ms) == limits_entries(ms.take(i)) + limits_enc(ms[i]) + limits_entries(
            ms.skip(i + 1),
        ),
{
    assert(ms =~= ms.take(i + 1) + ms.skip(i + 1));
    lemma_limits_entries_app(ms.take(i + 1), ms.skip(i + 1));
    lemma_limits_entries_take_succ(ms, i);
}

/// The encoded entries split around any one entry: what precedes it,
/// its own encoding, and what follows it.
pub proof fn lemma_export_entries_split(es: Seq<Export>, i: int)
    requires
        0 <= i < es.len(),
    ensures
        export_entries(es) == export_entries(es.take(i)) + export_enc(es[i]) + export_entries(
            es.skip(i + 1),
        ),
{
    assert(es =~= es.take(i + 1) + es.skip(i + 1));
    lemma_export_entries_app(es.take(i + 1), es.skip(i + 1));
    lemma_export_entries_take_succ(es, i);
}

} // verus!
