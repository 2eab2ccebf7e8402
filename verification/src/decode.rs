//! A specification-level parser for the format, and the proof that it
//! inverts the encoder: decoding an encoded section reconstructs a
//! sequence with the same entry count, the same order, and the same
//! field values.  Nothing here is executable; parsing the format back
//! is not a goal of the library, but the round trip pins down that the
//! encoder writes exactly the layout a conformant reader expects.

use vstd::prelude::*;
use vstd::utf8::{decode_utf8, encode_utf8_decode_utf8};

use crate::encoding::{
    export_encodable, export_entries, export_section_enc, export_section_encodable,
    lemma_export_entries_len_lower, lemma_limits_entries_len_bounds, limits_entries,
    memory_section_enc, memory_section_encodable, name_bytes, EXPORT_SECTION, MEMORY_SECTION,
};
use crate::model::{export_type_tag, Export, ExportType, Limits};

verus! {

/// The export kind a tag byte stands for, if any.
pub open spec fn export_type_of_tag(b: u8) -> Option<ExportType> {
    if b == 0x00 {
        Some(ExportType::Function)
    } else if b == 0x01 {
        Some(ExportType::Table)
    } else if b == 0x02 {
        Some(ExportType::Memory)
    } else if b == 0x03 {
        Some(ExportType::Global)
    } else {
        None
    }
}

/// What a reader recovers of one export entry: the decoded name, the
/// export kind, and the index.
pub struct DecodedExport {
    pub name: Seq<char>,
    pub export_type: ExportType,
    pub index: u8,
}

/// The reader's view of an export entry as the encoder wrote it.
pub open spec fn decoded_of_export(e: Export) -> DecodedExport {
    DecodedExport { name: e.name@, export_type: e.desc.export_type, index: e.desc.index }
}

/// Parses exactly `count` resource-limits entries from `b`, requiring
/// that they use up all of `b`.
pub open spec fn decode_limits_entries(b: Seq<u8>, count: nat) -> Option<Seq<Limits>>
    decreases count,
{
    if count == 0 {
        if b.len() == 0 {
            Some(Seq::<Limits>::empty())
        } else {
            None
        }
    } else if b.len() >= 3 && b[0] == 1u8 {
        match decode_limits_entries(b.skip(3), (count - 1) as nat) {
            Some(rest) => Some(seq![Limits { min: b[1], max: Some(b[2]) }] + rest),
            None => None,
        }
    } else if b.len() >= 2 && b[0] == 0u8 {
        match decode_limits_entries(b.skip(2), (count - 1) as nat) {
            Some(rest) => Some(seq![Limits { min: b[1], max: None }] + rest),
            None => None,
        }
    } else {
        None
    }
}

/// Parses a complete resource section: kind tag, body length (which
/// must match the bytes that follow), entry count, entries.
pub open spec fn decode_memory_section(b: Seq<u8>) -> Option<Seq<Limits>> {
    if b.len() >= 3 && b[0] == MEMORY_SECTION && b[1] == b.len() - 2 {
        decode_limits_entries(b.skip(3), b[2] as nat)
    } else {
        None
    }
}

/// Parses exactly `count` export entries from `b`, requiring that
/// they use up all of `b`.
pub open spec fn decode_export_entries(b: Seq<u8>, count: nat) -> Option<Seq<DecodedExport>>
    decreases count,
{
    if count == 0 {
        if b.len() == 0 {
            Some(Seq::<DecodedExport>::empty())
        } else {
            None
        }
    } else if b.len() >= 1 && b.len() >= b[0] + 3 {
        let nl = b[0] as int;
        match export_type_of_tag(b[1 + nl]) {
            Some(t) => match decode_export_entries(b.skip(3 + nl), (count - 1) as nat) {
                Some(rest) => Some(
                    seq![
                        DecodedExport {
                            name: decode_utf8(b.subrange(1, 1 + nl)),
                            export_type: t,
                            index: b[2 + nl],
                        },
                    ] + rest,
                ),
                None => None,
            },
            None => None,
        }
    } else {
        None
    }
}

/// Parses a complete export section: kind tag, body length (which
/// must match the bytes that follow), entry count, entries.
pub open spec fn decode_export_section(b: Seq<u8>) -> Option<Seq<DecodedExport>> {
    if b.len() >= 3 && b[0] == EXPORT_SECTION && b[1] == b.len() - 2 {
        decode_export_entries(b.skip(3), b[2] as nat)
    } else {
        None
    }
}

/// Round trip over the entries of a resource section: parsing what
/// the encoder wrote yields the original entries.
pub proof fn lemma_limits_entries_round_trip(ms: Seq<Limits>)
    ensures
        decode_limits_entries(limits_entries(ms), ms.len()) == Some(ms),
    decreases ms.len(),
{
    if ms.len() == 0 {
    } else {
        let b = limits_entries(ms);
        let rest = ms.drop_first();
        lemma_limits_entries_round_trip(rest);
        match ms[0].max {
            Some(m) => {
                assert(b.skip(3) =~= limits_entries(rest));
                assert(seq![Limits { min: b[1], max: Some(b[2]) }] + rest =~= ms);
            },
            None => {
                assert(b.skip(2) =~= limits_entries(rest));
                assert(seq![Limits { min: b[1], max: None }] + rest =~= ms);
            },
        }
    }
}

/// Round trip for a whole resource section.
pub proof fn lemma_memory_section_round_trip(ms: Seq<Limits>)
    requires
        memory_section_encodable(ms),
    ensures
        decode_memory_section(memory_section_enc(ms)) == Some(ms),
{
    let b = memory_section_enc(ms);
    lemma_limits_entries_len_bounds(ms);
    assert(b.skip(3) =~= limits_entries(ms));
    lemma_limits_entries_round_trip(ms);
}

/// Round trip over the entries of an export section: parsing what
/// the encoder wrote yields the original entries, name included.
pub proof fn lemma_export_entries_round_trip(es: Seq<Export>)
    requires
        forall|i: int| 0 <= i < es.len() ==> export_encodable(#[trigger] es[i]),
    ensures
        decode_export_entries(export_entries(es), es.len()) == Some(
            es.map_values(|e: Export| decoded_of_export(e)),
        ),
    decreases es.len(),
{
    broadcast use encode_utf8_decode_utf8;

    if es.len() == 0 {
        assert(es.map_values(|e: Export| decoded_of_export(e)) =~= Seq::<
            DecodedExport,
        >::empty());
    } else {
        let b = export_entries(es);
        let e0 = es[0];
        let nl = name_bytes(e0).len() as int;
        let rest = es.drop_first();
        lemma_export_entries_round_trip(rest);
        assert(b[0] == nl as u8);
        assert(b.len() >= b[0] + 3);
        assert(b.subrange(1, 1 + nl) =~= name_bytes(e0));
        assert(export_type_of_tag(b[1 + nl]) == Some(e0.desc.export_type));
        assert(b.skip(3 + nl) =~= export_entries(rest));
        assert(seq![decoded_of_export(e0)] + rest.map_values(|e: Export| decoded_of_export(e))
            =~= es.map_values(|e: Export| decoded_of_export(e)));
    }
}

/// Round trip for a whole export section.
pub proof fn lemma_export_section_round_trip(es: Seq<Export>)
    requires
        export_section_encodable(es),
    ensures
        decode_export_section(export_section_enc(es)) == Some(
            es.map_values(|e: Export| decoded_of_export(e)),
        ),
{
    let b = export_section_enc(es);
    lemma_export_entries_len_lower(es);
    assert(b.skip(3) =~= export_entries(es));
    lemma_export_entries_round_trip(es);
}

} // verus!
