//! The encodable entities' encoders, and the section types built from
//! them.
//!
//! Each section encoder follows the same protocol: write the
//! section-kind tag, reserve one byte as a length placeholder, write
//! the body (the entry count followed by the entries), and finally
//! backpatch the placeholder with the true body length through
//! [`Emitter::write_length`].  The body length must fit one byte, so
//! every encoder first checks the body size and rejects an oversized
//! section with [`EncodingError::Overflow`] before anything is
//! written; on an error the sink is left untouched.

use vstd::prelude::*;

use crate::emitter::{Emitter, Opcode};
use crate::encoding::{
    export_enc, export_encodable, export_entries, export_section_enc, export_section_encodable,
    header_bytes, lemma_export_entries_len_lower, lemma_export_entries_prefix_len,
    lemma_export_entries_take_succ, lemma_limits_entries_len_bounds,
    lemma_limits_entries_prefix_len, lemma_limits_entries_take_succ, limits_enc, limits_entries,
    memory_section_enc, memory_section_encodable, EXPORT_SECTION, MEMORY_SECTION,
};
use crate::model::{EncodingError, Export, Limits};

verus! {

impl Limits {
    /// Encodes this bound pair: a one-byte flag for the presence of
    /// the maximum, the minimum, and the maximum if present.  Returns
    /// the number of bytes written (2 or 3).
    pub fn emit(&self, emitter: &mut Emitter) -> (n: u8)
        ensures
            final(emitter)@ == old(emitter)@ + limits_enc(*self),
            n == limits_enc(*self).len(),
    {
        match self.max {
            Some(m) => {
                emitter.push_u8(1);
                emitter.push_u8(self.min);
                emitter.push_u8(m);
                proof {
                    assert(emitter@ =~= old(emitter)@ + limits_enc(*self));
                }
                3
            },
            None => {
                emitter.push_u8(0);
                emitter.push_u8(self.min);
                proof {
                    assert(emitter@ =~= old(emitter)@ + limits_enc(*self));
                }
                2
            },
        }
    }
}

impl Export {
    /// Encodes this export descriptor: a one-byte name length, the
    /// raw name bytes, the export-kind tag, and the index.  Returns
    /// the number of bytes written (name length plus 3), or an
    /// overflow error, without writing anything, when the name's
    /// UTF-8 bytes do not fit behind the one-byte length prefix.
    pub fn emit(&self, emitter: &mut Emitter) -> (r: Result<usize, EncodingError>)
        ensures
            export_encodable(*self) ==> r == Ok::<usize, EncodingError>(
                export_enc(*self).len() as usize,
            ) && final(emitter)@ == old(emitter)@ + export_enc(*self),
            !export_encodable(*self) ==> r == Err::<usize, EncodingError>(EncodingError::Overflow)
                && final(emitter)@ == old(emitter)@,
    {
        let name = self.name.as_str();
        let nl = name.as_bytes().len();
        if nl > 255 {
            return Err(EncodingError::Overflow);
        }
        emitter.push_u8(nl as u8);
        emitter.push_str(name);
        emitter.push_u8(self.desc.export_type.tag_byte());
        emitter.push_u8(self.desc.index);
        proof {
            assert(emitter@ =~= old(emitter)@ + export_enc(*self));
        }
        Ok(nl + 3)
    }
}

/// An ordered sequence of resource-limits entries, encoded as one
/// memory section.  Entry order defines index assignment downstream
/// and is preserved exactly.
pub struct MemorySection(pub Vec<Limits>);

impl View for MemorySection {
    type V = Seq<Limits>;

    open spec fn view(&self) -> Seq<Limits> {
        self.0@
    }
}

impl MemorySection {
    /// Encodes the section: kind tag, body-length byte, entry count,
    /// then every entry in order, backpatching the body length last.
    /// Returns the total number of bytes written (body length plus 2
    /// for the tag and length bytes), or an overflow error, without
    /// writing anything, when the body does not fit one byte.
    pub fn emit(&self, emitter: &mut Emitter) -> (r: Result<usize, EncodingError>)
        ensures
            memory_section_encodable(self@) ==> r == Ok::<usize, EncodingError>(
                memory_section_enc(self@).len() as usize,
            ) && final(emitter)@ == old(emitter)@ + memory_section_enc(self@),
            !memory_section_encodable(self@) ==> r == Err::<usize, EncodingError>(
                EncodingError::Overflow,
            ) && final(emitter)@ == old(emitter)@,
    {
        let n = self.0.len();
        // First pass: size the body, stopping as soon as it cannot fit.
        let mut total: usize = 0;
        let mut i: usize = 0;
        while i < n
            invariant
                i <= n,
                n == self@.len(),
                total == limits_entries(self@.take(i as int)).len(),
                total <= 255 + 3,
            decreases n - i,
        {
            if total >= 255 {
                proof {
                    lemma_limits_entries_prefix_len(self@, i as int);
                }
                return Err(EncodingError::Overflow);
            }
            let step: usize = if self.0[i].max.is_some() {
                3
            } else {
                2
            };
            total = total + step;
            proof {
                lemma_limits_entries_take_succ(self@, i as int);
            }
            i = i + 1;
        }
        proof {
            assert(self@.take(n as int) =~= self@);
        }
        if total >= 255 {
            return Err(EncodingError::Overflow);
        }
        // The body fits, so the entry count fits a byte as well.
        proof {
            lemma_limits_entries_len_bounds(self@);
        }
        // Second pass: tag, placeholder, count, entries, backpatch.
        emitter.push_opcode(Opcode::MemorySection);
        emitter.push_u8(0);
        emitter.push_u8(n as u8);
        proof {
            assert(emitter@ =~= old(emitter)@ + seq![MEMORY_SECTION, 0u8, n as u8]);
        }
        let mut byte_count: usize = 1;
        let mut j: usize = 0;
        while j < n
            invariant
                j <= n,
                n == self@.len(),
                n <= 127,
                1 + limits_entries(self@).len() <= 255,
                emitter@ == old(emitter)@ + seq![MEMORY_SECTION, 0u8, n as u8] + limits_entries(
                    self@.take(j as int),
                ),
                byte_count == 1 + limits_entries(self@.take(j as int)).len(),
            decreases n - j,
        {
            let w = self.0[j].emit(emitter);
            proof {
                lemma_limits_entries_take_succ(self@, j as int);
                lemma_limits_entries_prefix_len(self@, j + 1);
                assert(emitter@ =~= old(emitter)@ + seq![MEMORY_SECTION, 0u8, n as u8]
                    + limits_entries(self@.take(j + 1)));
            }
            byte_count = byte_count + w as usize;
            j = j + 1;
        }
        proof {
            assert(self@.take(n as int) =~= self@);
        }
        emitter.write_length(byte_count as u8);
        proof {
            assert(emitter@ =~= old(emitter)@ + memory_section_enc(self@));
        }
        Ok(byte_count + 2)
    }
}

/// An ordered sequence of export descriptors, encoded as one export
/// section.  Entry order is preserved exactly.
pub struct ExportSection(pub Vec<Export>);

impl View for ExportSection {
    type V = Seq<Export>;

    open spec fn view(&self) -> Seq<Export> {
        self.0@
    }
}

impl ExportSection {
    /// Encodes the section: kind tag, body-length byte, entry count,
    /// then every entry in order, backpatching the body length last.
    /// Returns the total number of bytes written (body length plus 2
    /// for the tag and length bytes), or an overflow error, without
    /// writing anything, when some name or the body does not fit one
    /// byte.
    pub fn emit(&self, emitter: &mut Emitter) -> (r: Result<usize, EncodingError>)
        ensures
            export_section_encodable(self@) ==> r == Ok::<usize, EncodingError>(
                export_section_enc(self@).len() as usize,
            ) && final(emitter)@ == old(emitter)@ + export_section_enc(self@),
            !export_section_encodable(self@) ==> r == Err::<usize, EncodingError>(
                EncodingError::Overflow,
            ) && final(emitter)@ == old(emitter)@,
    {
        let n = self.0.len();
        // First pass: size the body, stopping as soon as it cannot
        // fit or a name overflows its length byte.
        let mut total: usize = 0;
        let mut i: usize = 0;
        while i < n
            invariant
                i <= n,
                n == self@.len(),
                total == export_entries(self@.take(i as int)).len(),
                total <= 255 + 258,
                forall|k: int| 0 <= k < i ==> export_encodable(#[trigger] self@[k]),
            decreases n - i,
        {
            if total >= 255 {
                proof {
                    lemma_export_entries_prefix_len(self@, i as int);
                }
                return Err(EncodingError::Overflow);
            }
            let nl = self.0[i].name.as_str().as_bytes().len();
            if nl > 255 {
                return Err(EncodingError::Overflow);
            }
            total = total + nl + 3;
            proof {
                lemma_export_entries_take_succ(self@, i as int);
            }
            i = i + 1;
        }
        proof {
            assert(self@.take(n as int) =~= self@);
        }
        if total >= 255 {
            return Err(EncodingError::Overflow);
        }
        // The body fits, so the entry count fits a byte as well.
        proof {
            lemma_export_entries_len_lower(self@);
        }
        // Second pass: tag, placeholder, count, entries, backpatch.
        emitter.push_opcode(Opcode::ExportSection);
        emitter.push_u8(0);
        emitter.push_u8(n as u8);
        proof {
            assert(emitter@ =~= old(emitter)@ + seq![EXPORT_SECTION, 0u8, n as u8]);
        }
        let mut byte_count: usize = 1;
        let mut j: usize = 0;
        while j < n
            invariant
                j <= n,
                n == self@.len(),
                n <= 255,
                export_section_encodable(self@),
                emitter@ == old(emitter)@ + seq![EXPORT_SECTION, 0u8, n as u8] + export_entries(
                    self@.take(j as int),
                ),
                byte_count == 1 + export_entries(self@.take(j as int)).len(),
            decreases n - j,
        {
            let w = match self.0[j].emit(emitter) {
                Ok(k) => k,
                Err(_) => {
                    // Unreachable: every entry was checked above.
                    proof {
                        assert(false);
                    }
                    0
                },
            };
            proof {
                lemma_export_entries_take_succ(self@, j as int);
                lemma_export_entries_prefix_len(self@, j + 1);
                assert(emitter@ =~= old(emitter)@ + seq![EXPORT_SECTION, 0u8, n as u8]
                    + export_entries(self@.take(j + 1)));
            }
            byte_count = byte_count + w;
            j = j + 1;
        }
        proof {
            assert(self@.take(n as int) =~= self@);
        }
        emitter.write_length(byte_count as u8);
        proof {
            assert(emitter@ =~= old(emitter)@ + export_section_enc(self@));
        }
        Ok(byte_count + 2)
    }
}

/// A section descriptor: one of the two section kinds with its
/// payload.
pub enum Section {
    MemorySection(MemorySection),
    ExportSection(ExportSection),
}

/// The complete encoding of one section.
pub open spec fn section_enc(s: Section) -> Seq<u8> {
    match s {
        Section::MemorySection(m) => memory_section_enc(m@),
        Section::ExportSection(e) => export_section_enc(e@),
    }
}

/// Whether a section's body fits the format's one-byte length field.
pub open spec fn section_encodable(s: Section) -> bool {
    match s {
        Section::MemorySection(m) => memory_section_encodable(m@),
        Section::ExportSection(e) => export_section_encodable(e@),
    }
}

impl Section {
    /// Encodes this section, whichever kind it is.
    pub fn emit(&self, emitter: &mut Emitter) -> (r: Result<usize, EncodingError>)
        ensures
            section_encodable(*self) ==> r == Ok::<usize, EncodingError>(
                section_enc(*self).len() as usize,
            ) && final(emitter)@ == old(emitter)@ + section_enc(*self),
            !section_encodable(*self) ==> r == Err::<usize, EncodingError>(
                EncodingError::Overflow,
            ) && final(emitter)@ == old(emitter)@,
    {
        match self {
            Section::MemorySection(memory) => memory.emit(emitter),
            Section::ExportSection(export) => export.emit(emitter),
        }
    }
}

/// The concatenated encodings of a sequence of sections, in order.
pub open spec fn sections_enc(ss: Seq<Section>) -> Seq<u8>
    decreases ss.len(),
{
    if ss.len() == 0 {
        Seq::<u8>::empty()
    } else {
        section_enc(ss[0]) + sections_enc(ss.drop_first())
    }
}

/// Whether every section of a module is encodable.
pub open spec fn module_encodable(ss: Seq<Section>) -> bool {
    forall|i: int| 0 <= i < ss.len() ==> section_encodable(#[trigger] ss[i])
}

/// The complete encoding of a module: the fixed header, then the
/// sections in order.
pub open spec fn module_enc(ss: Seq<Section>) -> Seq<u8> {
    header_bytes() + sections_enc(ss)
}

/// Section concatenation distributes over sequence concatenation.
pub proof fn lemma_sections_enc_app(a: Seq<Section>, b: Seq<Section>)
    ensures
        sections_enc(a + b) == sections_enc(a) + sections_enc(b),
    decreases a.len(),
{
    if a.len() == 0 {
        assert(a + b =~= b);
        assert(sections_enc(a) + sections_enc(b) =~= sections_enc(b));
    } else {
        assert((a + b).drop_first() =~= a.drop_first() + b);
        lemma_sections_enc_app(a.drop_first(), b);
        assert(sections_enc(a + b) =~= sections_enc(a) + sections_enc(b));
    }
}

/// Extending the encoded prefix by one section appends that section's
/// encoding.
pub proof fn lemma_sections_enc_take_succ(ss: Seq<Section>, i: int)
    requires
        0 <= i < ss.len(),
    ensures
        sections_enc(ss.take(i + 1)) == sections_enc(ss.take(i)) + section_enc(ss[i]),
{
    assert(ss.take(i + 1) =~= ss.take(i) + seq![ss[i]]);
    lemma_sections_enc_app(ss.take(i), seq![ss[i]]);
    assert(seq![ss[i]].drop_first() =~= Seq::<Section>::empty());
    assert(sections_enc(Seq::<Section>::empty()) =~= Seq::<u8>::empty());
    assert(sections_enc(seq![ss[i]]) =~= section_enc(ss[i]));
}

/// The encoded sections split around any one section: what precedes
/// it, its own encoding, and what follows it.
pub proof fn lemma_sections_enc_split(ss: Seq<Section>, i: int)
    requires
        0 <= i < ss.len(),
    ensures
        sections_enc(ss) == sections_enc(ss.take(i)) + section_enc(ss[i]) + sections_enc(
            ss.skip(i + 1),
        ),
{
    assert(ss =~= ss.take(i + 1) + ss.skip(i + 1));
    lemma_sections_enc_app(ss.take(i + 1), ss.skip(i + 1));
    lemma_sections_enc_take_succ(ss, i);
}

/// Encodes a whole module: the fixed 8-byte header, then the given
/// sections in order.  Returns the finished byte sequence, or an
/// overflow error when some section's body does not fit its one-byte
/// length field.
pub fn encode_module(sections: &Vec<Section>) -> (r: Result<Vec<u8>, EncodingError>)
    ensures
        module_encodable(sections@) ==> (r matches Ok(bytes) && bytes@ == module_enc(sections@)),
        !module_encodable(sections@) ==> r == Err::<Vec<u8>, EncodingError>(
            EncodingError::Overflow,
        ),
{
    let mut emitter = Emitter::new();
    emitter.push_opcode(Opcode::MagicNumber);
    emitter.push_opcode(Opcode::Version);
    proof {
        assert(emitter@ =~= header_bytes());
    }
    let n = sections.len();
    let mut i: usize = 0;
    while i < n
        invariant
            i <= n,
            n == sections@.len(),
            emitter@ == header_bytes() + sections_enc(sections@.take(i as int)),
            forall|k: int| 0 <= k < i ==> section_encodable(#[trigger] sections@[k]),
        decreases n - i,
    {
        match sections[i].emit(&mut emitter) {
            Ok(_) => {},
            Err(e) => {
                return Err(e);
            },
        }
        proof {
            lemma_sections_enc_take_succ(sections@, i as int);
        }
        i = i + 1;
    }
    proof {
        assert(sections@.take(n as int) =~= sections@);
    }
    Ok(emitter.into_bytes())
}

} // verus!
