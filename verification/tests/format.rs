use wasm_emit::emitter::{Emitter, Opcode};
use wasm_emit::model::{EncodingError, Export, ExportDesc, ExportType, Limits};
use wasm_emit::sections::{encode_module, ExportSection, MemorySection, Section};

fn export(name: &str, export_type: ExportType, index: u8) -> Export {
    Export {
        name: name.to_string(),
        desc: ExportDesc { export_type, index },
    }
}

const HEADER: [u8; 8] = [0x00, 0x61, 0x73, 0x6d, 0x01, 0x00, 0x00, 0x00];

#[test]
fn one_memory_and_one_export() {
    // One resource-limits entry {min: 1, max: none} in a memory
    // section, then one export {"mem", memory, 0}.
    let mut emitter = Emitter::new();
    emitter.push_opcode(Opcode::MagicNumber);
    emitter.push_opcode(Opcode::Version);
    let r1 = emitter.push_section(Section::MemorySection(MemorySection(vec![Limits {
        min: 1,
        max: None,
    }])));
    let r2 = emitter.push_section(Section::ExportSection(ExportSection(vec![export(
        "mem",
        ExportType::Memory,
        0,
    )])));
    assert_eq!(r1, Ok(()));
    assert_eq!(r2, Ok(()));
    let expected: Vec<u8> = vec![
        0x00, 0x61, 0x73, 0x6d, 0x01, 0x00, 0x00, 0x00, // header
        0x05, 0x03, 0x01, 0x00, 0x01, // memory: tag, len=3, count=1, flag=0, min=1
        0x07, 0x07, 0x01, 0x03, 0x6d, 0x65, 0x6d, 0x02, 0x00, // export: tag, len=7, count=1, namelen=3, "mem", kind=2, index=0
    ];
    assert_eq!(emitter.as_slice(), expected.as_slice());
}

#[test]
fn encode_module_matches_manual_assembly() {
    let sections = vec![
        Section::MemorySection(MemorySection(vec![Limits { min: 1, max: None }])),
        Section::ExportSection(ExportSection(vec![export("mem", ExportType::Memory, 0)])),
    ];
    let bytes = encode_module(&sections).unwrap();
    let expected: Vec<u8> = vec![
        0x00, 0x61, 0x73, 0x6d, 0x01, 0x00, 0x00, 0x00, 0x05, 0x03, 0x01, 0x00, 0x01, 0x07, 0x07,
        0x01, 0x03, 0x6d, 0x65, 0x6d, 0x02, 0x00,
    ];
    assert_eq!(bytes, expected);
}

#[test]
fn empty_module_is_just_the_header() {
    let bytes = encode_module(&vec![]).unwrap();
    assert_eq!(bytes.as_slice(), &HEADER);
}

#[test]
fn header_is_fixed_whatever_the_sections_hold() {
    let with_sections = encode_module(&vec![
        Section::MemorySection(MemorySection(vec![Limits { min: 9, max: Some(200) }])),
        Section::ExportSection(ExportSection(vec![export("f", ExportType::Function, 3)])),
    ])
    .unwrap();
    assert_eq!(&with_sections[..8], &HEADER);
}

#[test]
fn encoding_twice_is_byte_identical() {
    let sections = vec![
        Section::MemorySection(MemorySection(vec![
            Limits { min: 1, max: Some(16) },
            Limits { min: 0, max: None },
        ])),
        Section::ExportSection(ExportSection(vec![
            export("a", ExportType::Table, 1),
            export("b", ExportType::Global, 2),
        ])),
    ];
    let first = encode_module(&sections).unwrap();
    let second = encode_module(&sections).unwrap();
    assert_eq!(first, second);
}

#[test]
fn empty_memory_section_has_count_zero_and_length_one() {
    let mut emitter = Emitter::new();
    let r = emitter.push_section(Section::MemorySection(MemorySection(vec![])));
    assert_eq!(r, Ok(()));
    assert_eq!(emitter.as_slice(), &[0x05, 0x01, 0x00]);
}

#[test]
fn empty_export_section_has_count_zero_and_length_one() {
    let mut emitter = Emitter::new();
    let r = emitter.push_section(Section::ExportSection(ExportSection(vec![])));
    assert_eq!(r, Ok(()));
    assert_eq!(emitter.as_slice(), &[0x07, 0x01, 0x00]);
}

#[test]
fn limits_with_maximum_use_flag_one() {
    let mut emitter = Emitter::new();
    let n = Limits { min: 2, max: Some(5) }.emit(&mut emitter);
    assert_eq!(n, 3);
    assert_eq!(emitter.as_slice(), &[0x01, 0x02, 0x05]);
}

#[test]
fn limits_without_maximum_use_flag_zero() {
    let mut emitter = Emitter::new();
    let n = Limits { min: 2, max: None }.emit(&mut emitter);
    assert_eq!(n, 2);
    assert_eq!(emitter.as_slice(), &[0x00, 0x02]);
}

#[test]
fn export_kinds_have_their_own_tags() {
    let mut emitter = Emitter::new();
    let r = emitter.push_section(Section::ExportSection(ExportSection(vec![
        export("f", ExportType::Function, 0),
        export("t", ExportType::Table, 1),
        export("m", ExportType::Memory, 2),
        export("g", ExportType::Global, 3),
    ])));
    assert_eq!(r, Ok(()));
    let expected: Vec<u8> = vec![
        0x07, 0x11, 0x04, // tag, len=17, count=4
        0x01, 0x66, 0x00, 0x00, // "f" function 0
        0x01, 0x74, 0x01, 0x01, // "t" table 1
        0x01, 0x6d, 0x02, 0x02, // "m" memory 2
        0x01, 0x67, 0x03, 0x03, // "g" global 3
    ];
    assert_eq!(emitter.as_slice(), expected.as_slice());
}

#[test]
fn permuting_entries_permutes_their_encoded_segments() {
    let a = Limits { min: 1, max: None };
    let b = Limits { min: 2, max: Some(7) };
    let mut forward = Emitter::new();
    let mut backward = Emitter::new();
    forward
        .push_section(Section::MemorySection(MemorySection(vec![a, b])))
        .unwrap();
    backward
        .push_section(Section::MemorySection(MemorySection(vec![b, a])))
        .unwrap();
    // Each entry keeps its own bytes; only the positions swap.
    assert_eq!(forward.as_slice(), &[0x05, 0x06, 0x02, 0x00, 0x01, 0x01, 0x02, 0x07]);
    assert_eq!(backward.as_slice(), &[0x05, 0x06, 0x02, 0x01, 0x02, 0x07, 0x00, 0x01]);
}

#[test]
fn name_of_255_bytes_encodes_with_length_byte_ff() {
    let name = "x".repeat(255);
    let mut emitter = Emitter::new();
    let r = export(&name, ExportType::Function, 0).emit(&mut emitter);
    assert_eq!(r, Ok(258));
    assert_eq!(emitter.as_slice().len(), 258);
    assert_eq!(emitter.as_slice()[0], 0xff);
}

#[test]
fn name_of_256_bytes_is_rejected() {
    let name = "x".repeat(256);
    let mut emitter = Emitter::new();
    let r = export(&name, ExportType::Function, 0).emit(&mut emitter);
    assert_eq!(r, Err(EncodingError::Overflow));
    assert_eq!(emitter.as_slice(), &[] as &[u8]);
}

#[test]
fn largest_export_section_body_is_accepted() {
    // One 251-byte name: body = 1 + (1 + 251 + 2) = 255, the largest
    // value the length byte can carry.
    let name = "y".repeat(251);
    let mut emitter = Emitter::new();
    let r = emitter.push_section(Section::ExportSection(ExportSection(vec![export(
        &name,
        ExportType::Global,
        9,
    )])));
    assert_eq!(r, Ok(()));
    assert_eq!(emitter.as_slice().len(), 257);
    assert_eq!(emitter.as_slice()[1], 0xff);
    assert_eq!(emitter.as_slice()[2], 0x01);
}

#[test]
fn oversized_export_section_body_is_rejected() {
    // One 252-byte name: body would be 256 and cannot fit the length
    // byte even though the name itself is encodable.
    let name = "y".repeat(252);
    let mut emitter = Emitter::new();
    emitter.push_opcode(Opcode::MagicNumber);
    emitter.push_opcode(Opcode::Version);
    let r = emitter.push_section(Section::ExportSection(ExportSection(vec![export(
        &name,
        ExportType::Global,
        9,
    )])));
    assert_eq!(r, Err(EncodingError::Overflow));
    // Nothing was written: the header is still the whole buffer.
    assert_eq!(emitter.as_slice(), &HEADER);
}

#[test]
fn largest_memory_section_body_is_accepted() {
    // 127 two-byte entries: body = 1 + 254 = 255.
    let entries: Vec<Limits> = (0..127).map(|i| Limits { min: i as u8, max: None }).collect();
    let mut emitter = Emitter::new();
    let r = emitter.push_section(Section::MemorySection(MemorySection(entries)));
    assert_eq!(r, Ok(()));
    assert_eq!(emitter.as_slice().len(), 257);
    assert_eq!(emitter.as_slice()[1], 0xff);
    assert_eq!(emitter.as_slice()[2], 127);
}

#[test]
fn oversized_memory_section_body_is_rejected() {
    // 128 two-byte entries: body would be 257.
    let entries: Vec<Limits> = (0..128).map(|i| Limits { min: i as u8, max: None }).collect();
    let mut emitter = Emitter::new();
    let r = emitter.push_section(Section::MemorySection(MemorySection(entries)));
    assert_eq!(r, Err(EncodingError::Overflow));
    assert_eq!(emitter.as_slice(), &[] as &[u8]);
}

#[test]
fn encode_module_rejects_an_oversized_section() {
    let sections = vec![
        Section::MemorySection(MemorySection(vec![Limits { min: 1, max: None }])),
        Section::ExportSection(ExportSection(vec![export(
            &"z".repeat(300),
            ExportType::Function,
            0,
        )])),
    ];
    assert_eq!(encode_module(&sections), Err(EncodingError::Overflow));
}

#[test]
fn min_greater_than_max_is_encoded_as_given() {
    // Semantic validation is the consumer's job; the encoder writes
    // the fields as they are.
    let mut emitter = Emitter::new();
    let r = emitter.push_section(Section::MemorySection(MemorySection(vec![Limits {
        min: 9,
        max: Some(1),
    }])));
    assert_eq!(r, Ok(()));
    assert_eq!(emitter.as_slice(), &[0x05, 0x04, 0x01, 0x01, 0x09, 0x01]);
}
