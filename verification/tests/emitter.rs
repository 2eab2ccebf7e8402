use wasm_emit::emitter::{Emitter, Opcode};

#[test]
fn new_emitter_is_empty() {
    let e = Emitter::new();
    assert_eq!(e.as_slice(), &[] as &[u8]);
}

#[test]
fn push_u8_appends_single_bytes() {
    let mut e = Emitter::new();
    e.push_u8(0x00);
    e.push_u8(0xff);
    e.push_u8(0x7f);
    assert_eq!(e.as_slice(), &[0x00, 0xff, 0x7f]);
}

#[test]
fn push_u32_is_little_endian() {
    let mut e = Emitter::new();
    e.push_u32(0x12345678);
    assert_eq!(e.as_slice(), &[0x78, 0x56, 0x34, 0x12]);
}

#[test]
fn push_str_appends_raw_utf8_bytes() {
    let mut e = Emitter::new();
    e.push_str("mem");
    assert_eq!(e.as_slice(), &[0x6d, 0x65, 0x6d]);
}

#[test]
fn push_str_multibyte_utf8() {
    let mut e = Emitter::new();
    e.push_str("é");
    assert_eq!(e.as_slice(), "é".as_bytes());
    assert_eq!(e.as_slice().len(), 2);
}

#[test]
fn push_opcode_writes_protocol_constants() {
    let mut e = Emitter::new();
    e.push_opcode(Opcode::MagicNumber);
    e.push_opcode(Opcode::Version);
    e.push_opcode(Opcode::MemorySection);
    e.push_opcode(Opcode::ExportSection);
    assert_eq!(
        e.as_slice(),
        &[0x00, 0x61, 0x73, 0x6d, 0x01, 0x00, 0x00, 0x00, 0x05, 0x07]
    );
}

#[test]
fn write_length_backpatches_the_placeholder() {
    let mut e = Emitter::new();
    e.push_u8(0xaa);
    e.push_u8(0x00); // reserved placeholder
    e.push_u8(0x01);
    e.push_u8(0x02);
    e.push_u8(0x03);
    e.write_length(3);
    assert_eq!(e.as_slice(), &[0xaa, 0x03, 0x01, 0x02, 0x03]);
}

#[test]
fn into_bytes_returns_everything_written() {
    let mut e = Emitter::new();
    e.push_u32(0x6d736100);
    let bytes = e.into_bytes();
    assert_eq!(bytes, vec![0x00, 0x61, 0x73, 0x6d]);
}
