use kontrolleuer::decoder::{decode_imports, read_leb};
use kontrolleuer::record::{DecodeError, ImportKind, ImportRecord};
use parity_wasm::elements::{External, GlobalType, ImportEntry, MemoryType, TableType, ValueType};

const HEADER: [u8; 8] = [0x00, 0x61, 0x73, 0x6d, 0x01, 0x00, 0x00, 0x00];

fn leb(mut v: u32) -> Vec<u8> {
    let mut out = Vec::new();
    loop {
        let byte = (v % 128) as u8;
        v /= 128;
        if v == 0 {
            out.push(byte);
            return out;
        }
        out.push(byte | 0x80);
    }
}

fn name(s: &str) -> Vec<u8> {
    let mut out = leb(s.len() as u32);
    out.extend_from_slice(s.as_bytes());
    out
}

fn func_entry(ns: &str, sym: &str) -> Vec<u8> {
    let mut out = name(ns);
    out.extend(name(sym));
    out.push(0);
    out.push(0);
    out
}

fn section(id: u8, body: &[u8]) -> Vec<u8> {
    let mut out = vec![id];
    out.extend(leb(body.len() as u32));
    out.extend_from_slice(body);
    out
}

fn import_section(entries: &[Vec<u8>]) -> Vec<u8> {
    let mut body = leb(entries.len() as u32);
    for e in entries {
        body.extend_from_slice(e);
    }
    section(2, &body)
}

fn module(sections: &[Vec<u8>]) -> Vec<u8> {
    let mut out = HEADER.to_vec();
    for s in sections {
        out.extend_from_slice(s);
    }
    out
}

fn rec(ns: &str, sym: &str, kind: ImportKind) -> ImportRecord {
    ImportRecord { namespace: ns.to_string(), symbol: sym.to_string(), kind }
}

#[test]
fn header_only_has_no_imports() {
    assert_eq!(decode_imports(&HEADER), Ok(vec![]));
}

#[test]
fn short_buffer_is_bad_header() {
    assert_eq!(decode_imports(&HEADER[..7]), Err(DecodeError::BadHeader));
    assert_eq!(decode_imports(&[]), Err(DecodeError::BadHeader));
}

#[test]
fn wrong_magic_is_bad_header() {
    let mut b = HEADER.to_vec();
    b[1] = 0x62;
    assert_eq!(decode_imports(&b), Err(DecodeError::BadHeader));
}

#[test]
fn wrong_version_is_bad_header() {
    let mut b = HEADER.to_vec();
    b[4] = 0x02;
    assert_eq!(decode_imports(&b), Err(DecodeError::BadHeader));
}

#[test]
fn three_function_imports_in_order() {
    let b = module(&[import_section(&[
        func_entry("wasi_unstable", "fd_write"),
        func_entry("wasi_unstable", "sched_yield"),
        func_entry("env", "custom_log"),
    ])]);
    assert_eq!(
        decode_imports(&b),
        Ok(vec![
            rec("wasi_unstable", "fd_write", ImportKind::Function),
            rec("wasi_unstable", "sched_yield", ImportKind::Function),
            rec("env", "custom_log", ImportKind::Function),
        ])
    );
}

#[test]
fn empty_import_section_decodes_to_nothing() {
    let b = module(&[import_section(&[])]);
    assert_eq!(b, vec![0x00, 0x61, 0x73, 0x6d, 0x01, 0x00, 0x00, 0x00, 2, 1, 0]);
    assert_eq!(decode_imports(&b), Ok(vec![]));
}

#[test]
fn every_kind_payload_is_skipped() {
    let mut table = name("env");
    table.extend(name("tab"));
    table.extend_from_slice(&[1, 0x70, 1, 2, 10]);
    let mut memory = name("env");
    memory.extend(name("mem"));
    memory.extend_from_slice(&[2, 0, 0x80, 0x02]);
    let mut global = name("env");
    global.extend(name("g"));
    global.extend_from_slice(&[3, 0x7f, 1]);
    let b = module(&[import_section(&[table, memory, global, func_entry("env", "f")])]);
    assert_eq!(
        decode_imports(&b),
        Ok(vec![
            rec("env", "tab", ImportKind::Table),
            rec("env", "mem", ImportKind::Memory),
            rec("env", "g", ImportKind::Global),
            rec("env", "f", ImportKind::Function),
        ])
    );
}

#[test]
fn other_sections_are_skipped_whatever_they_hold() {
    let imports = import_section(&[func_entry("wasi_unstable", "fd_read"), func_entry("env", "x")]);
    let alone = decode_imports(&module(&[imports.clone()]));
    let noise: Vec<u8> = (0..200u32).map(|i| (i * 37 % 256) as u8).collect();
    let surrounded = module(&[
        section(1, &noise[..5]),
        section(0, &noise),
        section(3, &[]),
        imports.clone(),
        section(10, &noise[7..150]),
        section(11, &[2, 2, 2]),
    ]);
    assert!(alone.is_ok());
    assert_eq!(decode_imports(&surrounded), alone);
}

#[test]
fn multi_byte_section_length_is_read() {
    let noise = vec![2u8; 300];
    let b = module(&[section(0, &noise), import_section(&[func_entry("env", "a")])]);
    assert_eq!(b[9], 0xac);
    assert_eq!(b[10], 0x02);
    assert_eq!(decode_imports(&b), Ok(vec![rec("env", "a", ImportKind::Function)]));
}

#[test]
fn section_longer_than_buffer_is_truncated_section() {
    let mut b = HEADER.to_vec();
    b.extend_from_slice(&[1, 5, 0, 0]);
    assert_eq!(decode_imports(&b), Err(DecodeError::TruncatedSection));
}

#[test]
fn missing_section_length_is_unexpected_end() {
    let mut b = HEADER.to_vec();
    b.push(1);
    assert_eq!(decode_imports(&b), Err(DecodeError::UnexpectedEndOfInput));
}

#[test]
fn entries_running_past_section_are_unexpected_end() {
    // The section claims two entries but holds one.
    let mut body = leb(2);
    body.extend(func_entry("env", "a"));
    let b = module(&[section(2, &body)]);
    assert_eq!(decode_imports(&b), Err(DecodeError::UnexpectedEndOfInput));
}

#[test]
fn section_with_trailing_bytes_is_length_mismatch() {
    let mut body = leb(1);
    body.extend(func_entry("env", "a"));
    body.push(0);
    let b = module(&[section(2, &body)]);
    assert_eq!(decode_imports(&b), Err(DecodeError::SectionLengthMismatch));
}

#[test]
fn invalid_utf8_name_is_invalid_text() {
    let mut entry = vec![2, 0xc3, 0x28];
    entry.extend(name("f"));
    entry.extend_from_slice(&[0, 0]);
    let b = module(&[import_section(&[entry])]);
    assert_eq!(decode_imports(&b), Err(DecodeError::InvalidText));
}

#[test]
fn multi_byte_utf8_name_is_decoded() {
    let b = module(&[import_section(&[func_entry("caf\u{e9}", "\u{1F600}")])]);
    let recs = decode_imports(&b).unwrap();
    assert_eq!(recs[0].namespace, "caf\u{e9}");
    assert_eq!(recs[0].namespace.chars().count(), 4);
    assert_eq!(recs[0].symbol, "\u{1F600}");
}

#[test]
fn unknown_kind_tag_is_rejected() {
    let mut entry = name("env");
    entry.extend(name("f"));
    entry.extend_from_slice(&[4, 0]);
    let b = module(&[import_section(&[entry])]);
    assert_eq!(decode_imports(&b), Err(DecodeError::UnknownImportKind));
}

#[test]
fn overlong_integer_is_too_large() {
    let mut b = HEADER.to_vec();
    b.extend_from_slice(&[0, 0x80, 0x80, 0x80, 0x80, 0x80, 0x00]);
    assert_eq!(decode_imports(&b), Err(DecodeError::IntegerTooLarge));
}

#[test]
fn leb_values() {
    assert_eq!(read_leb(&[0x00], 1, 0), Ok((0, 1)));
    assert_eq!(read_leb(&[0xe5, 0x8e, 0x26], 3, 0), Ok((624485, 3)));
    assert_eq!(read_leb(&[0xff, 0xff, 0xff, 0xff, 0x0f], 5, 0), Ok((u32::MAX, 5)));
    assert_eq!(read_leb(&[0xff, 0xff, 0xff, 0xff, 0x1f], 5, 0), Err(DecodeError::IntegerTooLarge));
    assert_eq!(read_leb(&[0x80, 0x01], 1, 0), Err(DecodeError::UnexpectedEndOfInput));
    assert_eq!(read_leb(&[0x80, 0x00], 2, 0), Ok((0, 2)));
}

#[test]
fn every_truncation_fails() {
    let b = module(&[import_section(&[
        func_entry("wasi_unstable", "fd_write"),
        func_entry("env", "custom_log"),
    ])]);
    for k in 0..b.len() {
        if k != HEADER.len() {
            assert!(decode_imports(&b[..k]).is_err(), "cut at {}", k);
        }
    }
    // A cut between the header and the import section leaves a module with no
    // sections at all: no import is invented.
    assert_eq!(decode_imports(&b[..HEADER.len()]), Ok(vec![]));
}

#[test]
fn module_built_by_parity_wasm_decodes() {
    let m = parity_wasm::builder::module()
        .with_import(ImportEntry::new("wasi_unstable".into(), "fd_write".into(), External::Function(0)))
        .with_import(ImportEntry::new("env".into(), "memory".into(), External::Memory(MemoryType::new(1, Some(300)))))
        .with_import(ImportEntry::new("env".into(), "table".into(), External::Table(TableType::new(2, None))))
        .with_import(ImportEntry::new("env".into(), "g".into(), External::Global(GlobalType::new(ValueType::I64, true))))
        .build();
    let bytes = parity_wasm::serialize(m).unwrap();
    assert_eq!(
        decode_imports(&bytes),
        Ok(vec![
            rec("wasi_unstable", "fd_write", ImportKind::Function),
            rec("env", "memory", ImportKind::Memory),
            rec("env", "table", ImportKind::Table),
            rec("env", "g", ImportKind::Global),
        ])
    );
}
