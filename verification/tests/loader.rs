//! Checks of the binary reader, the module parser and the streaming parser.

use wasmtiny::loader::{BinaryReader, ParseState, Parser, StreamingParser};

#[test]
fn test_read_u32() {
    let data = vec![0x01, 0x02, 0x03, 0x04];
    let mut reader = BinaryReader::from_slice(&data);
    assert_eq!(reader.read_u32().unwrap(), 0x04030201);
}

#[test]
fn test_read_uleb128() {
    let data = vec![0xE5, 0x8E, 0x26];
    let mut reader = BinaryReader::from_slice(&data);
    assert_eq!(reader.read_uleb128().unwrap(), 624485);
}

#[test]
fn test_parse_empty_module() {
    let data = vec![0x00, 0x61, 0x73, 0x6D, 0x01, 0x00, 0x00, 0x00];
    let parser = Parser::new();
    let module = parser.parse(&data).unwrap();
    assert_eq!(module.types.len(), 0);
    assert_eq!(module.funcs.len(), 0);
}

#[test]
fn test_streaming_parser() {
    let data = vec![0x00, 0x61, 0x73, 0x6D, 0x01, 0x00, 0x00, 0x00];
    let mut parser = StreamingParser::new();
    let state = parser.parse_chunk(&data).unwrap();
    assert_eq!(state, ParseState::Complete);
    assert!(parser.module().is_some());
}

#[test]
fn test_streaming_parser_needs_more_data() {
    let mut parser = StreamingParser::new();
    let state = parser.parse_chunk(&[0x00, 0x61, 0x73]).unwrap();
    assert_eq!(state, ParseState::NeedMoreData);
    assert!(parser.module().is_none());
}

#[test]
fn test_streaming_parser_clears_stale_module_on_incomplete_input() {
    let mut parser = StreamingParser::new();
    let valid = [0x00, 0x61, 0x73, 0x6D, 0x01, 0x00, 0x00, 0x00];
    assert_eq!(parser.parse_chunk(&valid).unwrap(), ParseState::Complete);
    assert!(parser.module().is_some());

    let state = parser.parse_chunk(&[0x00]).unwrap();
    assert_eq!(state, ParseState::NeedMoreData);
    assert!(parser.module().is_none());
    assert!(parser.into_module().is_none());
}

fn section(id: u8, payload: &[u8]) -> Vec<u8> {
    let mut out = vec![id];
    out.extend_from_slice(&(payload.len() as u32).to_le_bytes());
    out.extend_from_slice(payload);
    out
}

fn header() -> Vec<u8> {
    vec![0x00, 0x61, 0x73, 0x6D, 0x01, 0x00, 0x00, 0x00]
}

#[test]
fn parses_types_imports_functions_code_and_exports() {
    let mut bytes = header();
    bytes.extend(section(1, &[1, 0xFF, 0xFF, 0xFF, 0xFF, 2, 0x7F, 0x7F, 1, 0x7F]));
    bytes.extend(section(2, &[1, 3, b'e', b'n', b'v', 2, 0xC3, 0xA9, 0x00, 0x00]));
    bytes.extend(section(3, &[1, 0]));
    bytes.extend(section(10, &[1, 9, 1, 2, 0x7E, 0x20, 0x00, 0x20, 0x01, 0x6A]));
    bytes.extend(section(7, &[1, 3, b'a', b'd', b'd', 0, 1]));
    let module = Parser::new().parse(&bytes).unwrap();
    assert_eq!(module.types.len(), 1);
    assert_eq!(module.types[0].params.len(), 2);
    assert_eq!(module.imports.len(), 1);
    assert_eq!(module.imports[0].module, "env");
    assert_eq!(module.imports[0].name, "é");
    assert_eq!(module.funcs.len(), 1);
    assert_eq!(module.funcs[0].locals.len(), 1);
    assert_eq!(module.funcs[0].locals[0].count, 2);
    // The declared body size covers the locals as the parser counts them:
    // two i64 locals take 4, leaving 5 code bytes.
    assert_eq!(module.funcs[0].body, vec![0x20, 0x00, 0x20, 0x01, 0x6A]);
    assert_eq!(module.exports[0].name, "add");
}

#[test]
fn invalid_utf8_import_names_are_replaced() {
    let mut bytes = header();
    bytes.extend(section(2, &[1, 1, 0xFF, 1, b'f', 0x00, 0x00]));
    let module = Parser::new().parse(&bytes).unwrap();
    assert_eq!(module.imports[0].module, "\u{FFFD}");
    assert_eq!(module.imports[0].name, "f");
}

#[test]
fn header_errors_are_reported() {
    let parser = Parser::new();
    assert!(parser.parse(&[0x01, 0x02, 0x03, 0x04]).is_err());
    let mut bytes = header();
    bytes[4] = 2;
    match parser.parse(&bytes) {
        Err(e) => assert_eq!(e.display_string(), "Load error: unsupported version: 2"),
        Ok(_) => panic!("expected an error"),
    }
    let mut bytes = header();
    bytes.extend(section(12, &[]));
    match parser.parse(&bytes) {
        Err(e) => assert_eq!(e.display_string(), "Load error: unknown section id: 12"),
        Ok(_) => panic!("expected an error"),
    }
}

#[test]
fn body_smaller_than_its_locals_is_singled_out() {
    let mut bytes = header();
    bytes.extend(section(3, &[1, 0]));
    bytes.extend(section(10, &[1, 0, 1, 1, 0x7F]));
    assert!(Parser::new().parse_checked(&bytes).is_none());
    let ok = Parser::new().parse_checked(&header()).unwrap();
    assert!(ok.unwrap().funcs.is_empty());
}
