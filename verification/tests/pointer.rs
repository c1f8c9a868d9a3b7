use balatro_mod_index::error::{IndexError, ProtocolError};
use balatro_mod_index::lfs::{parse_pointer, Pointer, GH_API_HASH_ALGO, VERSION};

fn protocol(e: ProtocolError) -> Result<Pointer, IndexError> {
    Err(IndexError::Protocol(e))
}

#[test]
fn pointer_file_parses_to_oid_and_size() {
    let parsed = parse_pointer("version https://git-lfs.github.com/spec/v1\noid sha256:abcd\nsize 42");
    assert_eq!(parsed, Ok(Pointer { oid: "abcd".to_string(), size: 42 }));
}

#[test]
fn real_pointer_file_with_final_newline_parses() {
    let text = "version https://git-lfs.github.com/spec/v1\n\
                oid sha256:4d7a214614ab2935c943f9e0ff69d22eadbb8f32b1258daaa5e2ca24d17e2393\n\
                size 12345\n";
    let parsed = parse_pointer(text).unwrap();
    assert_eq!(parsed.oid, "4d7a214614ab2935c943f9e0ff69d22eadbb8f32b1258daaa5e2ca24d17e2393");
    assert_eq!(parsed.size, 12345);
}

#[test]
fn other_hash_algorithm_is_rejected() {
    let parsed = parse_pointer("version https://git-lfs.github.com/spec/v1\noid sha1:abcd\nsize 42");
    assert_eq!(parsed, protocol(ProtocolError::HashAlgorithm));
}

#[test]
fn other_version_is_rejected() {
    let parsed = parse_pointer("version https://git-lfs.github.com/spec/v2\noid sha256:abcd\nsize 42");
    assert_eq!(parsed, protocol(ProtocolError::Version));
    assert_eq!(parse_pointer("version "), protocol(ProtocolError::NotKeyValue));
    assert_eq!(parse_pointer("version  https://git-lfs.github.com/spec/v1"), protocol(ProtocolError::Version));
}

#[test]
fn constants_name_the_format() {
    assert_eq!(VERSION, "https://git-lfs.github.com/spec/v1");
    assert_eq!(GH_API_HASH_ALGO, "sha256");
}

#[test]
fn line_without_a_space_is_rejected() {
    assert_eq!(parse_pointer("oid"), protocol(ProtocolError::NotKeyValue));
    assert_eq!(parse_pointer("size 1\nnonsense\nsize 2"), protocol(ProtocolError::NotKeyValue));
}

#[test]
fn blank_line_is_rejected_but_final_newline_is_not() {
    assert_eq!(parse_pointer("size 1\n\nsize 2"), protocol(ProtocolError::NotKeyValue));
    assert_eq!(parse_pointer("\n"), protocol(ProtocolError::NotKeyValue));
    assert_eq!(parse_pointer("size 1\n\n"), protocol(ProtocolError::NotKeyValue));
    assert_eq!(parse_pointer("size 1\n"), Ok(Pointer { oid: String::new(), size: 1 }));
}

#[test]
fn empty_text_is_the_empty_pointer() {
    assert_eq!(parse_pointer(""), Ok(Pointer { oid: String::new(), size: 0 }));
    assert_eq!(parse_pointer(""), Ok(Pointer::default()));
}

#[test]
fn lines_are_trimmed_and_carriage_returns_dropped() {
    let parsed = parse_pointer("  oid sha256:ab12 \r\n\tsize 7\t\r\n");
    assert_eq!(parsed, Ok(Pointer { oid: "ab12".to_string(), size: 7 }));
    let wide = parse_pointer("\u{3000}size 9\u{a0}");
    assert_eq!(wide, Ok(Pointer { oid: String::new(), size: 9 }));
}

#[test]
fn unknown_keys_are_ignored() {
    let parsed = parse_pointer("x-extra whatever else\noid sha256:ff\nanother 1");
    assert_eq!(parsed, Ok(Pointer { oid: "ff".to_string(), size: 0 }));
}

#[test]
fn later_lines_override_earlier_ones() {
    let parsed = parse_pointer("oid sha256:aa\nsize 1\noid sha256:bb\nsize 2");
    assert_eq!(parsed, Ok(Pointer { oid: "bb".to_string(), size: 2 }));
}

#[test]
fn oid_without_a_colon_is_missing() {
    assert_eq!(parse_pointer("oid sha256"), protocol(ProtocolError::MissingOid));
    assert_eq!(parse_pointer("oid abcd"), protocol(ProtocolError::HashAlgorithm));
    assert_eq!(parse_pointer("oid :abcd"), protocol(ProtocolError::HashAlgorithm));
}

#[test]
fn oid_ends_at_a_second_colon() {
    assert_eq!(parse_pointer("oid sha256:ab:cd"), Ok(Pointer { oid: "ab".to_string(), size: 0 }));
    assert_eq!(parse_pointer("oid sha256:"), Ok(Pointer { oid: String::new(), size: 0 }));
}

#[test]
fn size_must_be_a_decimal_number() {
    assert_eq!(parse_pointer("size 4x2"), protocol(ProtocolError::Size));
    assert_eq!(parse_pointer("size -1"), protocol(ProtocolError::Size));
    assert_eq!(parse_pointer("size +"), protocol(ProtocolError::Size));
    assert_eq!(parse_pointer("size 1 2"), protocol(ProtocolError::Size));
    assert_eq!(parse_pointer("size 0x10"), protocol(ProtocolError::Size));
    assert_eq!(parse_pointer("size +42"), Ok(Pointer { oid: String::new(), size: 42 }));
    assert_eq!(parse_pointer("size 007"), Ok(Pointer { oid: String::new(), size: 7 }));
}

#[test]
fn size_must_fit() {
    let most = format!("size {}", usize::MAX);
    assert_eq!(parse_pointer(&most), Ok(Pointer { oid: String::new(), size: usize::MAX }));
    let more = format!("size {}0", usize::MAX);
    assert_eq!(parse_pointer(&more), protocol(ProtocolError::Size));
    let next = format!("size {}", usize::MAX as u128 + 1);
    assert_eq!(parse_pointer(&next), protocol(ProtocolError::Size));
}

#[test]
fn first_bad_line_decides() {
    assert_eq!(parse_pointer("oid sha1:aa\nversion 3"), protocol(ProtocolError::HashAlgorithm));
    assert_eq!(parse_pointer("version 3\noid sha1:aa"), protocol(ProtocolError::Version));
}

#[test]
fn text_beyond_ascii_is_read_by_characters() {
    let parsed = parse_pointer("clé valeur\noid sha256:é\u{1F600}z\nsize 3");
    assert_eq!(parsed, Ok(Pointer { oid: "é\u{1F600}z".to_string(), size: 3 }));
}
