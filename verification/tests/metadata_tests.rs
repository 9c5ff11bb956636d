use rmskin_builder::errors::BuildError;
use rmskin_builder::metadata::parse_metadata;

#[test]
fn resolves_both_keys_in_section() {
    let text = b"[rmskin]\nName=MyTheme\nVersion=2.3\n".to_vec();
    let meta = parse_metadata(&text).unwrap();
    assert_eq!(meta.name, b"MyTheme".to_vec());
    assert_eq!(meta.version, b"2.3".to_vec());
}

#[test]
fn resolves_keys_before_any_section() {
    let text = b"Name=Plain\nVersion=0.9".to_vec();
    let meta = parse_metadata(&text).unwrap();
    assert_eq!(meta.name, b"Plain".to_vec());
    assert_eq!(meta.version, b"0.9".to_vec());
}

#[test]
fn missing_version_falls_back_to_default() {
    let text = b"[rmskin]\nName=MyTheme\n".to_vec();
    let meta = parse_metadata(&text).unwrap();
    assert_eq!(meta.name, b"MyTheme".to_vec());
    assert_eq!(meta.version, b"1.0".to_vec());
}

#[test]
fn missing_name_falls_back_to_default() {
    let text = b"[rmskin]\nVersion=4.2\n".to_vec();
    let meta = parse_metadata(&text).unwrap();
    assert_eq!(meta.name, b"DefaultName".to_vec());
    assert_eq!(meta.version, b"4.2".to_vec());
}

#[test]
fn empty_text_resolves_to_both_defaults() {
    let text = Vec::new();
    let meta = parse_metadata(&text).unwrap();
    assert_eq!(meta.name, b"DefaultName".to_vec());
    assert_eq!(meta.version, b"1.0".to_vec());
}

#[test]
fn crlf_line_endings_are_accepted() {
    let text = b"[rmskin]\r\nName=Crisp\r\nVersion=7\r\n".to_vec();
    let meta = parse_metadata(&text).unwrap();
    assert_eq!(meta.name, b"Crisp".to_vec());
    assert_eq!(meta.version, b"7".to_vec());
}

#[test]
fn comments_and_blank_lines_are_ignored() {
    let text = b"; a comment\n# another\n\n[rmskin]\nName=Quiet\n".to_vec();
    let meta = parse_metadata(&text).unwrap();
    assert_eq!(meta.name, b"Quiet".to_vec());
}

#[test]
fn first_binding_of_a_key_wins() {
    let text = b"Name=First\nName=Second\n".to_vec();
    let meta = parse_metadata(&text).unwrap();
    assert_eq!(meta.name, b"First".to_vec());
}

#[test]
fn bindings_in_other_sections_do_not_count() {
    let text = b"[other]\nName=Elsewhere\n[rmskin]\nVersion=3\n".to_vec();
    let meta = parse_metadata(&text).unwrap();
    assert_eq!(meta.name, b"DefaultName".to_vec());
    assert_eq!(meta.version, b"3".to_vec());
}

#[test]
fn line_without_equals_is_malformed() {
    let text = b"[rmskin]\nName=Good\njust some words\n".to_vec();
    assert_eq!(parse_metadata(&text), Err(BuildError::MetadataParseError));
}

#[test]
fn empty_key_is_malformed() {
    let text = b"=value\n".to_vec();
    assert_eq!(parse_metadata(&text), Err(BuildError::MetadataParseError));
}

#[test]
fn unclosed_section_header_is_malformed() {
    let text = b"[rmskin\nName=X\n".to_vec();
    assert_eq!(parse_metadata(&text), Err(BuildError::MetadataParseError));
}

#[test]
fn value_bytes_are_kept_verbatim() {
    let text = b"Name= spaced out \n".to_vec();
    let meta = parse_metadata(&text).unwrap();
    assert_eq!(meta.name, b" spaced out ".to_vec());
}
