use bluetodo_tui::error::ProtoError;
use bluetodo_tui::line::{build_proto_line, parse_proto_line, split_crc};
use bluetodo_tui::params::Params;
use bluetodo_tui::request::{build_request_line, request_base_text};

fn pairs(items: &[(&str, &str)]) -> Vec<(String, String)> {
    items.iter().map(|(k, v)| (k.to_string(), v.to_string())).collect()
}

#[test]
fn build_appends_checksum() {
    assert_eq!(build_proto_line("HELLO seq=1"), "HELLO seq=1 crc32=506B7578");
    assert_eq!(build_proto_line(""), " crc32=00000000");
}

#[test]
fn split_crc_takes_last_marker_and_trims() {
    let (base, crc) = split_crc("A crc32=1 crc32= 5F ").unwrap();
    assert_eq!(base, "A crc32=1");
    assert_eq!(crc, "5F");
    assert!(split_crc("HELLO seq=1").is_none());
    assert!(split_crc("HELLO crc32=   ").is_none());
}

#[test]
fn parse_reads_kind_params_and_seq() {
    let line = parse_proto_line("OK proto=2 seq=1 crc32=A2823564").unwrap();
    assert_eq!(line.kind, "OK");
    assert_eq!(line.seq, "1");
    assert_eq!(line.params.get("proto").unwrap(), "2");
    assert!(line.params.get("seq").is_none());
}

#[test]
fn parse_accepts_lower_case_checksum() {
    let line = parse_proto_line("OK proto=2 seq=1 crc32=a2823564").unwrap();
    assert_eq!(line.kind, "OK");
}

#[test]
fn parse_decodes_values() {
    let line = parse_proto_line("TODO id=7 title=Einkauf%20Markt seq=3 crc32=29D72B9D").unwrap();
    assert_eq!(line.params.get("title").unwrap(), "Einkauf Markt");
    assert_eq!(line.params.get("id").unwrap(), "7");
}

#[test]
fn parse_errors() {
    assert!(matches!(parse_proto_line("OK proto=2 seq=1"), Err(ProtoError::MissingCrc)));
    assert!(matches!(parse_proto_line("OK proto=2 seq=1 crc32=00000000"), Err(ProtoError::BadCrc)));
    assert!(matches!(parse_proto_line(&build_proto_line("   ")), Err(ProtoError::MissingCommand)));
    assert!(matches!(parse_proto_line(&build_proto_line("OK proto seq=1")), Err(ProtoError::BadParam)));
    assert!(matches!(parse_proto_line(&build_proto_line("OK a=%zz seq=1")), Err(ProtoError::BadEscape)));
    assert!(matches!(parse_proto_line(&build_proto_line("OK a=%FF seq=1")), Err(ProtoError::BadUtf8)));
    assert!(matches!(parse_proto_line(&build_proto_line("OK proto=2")), Err(ProtoError::MissingSeq)));
}

#[test]
fn later_parameter_wins() {
    let line = parse_proto_line(&build_proto_line("OK a=1 a=2 seq=9")).unwrap();
    assert_eq!(line.params.get("a").unwrap(), "2");
}

#[test]
fn request_line_format() {
    let params = pairs(&[("title", "Milch"), ("desc", "2 Liter")]);
    assert_eq!(request_base_text("ADD_TODO", &params, 5), "ADD_TODO title=Milch desc=2%20Liter seq=5");
    assert_eq!(
        build_request_line("ADD_TODO", &params, 5),
        "ADD_TODO title=Milch desc=2%20Liter seq=5 crc32=831B0BA6"
    );
}

#[test]
fn request_line_reads_back() {
    let params = pairs(&[("title", "Ein Titel = mit % Zeichen"), ("desc", "\u{e4}"), ("title", "zweiter")]);
    let line = parse_proto_line(&build_request_line("UPDATE_TODO", &params, 42)).unwrap();
    assert_eq!(line.kind, "UPDATE_TODO");
    assert_eq!(line.seq, "42");
    assert_eq!(line.params.get("title").unwrap(), "zweiter");
    assert_eq!(line.params.get("desc").unwrap(), "\u{e4}");
}

#[test]
fn params_insert_get_remove() {
    let mut p = Params::new();
    assert!(p.get("k").is_none());
    p.insert("k".to_string(), "1".to_string());
    p.insert("j".to_string(), "2".to_string());
    p.insert("k".to_string(), "3".to_string());
    assert_eq!(p.get("k").unwrap(), "3");
    assert_eq!(p.get_or_empty("x"), "");
    assert_eq!(p.remove("k").unwrap(), "3");
    assert!(p.get("k").is_none());
    assert_eq!(p.get("j").unwrap(), "2");
    assert!(p.remove("k").is_none());
}

#[test]
fn parse_keeps_leading_zeros_of_seq() {
    let line = parse_proto_line(&build_proto_line("DONE_TASK id=4 note=a%20b seq=007")).unwrap();
    assert_eq!(line.kind, "DONE_TASK");
    assert_eq!(line.seq, "007");
    assert_eq!(line.params.get("id").unwrap(), "4");
    assert_eq!(line.params.get("note").unwrap(), "a b");
    assert!(line.params.get("seq").is_none());
}
