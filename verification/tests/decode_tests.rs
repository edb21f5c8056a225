use rrg_diagram::builder::build;
use rrg_diagram::decode::{decode, kind_from_label, DecodeError};
use rrg_diagram::record::CategoryKind;

#[test]
fn every_kind_name_decodes() {
    let cases = [
        ("Pred", CategoryKind::Pred),
        ("Nuc", CategoryKind::Nuc),
        ("Core", CategoryKind::Core),
        ("CoreP", CategoryKind::CoreP),
        ("Clause", CategoryKind::Clause),
        ("ClauseP", CategoryKind::ClauseP),
        ("Sentence", CategoryKind::Sentence),
    ];
    for (name, kind) in cases {
        assert_eq!(kind_from_label(&name.to_string()), Some(kind));
        assert_eq!(kind.name(), name);
    }
}

#[test]
fn unknown_kind_name_is_rejected() {
    assert_eq!(kind_from_label(&"Foo".to_string()), None);
    assert_eq!(kind_from_label(&"pred".to_string()), None);
    assert_eq!(kind_from_label(&"".to_string()), None);
}

#[test]
fn decode_reads_a_full_unit() {
    let text = r#"[
        {"phon": "leaving",
         "top": {"pos": "V", "kind": "Pred"},
         "bot": [{"op": "ASP", "kind": "Nuc"}, {"op": "TNS", "kind": "Clause"}]}
    ]"#;
    let units = decode(text).unwrap();
    assert_eq!(units.len(), 1);
    assert_eq!(units[0].surface_label, "leaving");
    let top = units[0].top.as_ref().unwrap();
    assert_eq!(top.category_label, "V");
    assert_eq!(top.kind, CategoryKind::Pred);
    let bots = units[0].bottoms.as_ref().unwrap();
    assert_eq!(bots.len(), 2);
    assert_eq!(bots[0].operator_label, "ASP");
    assert_eq!(bots[0].kind, CategoryKind::Nuc);
    assert_eq!(bots[1].operator_label, "TNS");
    assert_eq!(bots[1].kind, CategoryKind::Clause);
}

#[test]
fn decode_accepts_absent_and_null_attachments() {
    let text = r#"[{"phon": "well"}, {"phon": "so", "top": null, "bot": null}]"#;
    let units = decode(text).unwrap();
    assert_eq!(units.len(), 2);
    assert!(units[0].top.is_none());
    assert!(units[0].bottoms.is_none());
    assert!(units[1].top.is_none());
    assert!(units[1].bottoms.is_none());
}

#[test]
fn unknown_kind_fails_decode_with_position() {
    let text = r#"[{"phon": "x", "top": {"pos": "N", "kind": "Foo"}}]"#;
    assert_eq!(decode(text), Err(DecodeError::MalformedInput(Some(0))));
}

#[test]
fn unknown_operator_kind_names_its_unit() {
    let text = r#"[{"phon": "a"}, {"phon": "b", "bot": [{"op": "IF", "kind": "Foo"}]}]"#;
    assert_eq!(decode(text), Err(DecodeError::MalformedInput(Some(1))));
}

#[test]
fn missing_phon_fails_decode() {
    let text = r#"[{"top": {"pos": "V", "kind": "Pred"}}]"#;
    assert_eq!(decode(text), Err(DecodeError::MalformedInput(Some(0))));
}

#[test]
fn missing_top_fields_fail_decode() {
    let text = r#"[{"phon": "x", "top": {"kind": "Core"}}]"#;
    assert_eq!(decode(text), Err(DecodeError::MalformedInput(Some(0))));
    let text = r#"[{"phon": "x", "top": {"pos": "NP"}}]"#;
    assert_eq!(decode(text), Err(DecodeError::MalformedInput(Some(0))));
}

#[test]
fn non_array_bot_fails_decode() {
    let text = r#"[{"phon": "x", "bot": {"op": "IF", "kind": "Clause"}}]"#;
    assert_eq!(decode(text), Err(DecodeError::MalformedInput(Some(0))));
}

#[test]
fn non_string_fields_fail_decode() {
    let text = r#"[{"phon": 3}]"#;
    assert_eq!(decode(text), Err(DecodeError::MalformedInput(Some(0))));
    let text = r#"[{"phon": "x", "top": {"pos": "V", "kind": 7}}]"#;
    assert_eq!(decode(text), Err(DecodeError::MalformedInput(Some(0))));
}

#[test]
fn non_array_root_fails_decode() {
    assert_eq!(
        decode(r#"{"phon": "x"}"#),
        Err(DecodeError::MalformedInput(None))
    );
}

#[test]
fn malformed_json_fails_decode() {
    assert_eq!(decode("not json at all"), Err(DecodeError::MalformedInput(None)));
    assert_eq!(decode(""), Err(DecodeError::MalformedInput(None)));
    assert_eq!(decode(r#"[{"phon": "x""#), Err(DecodeError::MalformedInput(None)));
}

#[test]
fn decoded_example_builds() {
    let text = r#"[
        {"phon": "Will", "bot": [{"op": "IF", "kind": "Clause"}, {"op": "TNS", "kind": "Clause"}]},
        {"phon": "they", "top": {"pos": "NP", "kind": "Core"}},
        {"phon": "have to", "bot": [{"op": "MOD", "kind": "Core"}]},
        {"phon": "be", "bot": [{"op": "ASP", "kind": "Nuc"}]},
        {"phon": "leaving", "top": {"pos": "V", "kind": "Pred"}, "bot": [{"op": "ASP", "kind": "Nuc"}]}
    ]"#;
    let units = decode(text).unwrap();
    assert_eq!(units.len(), 5);
    let model = build(&units).unwrap();
    assert!(!model.nodes.is_empty());
}
