use bricks::ontology::{category, classify_lowered, multiple_type_inference, type_inference, ONTOLOGY_LEN};

#[test]
fn classify_promoter_text() {
    assert_eq!(type_inference("promoter region upstream").canonical, "promoter");
}

#[test]
fn classify_empty_is_fallback() {
    let e = type_inference("");
    assert_eq!(e.canonical, "sequence_feature");
    assert_eq!(e.slug, "misc");
    assert_eq!(e.ontology, None);
}

#[test]
fn classify_unmatched_is_fallback() {
    assert_eq!(type_inference("zzz qqq").canonical, "sequence_feature");
}

#[test]
fn classify_is_deterministic() {
    for note in ["Ribosome binding site", "rbs", "terminator T1", "", "xyz"] {
        assert_eq!(type_inference(note).canonical, type_inference(note).canonical);
    }
}

#[test]
fn classify_folds_case_and_separators() {
    assert_eq!(type_inference("PROMOTER").canonical, "promoter");
    assert_eq!(type_inference("Stop-Codon").canonical, "stop_codon");
    assert_eq!(type_inference("origin_of_replication").canonical, "origin_of_replication");
    assert_eq!(type_inference("CDS").canonical, "coding_sequence");
    assert_eq!(type_inference("pUC backbone").canonical, "plasmid_backbone");
}

#[test]
fn classify_lowered_takes_folded_text() {
    assert_eq!(classify_lowered("a strong promoter"), 4);
    assert_eq!(classify_lowered("PROMOTER"), 0);
    assert_eq!(classify_lowered("poly-a signal"), 0);
    assert_eq!(classify_lowered("polya signal"), 11);
}

#[test]
fn classify_priority_order() {
    // "coding sequence" (1) is checked before "promoter" (4)
    assert_eq!(type_inference("promoter and coding sequence").canonical, "coding_sequence");
}

#[test]
fn multiple_agreeing_notes() {
    let notes = vec!["terminator".to_string(), "".to_string(), "T1 terminator".to_string()];
    assert_eq!(multiple_type_inference(&notes).canonical, "terminator");
}

#[test]
fn multiple_conflicting_notes_take_earliest() {
    let notes = vec!["terminator".to_string(), "promoter".to_string()];
    assert_eq!(multiple_type_inference(&notes).canonical, "promoter");
    let notes = vec!["promoter".to_string(), "terminator".to_string()];
    assert_eq!(multiple_type_inference(&notes).canonical, "promoter");
}

#[test]
fn multiple_none_is_fallback() {
    let notes: Vec<String> = vec!["".to_string(), "nothing here".to_string()];
    assert_eq!(multiple_type_inference(&notes).canonical, "sequence_feature");
    assert_eq!(multiple_type_inference(&[]).canonical, "sequence_feature");
}

#[test]
fn registry_entries() {
    assert_eq!(ONTOLOGY_LEN, 15);
    let c = category(2);
    assert_eq!(c.canonical, "ribosome_entry_site");
    assert_eq!(c.ontology.as_deref(), Some("SO:0000139"));
    assert_eq!(c.also, vec!["rbs", "ribosome binding", "ribosome entry"]);
    assert_eq!(category(14).css, "plasmid");
}
