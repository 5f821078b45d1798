use bricks::genbank::{genbank_to_biobrick, parse_genbank_raw, parse_location};

const SAMPLE: &str = "LOCUS       BBa_B0034                 12 bp    DNA     circular SYN 15-JAN-2020
DEFINITION  RBS (Elowitz 1999) -- defines RBS efficiency
FEATURES             Location/Qualifiers
     RBS             1..12
                     /label=\"B0034\"
                     /note=\"strong rbs\"
     misc_feature    complement(3..8)
                     /gene=lacZ
     bogus           notalocation
     CDS             5
ORIGIN
        1 aaagaggaga aa
//
        1 cccccc
";

#[test]
fn location_complement_range() {
    let l = parse_location("complement(10..20)").unwrap();
    assert_eq!((l.start, l.end, l.forward), (10, 20, false));
}

#[test]
fn location_single_position() {
    let l = parse_location("5").unwrap();
    assert_eq!((l.start, l.end, l.forward), (5, 5, true));
}

#[test]
fn location_forward_range() {
    let l = parse_location("  3..42 ").unwrap();
    assert_eq!((l.start, l.end, l.forward), (3, 42, true));
}

#[test]
fn location_rejects_bad_input() {
    assert!(parse_location("").is_none());
    assert!(parse_location("x..5").is_none());
    assert!(parse_location("1..").is_none());
    assert!(parse_location("join(1..2,5..6)").is_none());
    assert!(parse_location("2147483648").is_none());
}

#[test]
fn location_integer_edges() {
    assert_eq!(parse_location("-2147483648").unwrap().start, i32::MIN);
    assert_eq!(parse_location("+7").unwrap().end, 7);
    assert!(parse_location("-").is_none());
    assert_eq!(parse_location("complement(complement(4))").unwrap().forward, false);
}

#[test]
fn parse_sample_file() {
    let d = parse_genbank_raw(SAMPLE).unwrap();
    assert_eq!(d.name, "BBa_B0034");
    assert!(d.circular);
    assert_eq!(d.definition, "RBS (Elowitz 1999) -- defines RBS efficiency");
    assert_eq!(d.sequence, "aaagaggagaaa");
    assert_eq!(d.creation.as_deref(), Some("2020-01-15T00:00:00.000Z"));
    assert_eq!(d.features.len(), 3);
    assert_eq!(d.features[0].kind, "RBS");
    assert_eq!((d.features[0].location.start, d.features[0].location.end), (1, 12));
    assert_eq!(
        d.features[0].qualifiers,
        vec![("label".to_string(), "B0034".to_string()), ("note".to_string(), "strong rbs".to_string())]
    );
    assert!(!d.features[1].location.forward);
    assert_eq!(d.features[1].qualifiers, vec![("gene".to_string(), "lacZ".to_string())]);
    assert_eq!(d.features[2].kind, "CDS");
    assert_eq!(d.features[2].location.start, 5);
}

#[test]
fn parse_drops_bad_date() {
    let text = "LOCUS       X 4 bp DNA linear 99-FOO-2020\nORIGIN\n 1 acgt\n";
    let d = parse_genbank_raw(text).unwrap();
    assert_eq!(d.creation, None);
    assert!(!d.circular);
    assert_eq!(d.sequence, "acgt");
}

#[test]
fn parse_month_case_is_normalized() {
    let text = "LOCUS       X 4 bp DNA linear 03-mAr-1999\n";
    let d = parse_genbank_raw(text).unwrap();
    assert_eq!(d.creation.as_deref(), Some("1999-03-03T00:00:00.000Z"));
}

#[test]
fn parse_empty_is_none() {
    assert!(parse_genbank_raw("").is_none());
    assert!(parse_genbank_raw("DEFINITION  only a definition\n").is_none());
    assert!(parse_genbank_raw("garbage\nmore garbage").is_none());
}

#[test]
fn parse_truncated_keeps_partial() {
    let text = "LOCUS       PART1\nFEATURES             Location/Qualifiers\n     gene            1..4\n                     /gene";
    let d = parse_genbank_raw(text).unwrap();
    assert_eq!(d.name, "PART1");
    assert_eq!(d.features.len(), 1);
    assert!(d.features[0].qualifiers.is_empty());
    assert_eq!(d.sequence, "");
}

#[test]
fn parse_crlf_lines() {
    let text = "LOCUS       CR 2 bp\r\nORIGIN\r\n 1 ga\r\n";
    let d = parse_genbank_raw(text).unwrap();
    assert_eq!(d.name, "CR");
    assert_eq!(d.sequence, "ga");
}

#[test]
fn build_candidate_from_sample() {
    let d = parse_genbank_raw(SAMPLE).unwrap();
    let b = genbank_to_biobrick("BBa_B0034", "NCBI", "https://example.org/x", d, "2024-05-01T00:00:00.000Z".to_string());
    assert_eq!(b.metadata.id, "BBa_B0034");
    assert_eq!(b.metadata.name, "RBS (Elowitz 1999) -- defines RBS efficiency");
    assert_eq!(b.metadata.category.canonical, "ribosome_entry_site");
    assert_eq!(b.metadata.size, 12);
    assert!(b.metadata.circular);
    assert_eq!(b.metadata.providers.len(), 1);
    assert_eq!(b.metadata.providers[0].name, "NCBI");
    assert_eq!(b.metadata.providers[0].link, "https://example.org/x");
    assert_eq!(b.metadata.providers[0].date, "2024-05-01T00:00:00.000Z");
    assert_eq!(b.metadata.description, "");
    assert!(b.metadata.authors.is_empty());
    assert_eq!(b.metadata.creation.as_deref(), Some("2020-01-15T00:00:00.000Z"));
    assert_eq!(b.features.len(), 3);
    assert_eq!(b.features[0].id, "B0034_1");
    assert_eq!(b.features[0].name, "B0034");
    assert_eq!(b.features[0].category.canonical, "ribosome_entry_site");
    assert_eq!(b.features[1].id, "lacZ_3");
    assert!(!b.features[1].location.forward);
    assert_eq!(b.features[2].id, "CDS_5");
    assert_eq!(b.features[2].category.canonical, "coding_sequence");
}
