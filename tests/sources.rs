use bricks::authors::{credit_names, distinct_names, split_authors};
use bricks::sources::{addgene_candidate, api_part_candidate, edit_row_feature, edit_sequence, fasta_body, igem_parts_candidate, part_type_in};
use bricks::types::Author;

#[test]
fn split_authors_basic() {
    assert_eq!(split_authors("Jane Doe, John Smith and  Ann   Lee; 2004"), vec!["Jane Doe", "John Smith", "Ann Lee"]);
}

#[test]
fn split_authors_filters() {
    assert_eq!(split_authors("Al, Bo, Designed by: X, Dr. Who."), vec!["Dr. Who"]);
    assert_eq!(split_authors(""), Vec::<String>::new());
    assert_eq!(split_authors("Zoë"), vec!["Zoë"]);
    assert_eq!(split_authors("Zö"), vec!["Zö"]);
}

#[test]
fn credit_names_from_block() {
    let t = "Designed by: Reshma Shetty Group: iGEM (2003-01-31)";
    assert_eq!(credit_names(t, 500), Some(vec!["Reshma Shetty".to_string()]));
    let t = "Designed by: Randy Rettberg (2003)";
    assert_eq!(credit_names(t, 500), Some(vec!["Randy Rettberg".to_string()]));
    assert_eq!(credit_names("no credit here", 500), None);
    assert_eq!(credit_names(t, 10), None);
}

#[test]
fn distinct_names_keeps_first() {
    let v = vec!["A B C".to_string(), "D E".to_string(), "A B C".to_string()];
    assert_eq!(distinct_names(v), vec!["A B C", "D E"]);
}

#[test]
fn part_type_from_text() {
    assert_eq!(part_type_in("Part Type: Coding\nmore").as_deref(), Some("Coding"));
    assert_eq!(part_type_in("xType:  RBS <b>").as_deref(), Some("RBS"));
    assert_eq!(part_type_in("Type: open ended"), None);
    assert_eq!(part_type_in("nothing"), None);
}

#[test]
fn edit_sequence_keeps_ascii_letters() {
    assert_eq!(edit_sequence("  ACGT 12\nttgA é"), "acgtttga");
}

#[test]
fn edit_row_to_feature() {
    let cells: Vec<String> = ["42", "CDS", "", "10", "x", "Reverse"].iter().map(|s| s.to_string()).collect();
    let f = edit_row_feature(&cells).unwrap();
    assert_eq!(f.id, "igem_42");
    assert_eq!(f.name, "cds");
    assert_eq!(f.category.canonical, "coding_sequence");
    assert_eq!((f.location.start, f.location.end, f.location.forward), (10, 0, false));
    let short: Vec<String> = vec!["1".to_string()];
    assert!(edit_row_feature(&short).is_none());
}

#[test]
fn igem_parts_needs_sequence() {
    assert!(igem_parts_candidate("BBa_X", "n".into(), "d".into(), String::new(), vec![], vec![], None, "t".into()).is_none());
    let b = igem_parts_candidate("BBa_X", "n".into(), "a terminator".into(), "acgt".into(), vec![], vec![], None, "t".into()).unwrap();
    assert_eq!(b.metadata.size, 4);
    assert_eq!(b.metadata.category.canonical, "terminator");
    assert_eq!(b.metadata.providers[0].link, "https://parts.igem.org/Part:BBa_X");
}

#[test]
fn api_part_fields() {
    let b = api_part_candidate(
        "BBa_K1",
        None,
        Some("ACGT".into()),
        Some("short".into()),
        Some("Promoter".into()),
        Some(vec!["Ann".into(), "Bob".into()]),
        None,
        "now".into(),
    )
    .unwrap();
    assert_eq!(b.sequence, "acgt");
    assert_eq!(b.metadata.name, "BBa_K1");
    assert_eq!(b.metadata.category.canonical, "promoter");
    assert_eq!(b.metadata.authors.len(), 2);
    assert_eq!(b.metadata.creation.as_deref(), Some("now"));
    assert_eq!(b.metadata.providers[0].link, "https://registry.igem.org/parts/bba-k1");
    assert!(api_part_candidate("X", None, None, None, None, None, None, "t".into()).is_none());
}

#[test]
fn fasta_body_strips_headers() {
    assert_eq!(fasta_body(">seq1 NGS Result\n>more\nACG T\r\nTTA\n"), "ACGTTTA");
    assert_eq!(fasta_body("ACGT\n>inner\nAA"), "ACGT>innerAA");
}

#[test]
fn addgene_fallback_and_flat_file() {
    let b = addgene_candidate("12345", None, Some("acgt".into()), None, vec![], None, "t".into()).unwrap();
    assert_eq!(b.metadata.name, "AddGene Plasmid 12345");
    assert!(b.metadata.circular);
    assert_eq!(b.metadata.category.canonical, "plasmid");
    let flat = "LOCUS       pX 4 bp DNA circular 01-JAN-2020\nDEFINITION  a vector\nORIGIN\n 1 acgt\n".to_string();
    let authors = vec![Author { name: "PI".into(), role: None }];
    let b = addgene_candidate("12345", Some(flat), None, Some("pX-GFP".into()), authors, Some("purpose".into()), "t".into()).unwrap();
    assert_eq!(b.metadata.name, "pX-GFP");
    assert_eq!(b.metadata.description, "purpose");
    assert_eq!(b.metadata.creation, None);
    assert_eq!(b.metadata.category.canonical, "plasmid");
    assert_eq!(b.metadata.authors[0].name, "PI");
    assert!(addgene_candidate("1", Some("junk".into()), None, None, vec![], None, "t".into()).is_none());
}
