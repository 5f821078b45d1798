use bricks::merge::{enrich, fold_biobricks, merge_features, merge_strings, MergeError};
use bricks::ontology::category;
use bricks::types::{Author, Biobrick, Location, MetaBiobrick, MetaFeature, MetaProvider};

fn feature(id: &str, name: &str, start: i32) -> MetaFeature {
    MetaFeature {
        id: id.to_string(),
        name: name.to_string(),
        category: category(0),
        location: Location { start, end: start + 10, forward: true },
    }
}

fn provider(name: &str) -> MetaProvider {
    MetaProvider { name: name.to_string(), link: format!("https://{}", name), date: "2024".to_string() }
}

fn brick(id: &str, name: &str, sequence: &str, features: Vec<MetaFeature>, providers: Vec<MetaProvider>) -> Biobrick {
    Biobrick {
        metadata: MetaBiobrick {
            id: id.to_string(),
            name: name.to_string(),
            category: category(4),
            circular: false,
            size: sequence.chars().count(),
            providers,
            description: String::new(),
            authors: vec![],
            creation: None,
        },
        sequence: sequence.to_string(),
        features,
    }
}

#[test]
fn merge_strings_identities() {
    assert_eq!(merge_strings("lacZ", "lacZ"), "lacZ");
    assert_eq!(merge_strings("lacZ", ""), "lacZ");
    assert_eq!(merge_strings("", "tetR"), "tetR");
    assert_eq!(merge_strings("", ""), "");
}

#[test]
fn merge_strings_near_duplicate() {
    assert_eq!(merge_strings("GFP", "gfp"), "GFP");
}

#[test]
fn merge_strings_containment() {
    assert_eq!(merge_strings("GFP reporter", "GFP"), "GFP reporter");
    assert_eq!(merge_strings("GFP", "strong GFP reporter"), "strong GFP reporter");
}

#[test]
fn merge_strings_joins_distinct() {
    assert_eq!(merge_strings("lacZ", "tetR"), "lacZ / tetR");
}

#[test]
fn merge_strings_threshold_is_three() {
    // three mismatching positions still count as a near-duplicate
    assert_eq!(merge_strings("abcd", "axyz"), "abcd");
    // four do not
    assert_eq!(merge_strings("abcd", "wxyz"), "abcd / wxyz");
    // a length difference counts too
    assert_eq!(merge_strings("abcdefgh", "abcdxyzw1"), "abcdefgh / abcdxyzw1");
}

#[test]
fn fold_single_candidate_is_unchanged() {
    let a = brick("BBa_X", "part", "ACGT", vec![feature("f1", "f1", 1), feature("f1", "f1", 1)], vec![provider("p")]);
    let r = fold_biobricks(vec![a]).unwrap();
    assert_eq!(r.metadata.id, "BBa_X");
    assert_eq!(r.metadata.name, "part");
    assert_eq!(r.metadata.category.canonical, "promoter");
    assert_eq!(r.metadata.size, 4);
    assert_eq!(r.sequence, "ACGT");
    assert_eq!(r.features.len(), 2);
    assert_eq!(r.metadata.providers.len(), 1);
    assert!(!r.metadata.circular);
}

#[test]
fn fold_earliest_wins() {
    let a = brick("BBa_X", "first", "AAAA", vec![], vec![provider("p1")]);
    let mut b = brick("BBa_X", "second", "CCCCCC", vec![], vec![provider("p2")]);
    b.metadata.circular = true;
    let r = fold_biobricks(vec![a, b]).unwrap();
    assert_eq!(r.metadata.id, "BBa_X");
    assert_eq!(r.metadata.size, 4);
    assert_eq!(r.sequence, "AAAA");
    assert!(r.metadata.circular);
    assert_eq!(r.metadata.name, "first / second");
    let names: Vec<&str> = r.metadata.providers.iter().map(|p| p.name.as_str()).collect();
    assert_eq!(names, vec!["p1", "p2"]);
}

#[test]
fn fold_end_to_end_dedups_features() {
    let a = brick("BBa_X", "A", "ACGT", vec![feature("f1", "from A", 1), feature("f2", "two", 5)], vec![provider("p1")]);
    let b = brick("BBa_X", "B", "ACGT", vec![feature("f1", "from B", 1)], vec![provider("p1")]);
    let r = fold_biobricks(vec![a, b]).unwrap();
    assert_eq!(r.features.len(), 2);
    assert_eq!(r.features[0].id, "f1");
    assert_eq!(r.features[0].name, "from A");
    assert_eq!(r.features[1].id, "f2");
    assert_eq!(r.metadata.providers.len(), 1);
}

#[test]
fn fold_features_have_unique_ids() {
    let a = brick("X", "A", "ACGT", vec![feature("f1", "a", 1), feature("f1", "b", 1)], vec![]);
    let b = brick("X", "B", "ACGT", vec![feature("f2", "c", 2), feature("f1", "d", 1), feature("f2", "e", 2)], vec![]);
    let r = fold_biobricks(vec![a, b]).unwrap();
    let ids: Vec<&str> = r.features.iter().map(|f| f.id.as_str()).collect();
    assert_eq!(ids, vec!["f1", "f2"]);
}

#[test]
fn fold_is_order_sensitive() {
    let a = brick("X", "alpha", "AAAA", vec![], vec![]);
    let b = brick("X", "omega", "CC", vec![], vec![]);
    let ab = fold_biobricks(vec![a, b]).unwrap();
    let a = brick("X", "alpha", "AAAA", vec![], vec![]);
    let b = brick("X", "omega", "CC", vec![], vec![]);
    let ba = fold_biobricks(vec![b, a]).unwrap();
    assert_eq!(ab.sequence, "AAAA");
    assert_eq!(ba.sequence, "CC");
    assert_eq!(ab.metadata.name, "alpha / omega");
    assert_eq!(ba.metadata.name, "omega / alpha");
}

#[test]
fn fold_id_mismatch_is_fatal() {
    let a = brick("X", "A", "ACGT", vec![], vec![]);
    let b = brick("X", "B", "ACGT", vec![], vec![]);
    let c = brick("Y", "C", "ACGT", vec![], vec![]);
    assert_eq!(fold_biobricks(vec![a, b, c]).err(), Some(MergeError::IdMismatch));
}

#[test]
fn enrich_merges_authors_and_category() {
    let mut a = brick("X", "A", "ACGT", vec![], vec![]);
    a.metadata.authors = vec![Author { name: "Ann".to_string(), role: None }];
    let mut b = brick("X", "A", "ACGT", vec![], vec![]);
    b.metadata.category = category(8);
    b.metadata.authors = vec![
        Author { name: "Bob".to_string(), role: Some("PI".to_string()) },
        Author { name: "Ann".to_string(), role: Some("dup".to_string()) },
    ];
    let r = enrich(a, b).unwrap();
    let names: Vec<&str> = r.metadata.authors.iter().map(|a| a.name.as_str()).collect();
    assert_eq!(names, vec!["Ann", "Bob"]);
    assert_eq!(r.metadata.authors[0].role, None);
    // promoter (4) comes before terminator (8) in the registry
    assert_eq!(r.metadata.category.canonical, "promoter");
}

#[test]
fn enrich_rejects_other_id() {
    let a = brick("X", "A", "ACGT", vec![], vec![]);
    let b = brick("Y", "A", "ACGT", vec![], vec![]);
    assert_eq!(enrich(a, b).err(), Some(MergeError::IdMismatch));
}

#[test]
fn merge_features_keeps_first_identity() {
    let f1 = feature("f1", "GFP", 3);
    let mut f2 = feature("f9", "gfp", 7);
    f2.category = category(1);
    let r = merge_features(f1, f2);
    assert_eq!(r.id, "f1");
    assert_eq!(r.name, "GFP");
    assert_eq!(r.location.start, 3);
    assert_eq!(r.category.canonical, "coding_sequence");
}

#[test]
fn sequence_divergence_is_detected() {
    let a = brick("X", "A", "ACGT", vec![], vec![]);
    let b = brick("X", "A", "ACGA", vec![], vec![]);
    let c = brick("X", "B", "ACGT", vec![], vec![]);
    assert!(bricks::merge::sequences_diverge(&a, &b));
    assert!(!bricks::merge::sequences_diverge(&a, &c));
}
