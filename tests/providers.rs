use bricks::genbank::parse_genbank_raw;
use bricks::providers::{get_all_providers, slugify, AddGeneProvider, IgemApiProvider, NcbiProvider, ProviderEnum, ProviderEnumTrait};
use bricks::sbol::{escape_xml, to_sbol_xml};
use bricks::search::{resolve, ResolveError};
use bricks::genbank::genbank_to_biobrick;

const FILE: &str = "LOCUS       BBa_R0010 6 bp DNA linear\nDEFINITION  lac promoter & <regulated>\nFEATURES             Location/Qualifiers\n     promoter        1..6\n                     /label=\"lacI's site\"\n     terminator      complement(2..3)\nORIGIN\n 1 ACGTAC\n//\n";

#[test]
fn registration_order() {
    let names: Vec<&str> = get_all_providers().iter().map(|p| p.name()).collect();
    assert_eq!(
        names,
        vec!["iGEM Registry", "iGEM via SynBioHub", "iGEM Parts Registry (Legacy)", "NCBI", "Ensembl", "AddGene"]
    );
}

#[test]
fn provider_links() {
    let ps = get_all_providers();
    assert_eq!(ps[0].link(" BBa_R0010 "), "https://registry.igem.org/parts/bba-r0010");
    assert_eq!(ps[0].url("BBa_R0010"), "https://api.registry.igem.org/v1/parts/slugs/bba-r0010");
    assert_eq!(ps[1].url("BBa_R0010"), "https://synbiohub.org/public/igem/BBa_R0010/1/gb");
    assert_eq!(ps[1].link("BBa_R0010"), "https://synbiohub.org/public/igem/BBa_R0010/1");
    assert_eq!(ps[2].url("BBa_R0010"), "https://parts.igem.org/Part:BBa_R0010");
    assert_eq!(ps[3].link("NC_1"), "https://www.ncbi.nlm.nih.gov/nuccore/NC_1");
    assert_eq!(
        ps[3].url("NC_1"),
        "https://eutils.ncbi.nlm.nih.gov/entrez/eutils/efetch.fcgi?db=nuccore&id=NC_1&rettype=gb&retmode=text"
    );
    assert_eq!(ps[4].link("ENSG1"), "https://www.ensembl.org/Homo_sapiens/Gene/Summary?g=ENSG1");
    assert_eq!(ps[5].url("12345"), "https://www.addgene.org/12345/sequences/");
    assert_eq!(AddGeneProvider.link("12345"), "https://www.addgene.org/12345/");
    assert_eq!(IgemApiProvider.name(), "iGEM Registry");
}

#[test]
fn slugify_ids() {
    assert_eq!(slugify("  BBa_K123_X "), "bba-k123-x");
    assert_eq!(slugify(""), "");
}

#[test]
fn flat_file_sources() {
    let ps = get_all_providers();
    let flags: Vec<bool> = ps.iter().map(|p| p.reads_flat_file()).collect();
    assert_eq!(flags, vec![false, true, false, true, true, false]);
}

#[test]
fn ncbi_error_page_is_rejected() {
    let p = ProviderEnum::Ncbi(NcbiProvider);
    assert!(p.payload_rejected("Error: no such id"));
    assert!(p.parse("X", "Failed to fetch", "t".to_string()).is_none());
    let b = p.parse("BBa_R0010", FILE, "t".to_string()).unwrap();
    assert_eq!(b.metadata.providers[0].name, "NCBI");
    assert_eq!(b.metadata.providers[0].link, "https://www.ncbi.nlm.nih.gov/nuccore/BBa_R0010");
    assert_eq!(b.metadata.category.canonical, "promoter");
}

#[test]
fn resolve_not_found() {
    assert_eq!(resolve(vec![None, None]).err(), Some(ResolveError::NotFound));
    assert_eq!(resolve(vec![]).err(), Some(ResolveError::NotFound));
    let empty = "LOCUS       EMPTY\n";
    let b = genbank_to_biobrick("EMPTY", "NCBI", "l", parse_genbank_raw(empty).unwrap(), "t".to_string());
    assert_eq!(resolve(vec![Some(b)]).err(), Some(ResolveError::NotFound));
}

#[test]
fn resolve_folds_in_order() {
    let ps = get_all_providers();
    let a = ps[1].parse("BBa_R0010", FILE, "t1".to_string());
    let b = ps[3].parse("BBa_R0010", FILE, "t2".to_string());
    let r = resolve(vec![None, a, None, b]).unwrap();
    let names: Vec<&str> = r.metadata.providers.iter().map(|p| p.name.as_str()).collect();
    assert_eq!(names, vec!["iGEM via SynBioHub", "NCBI"]);
    assert_eq!(r.features.len(), 2);
    assert_eq!(r.metadata.size, 6);
}

#[test]
fn resolve_integrity_violation() {
    let ps = get_all_providers();
    let a = ps[1].parse("BBa_R0010", FILE, "t1".to_string());
    let b = ps[3].parse("OTHER", FILE, "t2".to_string());
    assert_eq!(resolve(vec![a, b]).err(), Some(ResolveError::IntegrityViolation));
}

#[test]
fn escape_xml_entities() {
    assert_eq!(escape_xml("a&b<c>d\"e'f"), "a&amp;b&lt;c&gt;d&quot;e&apos;f");
}

#[test]
fn sbol_document() {
    let b = genbank_to_biobrick("BBa_R0010", "NCBI", "l", parse_genbank_raw(FILE).unwrap(), "t".to_string());
    let x = to_sbol_xml(&b);
    assert!(x.starts_with("<?xml version=\"1.0\" encoding=\"UTF-8\"?>\n"));
    assert!(x.contains("  <sbol:ComponentDefinition rdf:about=\"https://bricks.bio/sbol/BBa_R0010\">\n"));
    assert!(x.contains("    <dcterms:title>lac promoter &amp; &lt;regulated&gt;</dcterms:title>\n"));
    assert!(x.contains("    <sbol:role rdf:resource=\"http://identifiers.org/so/SO:0000167\"/>\n"));
    assert!(x.contains("      <sbol:SequenceAnnotation rdf:about=\"https://bricks.bio/sbol/BBa_R0010/annotation_1\">\n"));
    assert!(x.contains("          <sbol:Range rdf:about=\"https://bricks.bio/sbol/BBa_R0010/annotation_1/range_1\">\n"));
    assert!(x.contains("        <dcterms:title>lacI&apos;s site</dcterms:title>\n"));
    assert!(x.contains("            <sbol:orientation rdf:resource=\"http://sbols.org/v2#reverseComplement\"/>\n"));
    assert!(x.contains("<sbol:elements>acgtac</sbol:elements>"));
    assert!(x.contains("  <sbol:Sequence rdf:about=\"https://bricks.bio/sbol/BBa_R0010_seq\">\n"));
    assert!(x.ends_with("</rdf:RDF>\n"));
}
