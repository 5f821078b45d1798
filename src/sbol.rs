//! An SBOL (RDF/XML) rendering of a record.
use vstd::prelude::*;
use crate::genbank::{int_chars, int_text, nat_text};
use crate::ontology::EntryView;
use crate::text::{append_chars, from_chars, lower_of, lowercase, to_chars};
use crate::types::{Biobrick, BiobrickView, FeatureView, feature_views};

verus! {

/// How a character is written in XML text.
pub open spec fn esc_char(c: char) -> Seq<char> {
    if c == '&' {
        "&amp;"@
    } else if c == '<' {
        "&lt;"@
    } else if c == '>' {
        "&gt;"@
    } else if c == '"' {
        "&quot;"@
    } else if c == '\'' {
        "&apos;"@
    } else {
        seq![c]
    }
}

/// Text with the five XML special characters escaped.
pub open spec fn escaped(s: Seq<char>) -> Seq<char>
    decreases s.len(),
{
    if s.len() == 0 {
        seq![]
    } else {
        escaped(s.drop_last()) + esc_char(s.last())
    }
}

/// The ontology term of a category, with the generic region term for one
/// that has none.
pub open spec fn role_of(e: EntryView) -> Seq<char> {
    match e.ontology {
        Some(o) => o,
        None => "SO:0000110"@,
    }
}

pub open spec fn orientation_of(forward: bool) -> Seq<char> {
    if forward {
        "inline"@
    } else {
        "reverseComplement"@
    }
}

/// The annotation of feature number `i`.
pub open spec fn annotation_xml(part_uri: Seq<char>, i: nat, f: FeatureView) -> Seq<char> {
    let anno_uri = part_uri + "/annotation_"@ + nat_text(i);
    let range_uri = anno_uri + "/range_"@ + nat_text(i);
    "    <sbol:sequenceAnnotation>\n"@ + "      <sbol:SequenceAnnotation rdf:about=\""@ + anno_uri
        + "\">\n"@ + "        <dcterms:title>"@ + escaped(f.name) + "</dcterms:title>\n"@
        + "        <sbol:location>\n"@ + "          <sbol:Range rdf:about=\""@ + range_uri
        + "\">\n"@ + "            <sbol:start>"@ + int_text(f.location.start as int)
        + "</sbol:start>\n"@ + "            <sbol:end>"@ + int_text(f.location.end as int)
        + "</sbol:end>\n"@ + "            <sbol:orientation rdf:resource=\"http://sbols.org/v2#"@
        + orientation_of(f.location.forward) + "\"/>\n"@ + "          </sbol:Range>\n"@
        + "        </sbol:location>\n"@
        + "        <sbol:role rdf:resource=\"http://identifiers.org/so/"@ + role_of(f.category)
        + "\"/>\n"@ + "      </sbol:SequenceAnnotation>\n"@ + "    </sbol:sequenceAnnotation>\n"@
}

/// The annotations of the features `fs`, numbered from zero.
pub open spec fn annotations_xml(part_uri: Seq<char>, fs: Seq<FeatureView>) -> Seq<char>
    decreases fs.len(),
{
    if fs.len() == 0 {
        seq![]
    } else {
        annotations_xml(part_uri, fs.drop_last()) + annotation_xml(
            part_uri,
            (fs.len() - 1) as nat,
            fs.last(),
        )
    }
}

/// The SBOL document of a record.
pub open spec fn sbol_of(b: BiobrickView) -> Seq<char> {
    let part_uri = "https://bricks.bio/sbol/"@ + b.id;
    let seq_uri = part_uri + "_seq"@;
    "<?xml version=\"1.0\" encoding=\"UTF-8\"?>\n"@
        + "<rdf:RDF xmlns:rdf=\"http://www.w3.org/1999/02/22-rdf-syntax-ns#\"\n"@
        + "         xmlns:sbol=\"http://sbols.org/v2#\"\n"@
        + "         xmlns:dcterms=\"http://purl.org/dc/terms/\">\n"@
        + "  <sbol:ComponentDefinition rdf:about=\""@ + part_uri + "\">\n"@
        + "    <dcterms:title>"@ + escaped(b.name) + "</dcterms:title>\n"@
        + "    <dcterms:description>"@ + escaped(b.description) + "</dcterms:description>\n"@
        + "    <sbol:type rdf:resource=\"http://www.biopax.org/release/biopax-level3.owl#DnaRegion\"/>\n"@
        + "    <sbol:role rdf:resource=\"http://identifiers.org/so/"@ + role_of(b.category)
        + "\"/>\n"@ + "    <sbol:sequence rdf:resource=\""@ + seq_uri + "\"/>\n"@
        + annotations_xml(part_uri, b.features) + "  </sbol:ComponentDefinition>\n"@
        + "  <sbol:Sequence rdf:about=\""@ + seq_uri + "\">\n"@ + "    <sbol:elements>"@
        + lower_of(b.sequence) + "</sbol:elements>\n"@
        + "    <sbol:encoding rdf:resource=\"http://www.chem.qmul.ac.uk/iubmb/misc/naseq.html\"/>\n"@
        + "  </sbol:Sequence>\n"@ + "</rdf:RDF>\n"@
}

fn push_str(v: &mut Vec<char>, s: &str)
    ensures
        final(v)@ == old(v)@ + s@,
{
    append_chars(v, &to_chars(s));
}

/// Text with `&`, `<`, `>`, `"` and `'` written as XML entities.
pub fn escape_xml(s: &str) -> (r: String)
    ensures
        r@ == escaped(s@),
{
    let v = to_chars(s);
    let mut out: Vec<char> = Vec::new();
    let mut i: usize = 0;
    while i < v.len()
        invariant
            i <= v.len(),
            v@ == s@,
            out@ == escaped(v@.take(i as int)),
        decreases v.len() - i,
    {
        let c = v[i];
        assert(v@.take(i + 1).drop_last() == v@.take(i as int));
        if c == '&' {
            push_str(&mut out, "&amp;");
        } else if c == '<' {
            push_str(&mut out, "&lt;");
        } else if c == '>' {
            push_str(&mut out, "&gt;");
        } else if c == '"' {
            push_str(&mut out, "&quot;");
        } else if c == '\'' {
            push_str(&mut out, "&apos;");
        } else {
            out.push(c);
        }
        i = i + 1;
    }
    assert(v@.take(v.len() as int) == v@);
    from_chars(&out)
}

fn role_chars(ontology: &Option<String>) -> (r: Vec<char>)
    ensures
        r@ == match *ontology {
            Some(o) => o@,
            None => "SO:0000110"@,
        },
{
    match ontology {
        Some(o) => to_chars(o.as_str()),
        None => to_chars("SO:0000110"),
    }
}

fn usize_chars(n: usize) -> (r: Vec<char>)
    ensures
        r@ == nat_text(n as nat),
    decreases n,
{
    let d = ((n % 10) as u8 + 48) as char;
    assert(d == crate::genbank::digit_char((n % 10) as int));
    if n < 10 {
        vec![d]
    } else {
        let mut r = usize_chars(n / 10);
        r.push(d);
        r
    }
}

/// Renders a record as an SBOL document: one component definition with its
/// title, description, role and one annotation per feature, and the
/// sequence in lowercase.
pub fn to_sbol_xml(biobrick: &Biobrick) -> (r: String)
    ensures
        r@ == sbol_of(biobrick@),
{
    let b = biobrick;
    let mut part_uri = to_chars("https://bricks.bio/sbol/");
    append_chars(&mut part_uri, &to_chars(b.metadata.id.as_str()));
    let mut seq_uri = slice_all(&part_uri);
    push_str(&mut seq_uri, "_seq");
    let mut x: Vec<char> = Vec::new();
    push_str(&mut x, "<?xml version=\"1.0\" encoding=\"UTF-8\"?>\n");
    push_str(&mut x, "<rdf:RDF xmlns:rdf=\"http://www.w3.org/1999/02/22-rdf-syntax-ns#\"\n");
    push_str(&mut x, "         xmlns:sbol=\"http://sbols.org/v2#\"\n");
    push_str(&mut x, "         xmlns:dcterms=\"http://purl.org/dc/terms/\">\n");
    push_str(&mut x, "  <sbol:ComponentDefinition rdf:about=\"");
    append_chars(&mut x, &part_uri);
    push_str(&mut x, "\">\n");
    push_str(&mut x, "    <dcterms:title>");
    push_str(&mut x, escape_xml(b.metadata.name.as_str()).as_str());
    push_str(&mut x, "</dcterms:title>\n");
    push_str(&mut x, "    <dcterms:description>");
    push_str(&mut x, escape_xml(b.metadata.description.as_str()).as_str());
    push_str(&mut x, "</dcterms:description>\n");
    push_str(
        &mut x,
        "    <sbol:type rdf:resource=\"http://www.biopax.org/release/biopax-level3.owl#DnaRegion\"/>\n",
    );
    push_str(&mut x, "    <sbol:role rdf:resource=\"http://identifiers.org/so/");
    append_chars(&mut x, &role_chars(&b.metadata.category.ontology));
    push_str(&mut x, "\"/>\n");
    push_str(&mut x, "    <sbol:sequence rdf:resource=\"");
    append_chars(&mut x, &seq_uri);
    push_str(&mut x, "\"/>\n");
    let ghost head = x@;
    let ghost fs = feature_views(b.features@);
    let mut annotations: Vec<char> = Vec::new();
    let mut i: usize = 0;
    while i < b.features.len()
        invariant
            i <= b.features.len(),
            fs == feature_views(b.features@),
            part_uri@ == "https://bricks.bio/sbol/"@ + b.metadata.id@,
            annotations@ == annotations_xml(part_uri@, fs.take(i as int)),
        decreases b.features.len() - i,
    {
        let f = &b.features[i];
        let mut anno_uri = slice_all(&part_uri);
        push_str(&mut anno_uri, "/annotation_");
        append_chars(&mut anno_uri, &usize_chars(i));
        let mut range_uri = slice_all(&anno_uri);
        push_str(&mut range_uri, "/range_");
        append_chars(&mut range_uri, &usize_chars(i));
        let mut a: Vec<char> = Vec::new();
        push_str(&mut a, "    <sbol:sequenceAnnotation>\n");
        push_str(&mut a, "      <sbol:SequenceAnnotation rdf:about=\"");
        append_chars(&mut a, &anno_uri);
        push_str(&mut a, "\">\n");
        push_str(&mut a, "        <dcterms:title>");
        push_str(&mut a, escape_xml(f.name.as_str()).as_str());
        push_str(&mut a, "</dcterms:title>\n");
        push_str(&mut a, "        <sbol:location>\n");
        push_str(&mut a, "          <sbol:Range rdf:about=\"");
        append_chars(&mut a, &range_uri);
        push_str(&mut a, "\">\n");
        push_str(&mut a, "            <sbol:start>");
        append_chars(&mut a, &int_chars(f.location.start));
        push_str(&mut a, "</sbol:start>\n");
        push_str(&mut a, "            <sbol:end>");
        append_chars(&mut a, &int_chars(f.location.end));
        push_str(&mut a, "</sbol:end>\n");
        push_str(&mut a, "            <sbol:orientation rdf:resource=\"http://sbols.org/v2#");
        if f.location.forward {
            push_str(&mut a, "inline");
        } else {
            push_str(&mut a, "reverseComplement");
        }
        push_str(&mut a, "\"/>\n");
        push_str(&mut a, "          </sbol:Range>\n");
        push_str(&mut a, "        </sbol:location>\n");
        push_str(&mut a, "        <sbol:role rdf:resource=\"http://identifiers.org/so/");
        append_chars(&mut a, &role_chars(&f.category.ontology));
        push_str(&mut a, "\"/>\n");
        push_str(&mut a, "      </sbol:SequenceAnnotation>\n");
        push_str(&mut a, "    </sbol:sequenceAnnotation>\n");
        assert(a@ == annotation_xml(part_uri@, i as nat, fs[i as int]));
        append_chars(&mut annotations, &a);
        assert(fs.take(i + 1).drop_last() == fs.take(i as int));
        i = i + 1;
    }
    assert(fs.take(fs.len() as int) == fs);
    append_chars(&mut x, &annotations);
    push_str(&mut x, "  </sbol:ComponentDefinition>\n");
    push_str(&mut x, "  <sbol:Sequence rdf:about=\"");
    append_chars(&mut x, &seq_uri);
    push_str(&mut x, "\">\n");
    push_str(&mut x, "    <sbol:elements>");
    push_str(&mut x, lowercase(b.sequence.as_str()).as_str());
    push_str(&mut x, "</sbol:elements>\n");
    push_str(
        &mut x,
        "    <sbol:encoding rdf:resource=\"http://www.chem.qmul.ac.uk/iubmb/misc/naseq.html\"/>\n",
    );
    push_str(&mut x, "  </sbol:Sequence>\n");
    push_str(&mut x, "</rdf:RDF>\n");
    from_chars(&x)
}

fn slice_all(v: &Vec<char>) -> (r: Vec<char>)
    ensures
        r@ == v@,
{
    let r = crate::text::slice(v, 0, v.len());
    assert(v@.subrange(0, v.len() as int) == v@);
    r
}

} // verus!
