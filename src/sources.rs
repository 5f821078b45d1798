//! Candidate records of the sources whose payload is an HTML page or JSON:
//! what follows once the page or document has been read into plain values.
use vstd::prelude::*;
use crate::genbank::{i32_of, parse_i32};
use crate::ontology::{
    OntologyEntrySerializable, classify_notes, multiple_type_inference, registry, string_views,
};
use crate::providers::{AddGeneProvider, IgemApiProvider, IgemPartsProvider, ProviderEnumTrait};
use crate::text::{
    contains, contains_chars, find, find_chars, from_chars, lemma_find_from, lines, lower_of,
    lowercase, slice, split_lines, starts_with, to_chars, trim, trim_chars, views,
};
use crate::types::{
    Author, AuthorView, Biobrick, BiobrickView, FeatureView, Location, MetaBiobrick, MetaFeature,
    MetaProvider, ProviderView, author_views, feature_views, provider_views,
};

verus! {

/// The text after a "Type:" label, up to the end of its line or a `<`, trimmed.
pub open spec fn part_type_of(text: Seq<char>) -> Option<Seq<char>> {
    match find(text, "Type:"@) {
        None => None,
        Some(i) => {
            let rest = text.skip(i + 5);
            match first_stop(rest, 0) {
                Some(e) => Some(trim(rest.take(e))),
                None => None,
            }
        },
    }
}

/// The first position from `i` on that holds a line feed or a `<`.
pub open spec fn first_stop(s: Seq<char>, i: int) -> Option<int>
    decreases s.len() - i,
{
    if i < 0 || i >= s.len() {
        None
    } else if s[i] == '\n' || s[i] == '<' {
        Some(i)
    } else {
        first_stop(s, i + 1)
    }
}

/// The part type that a page's text states after a "Type:" label, when the
/// label is followed by a line end or a tag.
pub fn part_type_in(text: &str) -> (r: Option<String>)
    ensures
        r matches Some(t) ==> part_type_of(text@) == Some(t@),
        r is None ==> part_type_of(text@) is None,
{
    let v = to_chars(text);
    let label = to_chars("Type:");
    proof {
        reveal_strlit("Type:");
    }
    match find_chars(&v, &label) {
        None => None,
        Some(i) => {
            proof {
                lemma_find_from(v@, label@, 0);
                assert(label@.len() == 5);
                assert(find(v@, label@) == Some(i as int));
                assert(crate::text::occurs_at(v@, label@, i as int));
                assert(i + 5 <= v@.len());
            }
            assert(i + 5 <= v.len());
            let from = i + 5;
            let rest = slice(&v, from, v.len());
            assert(rest@ == v@.skip(i + 5));
            let mut k: usize = 0;
            while k < rest.len()
                invariant
                    k <= rest.len(),
                    first_stop(rest@, 0) == first_stop(rest@, k as int),
                    v@ == text@,
                    label@ == "Type:"@,
                    find(v@, label@) == Some(i as int),
                    rest@ == v@.skip(i + 5),
                decreases rest.len() - k,
            {
                if rest[k] == '\n' || rest[k] == '<' {
                    assert(first_stop(rest@, k as int) == Some(k as int));
                    let t = trim_chars(&slice(&rest, 0, k));
                    assert(rest@.subrange(0, k as int) == rest@.take(k as int));
                    return Some(from_chars(&t));
                }
                k = k + 1;
            }
            None
        },
    }
}

pub open spec fn ascii_letter(c: char) -> bool {
    ('a' <= c && c <= 'z') || ('A' <= c && c <= 'Z')
}

/// The ASCII letters of `s`, in order.
pub open spec fn ascii_letters(s: Seq<char>) -> Seq<char>
    decreases s.len(),
{
    if s.len() == 0 {
        seq![]
    } else if ascii_letter(s.last()) {
        ascii_letters(s.drop_last()).push(s.last())
    } else {
        ascii_letters(s.drop_last())
    }
}

/// The sequence that a sequence-editing form holds: its ASCII letters, lowercased.
pub fn edit_sequence(raw: &str) -> (r: String)
    ensures
        r@ == lower_of(ascii_letters(raw@)),
{
    let v = to_chars(raw);
    let mut out: Vec<char> = Vec::new();
    let mut i: usize = 0;
    while i < v.len()
        invariant
            i <= v.len(),
            out@ == ascii_letters(v@.take(i as int)),
        decreases v.len() - i,
    {
        assert(v@.take(i + 1).drop_last() == v@.take(i as int));
        let c = v[i];
        if ('a' <= c && c <= 'z') || ('A' <= c && c <= 'Z') {
            out.push(c);
        }
        i = i + 1;
    }
    assert(v@.take(v.len() as int) == v@);
    lowercase(from_chars(&out).as_str())
}

/// The feature that one row of a registry feature table describes: cells
/// for its number, kind, label, start, end and direction.
pub open spec fn row_feature(cells: Seq<Seq<char>>) -> FeatureView {
    let kind = lower_of(cells[1]);
    let name = if cells[2].len() == 0 { kind } else { cells[2] };
    FeatureView {
        id: "igem_"@ + cells[0],
        name,
        category: registry(classify_notes(seq![kind])),
        location: Location {
            start: match i32_of(cells[3]) { Some(v) => v, None => 0 },
            end: match i32_of(cells[4]) { Some(v) => v, None => 0 },
            forward: !contains(lower_of(cells[5]), "rev"@),
        },
    }
}

/// The feature of a table row with at least six cells; `None` for a shorter row.
pub fn edit_row_feature(cells: &Vec<String>) -> (r: Option<MetaFeature>)
    ensures
        r is None <==> cells.len() < 6,
        r matches Some(f) ==> f@ == row_feature(string_views(cells@)),
{
    if cells.len() < 6 {
        return None;
    }
    let ghost cs = string_views(cells@);
    assert(cs[0] == cells@[0]@ && cs[1] == cells@[1]@ && cs[2] == cells@[2]@);
    assert(cs[3] == cells@[3]@ && cs[4] == cells@[4]@ && cs[5] == cells@[5]@);
    let kind = lowercase(cells[1].as_str());
    let label = &cells[2];
    let start = match parse_i32(&to_chars(cells[3].as_str())) {
        Some(v) => v,
        None => 0,
    };
    let end = match parse_i32(&to_chars(cells[4].as_str())) {
        Some(v) => v,
        None => 0,
    };
    let direction = to_chars(lowercase(cells[5].as_str()).as_str());
    let forward = !contains_chars(&direction, &to_chars("rev"));
    let mut id = "igem_".to_owned();
    id.append(cells[0].as_str());
    let notes = vec![kind.clone()];
    assert(string_views(notes@) == seq![kind@]);
    let category = OntologyEntrySerializable::from_entry(&multiple_type_inference(notes.as_slice()));
    let name = if label.as_str().is_empty() {
        kind
    } else {
        label.clone()
    };
    Some(MetaFeature { id, name, category, location: Location { start, end, forward } })
}

pub open spec fn or_else(o: Option<Seq<char>>, d: Seq<char>) -> Seq<char> {
    match o {
        Some(x) => x,
        None => d,
    }
}

pub open spec fn opt_seq(o: Option<String>) -> Option<Seq<char>> {
    crate::types::opt_view(o)
}

/// The candidate of the legacy parts registry from what its pages gave.
pub open spec fn igem_parts_of(
    id: Seq<char>,
    name: Seq<char>,
    description: Seq<char>,
    sequence: Seq<char>,
    features: Seq<FeatureView>,
    authors: Seq<AuthorView>,
    part_type: Option<Seq<char>>,
    date: Seq<char>,
) -> Option<BiobrickView> {
    if sequence.len() == 0 {
        None
    } else {
        Some(
            BiobrickView {
                id,
                name,
                category: registry(classify_notes(seq![or_else(part_type, "unknown"@), description])),
                circular: false,
                size: sequence.len(),
                providers: seq![
                    ProviderView {
                        name: IgemPartsProvider.name_spec(),
                        link: IgemPartsProvider.link_spec(id),
                        date,
                    },
                ],
                description,
                authors,
                creation: None,
                sequence,
                features,
            },
        )
    }
}

fn one_provider(name: &'static str, link: String, date: String) -> (r: Vec<MetaProvider>)
    ensures
        provider_views(r@) == seq![ProviderView { name: name@, link: link@, date: date@ }],
{
    let r = vec![MetaProvider { name: name.to_owned(), link, date }];
    assert(provider_views(r@) == seq![r@[0]@]);
    r
}

/// The candidate of the legacy parts registry: its name, description and
/// features as its pages give them, the sequence of its editing form, and a
/// category from the stated part type (or "unknown") and the description.
/// There is none when the sequence is empty.
pub fn igem_parts_candidate(
    id: &str,
    name: String,
    description: String,
    sequence: String,
    features: Vec<MetaFeature>,
    authors: Vec<Author>,
    part_type: Option<String>,
    date: String,
) -> (r: Option<Biobrick>)
    ensures
        r matches Some(b) ==> igem_parts_of(id@, name@, description@, sequence@, feature_views(features@),
            author_views(authors@), opt_seq(part_type), date@) == Some(b@),
        r is None ==> igem_parts_of(id@, name@, description@, sequence@, feature_views(features@),
            author_views(authors@), opt_seq(part_type), date@) is None,
{
    if sequence.as_str().is_empty() {
        return None;
    }
    let kind = match part_type {
        Some(t) => t,
        None => "unknown".to_owned(),
    };
    let notes = vec![kind, description.clone()];
    assert(string_views(notes@) == seq![notes@[0]@, description@]);
    let category = OntologyEntrySerializable::from_entry(&multiple_type_inference(notes.as_slice()));
    let provider = IgemPartsProvider;
    let providers = one_provider(provider.name(), provider.link(id), date);
    let size = to_chars(sequence.as_str()).len();
    Some(
        Biobrick {
            metadata: MetaBiobrick {
                id: id.to_owned(),
                name,
                category,
                circular: false,
                size,
                providers,
                description,
                authors,
                creation: None,
            },
            sequence,
            features,
        },
    )
}

pub open spec fn author_of_name(n: Seq<char>) -> AuthorView {
    AuthorView { name: n, role: None }
}

/// The candidate of the registry API from the fields of its document.
pub open spec fn api_part_of(
    id: Seq<char>,
    title: Option<Seq<char>>,
    sequence: Option<Seq<char>>,
    short_description: Option<Seq<char>>,
    part_type: Option<Seq<char>>,
    authors: Option<Seq<Seq<char>>>,
    created: Option<Seq<char>>,
    date: Seq<char>,
) -> Option<BiobrickView> {
    let sq = lower_of(or_else(sequence, seq![]));
    if sq.len() == 0 {
        None
    } else {
        Some(
            BiobrickView {
                id,
                name: or_else(title, id),
                category: registry(classify_notes(seq![or_else(part_type, seq![])])),
                circular: false,
                size: sq.len(),
                providers: seq![
                    ProviderView {
                        name: IgemApiProvider.name_spec(),
                        link: IgemApiProvider.link_spec(id),
                        date,
                    },
                ],
                description: or_else(short_description, seq![]),
                authors: match authors {
                    Some(ns) => ns.map_values(|n: Seq<char>| author_of_name(n)),
                    None => seq![],
                },
                creation: Some(or_else(created, date)),
                sequence: sq,
                features: seq![],
            },
        )
    }
}

fn text_or(o: Option<String>, d: String) -> (r: String)
    ensures
        r@ == or_else(opt_seq(o), d@),
{
    match o {
        Some(x) => x,
        None => d,
    }
}

/// The candidate of the registry API from the fields of its JSON document:
/// the sequence lowercased, the title (or else the id) as name, a category
/// from the part type, the authors by name, and the creation time of the
/// document (or else the retrieval time). There is none when the sequence
/// is missing or empty.
pub fn api_part_candidate(
    id: &str,
    title: Option<String>,
    sequence: Option<String>,
    short_description: Option<String>,
    part_type: Option<String>,
    authors: Option<Vec<String>>,
    created: Option<String>,
    date: String,
) -> (r: Option<Biobrick>)
    ensures
        r matches Some(b) ==> api_part_of(id@, opt_seq(title), opt_seq(sequence), opt_seq(short_description),
            opt_seq(part_type), match authors { Some(v) => Some(string_views(v@)), None => None },
            opt_seq(created), date@) == Some(b@),
        r is None ==> api_part_of(id@, opt_seq(title), opt_seq(sequence), opt_seq(short_description),
            opt_seq(part_type), match authors { Some(v) => Some(string_views(v@)), None => None },
            opt_seq(created), date@) is None,
{
    let sq = lowercase(text_or(sequence, String::new()).as_str());
    if sq.as_str().is_empty() {
        return None;
    }
    let notes = vec![text_or(part_type, String::new())];
    assert(string_views(notes@) == seq![notes@[0]@]);
    let category = OntologyEntrySerializable::from_entry(&multiple_type_inference(notes.as_slice()));
    let mut people: Vec<Author> = Vec::new();
    match authors {
        Some(ns) => {
            let mut i: usize = 0;
            while i < ns.len()
                invariant
                    i <= ns.len(),
                    author_views(people@) == string_views(ns@).take(i as int).map_values(
                        |n: Seq<char>| author_of_name(n),
                    ),
                decreases ns.len() - i,
            {
                let a = Author { name: ns[i].clone(), role: None };
                people.push(a);
                assert(author_views(people@) == author_views(people@.drop_last()).push(a@));
                assert(string_views(ns@).take(i + 1).map_values(|n: Seq<char>| author_of_name(n))
                    == string_views(ns@).take(i as int).map_values(
                    |n: Seq<char>| author_of_name(n),
                ).push(author_of_name(ns@[i as int]@)));
                i = i + 1;
            }
            assert(string_views(ns@).take(ns.len() as int) == string_views(ns@));
        },
        None => {
            assert(author_views(people@) == Seq::<AuthorView>::empty());
        },
    }
    let provider = IgemApiProvider;
    let providers = one_provider(provider.name(), provider.link(id), date.clone());
    let size = to_chars(sq.as_str()).len();
    let name = text_or(title, id.to_owned());
    let description = text_or(short_description, String::new());
    let creation = Some(text_or(created, date));
    let features: Vec<MetaFeature> = Vec::new();
    let r = Biobrick {
        metadata: MetaBiobrick {
            id: id.to_owned(),
            name,
            category,
            circular: false,
            size,
            providers,
            description,
            authors: people,
            creation,
        },
        sequence: sq,
        features,
    };
    assert(feature_views(r.features@) == Seq::<FeatureView>::empty());
    Some(r)
}

/// `s` without line feeds, carriage returns and spaces.
pub open spec fn no_blanks(s: Seq<char>) -> Seq<char>
    decreases s.len(),
{
    if s.len() == 0 {
        seq![]
    } else if s.last() == '\n' || s.last() == '\r' || s.last() == ' ' {
        no_blanks(s.drop_last())
    } else {
        no_blanks(s.drop_last()).push(s.last())
    }
}

/// The position of the first line from `i` on that is not a `>` header.
pub open spec fn body_start(ls: Seq<Seq<char>>, i: int) -> int
    decreases ls.len() - i,
{
    if i < 0 || i >= ls.len() {
        ls.len() as int
    } else if starts_with(ls[i], ">"@) {
        body_start(ls, i + 1)
    } else {
        i
    }
}

/// The lines `ls` run together without blanks.
pub open spec fn joined_body(ls: Seq<Seq<char>>) -> Seq<char>
    decreases ls.len(),
{
    if ls.len() == 0 {
        seq![]
    } else {
        joined_body(ls.drop_last()) + no_blanks(ls.last())
    }
}

/// The sequence of a FASTA text: its lines after the leading `>` headers,
/// run together without blanks.
pub open spec fn fasta_body_of(text: Seq<char>) -> Seq<char> {
    let ls = lines(text);
    joined_body(ls.skip(body_start(ls, 0)))
}

proof fn lemma_body_start(ls: Seq<Seq<char>>, i: int)
    requires
        0 <= i <= ls.len(),
    ensures
        i <= body_start(ls, i) <= ls.len(),
    decreases ls.len() - i,
{
    if i < ls.len() && starts_with(ls[i], ">"@) {
        lemma_body_start(ls, i + 1);
    }
}

/// The sequence of a FASTA text: its lines after the leading `>` headers,
/// run together, with line feeds, carriage returns and spaces removed.
pub fn fasta_body(text: &str) -> (r: String)
    ensures
        r@ == fasta_body_of(text@),
{
    let ls = split_lines(&to_chars(text));
    let ghost lv = views(ls@);
    let gt = to_chars(">");
    let mut i: usize = 0;
    while i < ls.len() && crate::text::is_at(&ls[i], &gt, 0)
        invariant
            i <= ls.len(),
            lv == views(ls@),
            gt@ == ">"@,
            body_start(lv, 0) == body_start(lv, i as int),
        decreases ls.len() - i,
    {
        i = i + 1;
    }
    proof {
        lemma_body_start(lv, 0);
    }
    let ghost body = lv.skip(i as int);
    let mut out: Vec<char> = Vec::new();
    let mut j: usize = i;
    while j < ls.len()
        invariant
            i <= j <= ls.len(),
            lv == views(ls@),
            body == lv.skip(i as int),
            out@ == joined_body(body.take(j - i)),
        decreases ls.len() - j,
    {
        assert(body.take(j - i + 1).drop_last() == body.take(j - i));
        assert(body.take(j - i + 1).last() == ls@[j as int]@);
        let line = &ls[j];
        let ghost before = out@;
        let mut k: usize = 0;
        while k < line.len()
            invariant
                k <= line.len(),
                out@ == before + no_blanks(line@.take(k as int)),
            decreases line.len() - k,
        {
            assert(line@.take(k + 1).drop_last() == line@.take(k as int));
            let c = line[k];
            if !(c == '\n' || c == '\r' || c == ' ') {
                out.push(c);
            }
            k = k + 1;
        }
        assert(line@.take(line.len() as int) == line@);
        j = j + 1;
    }
    assert(body.take(ls.len() - i) == body);
    from_chars(&out)
}

/// The AddGene candidate: from the plasmid's flat file when one was fetched
/// and reads, with the page's material name, authors and purpose put over
/// its own; else from the sequence copied from the page, as a circular
/// plasmid named by the material name (or after the id). Neither keeps a
/// creation date.
pub open spec fn addgene_of(
    id: Seq<char>,
    flat_file: Option<Seq<char>>,
    page_sequence: Option<Seq<char>>,
    material_name: Option<Seq<char>>,
    authors: Seq<AuthorView>,
    purpose: Option<Seq<char>>,
    date: Seq<char>,
) -> Option<BiobrickView> {
    let parsed = match flat_file {
        Some(t) => crate::genbank::genbank_of(t),
        None => None,
    };
    match parsed {
        Some(g) => {
            let c = crate::genbank::candidate_of(
                id,
                AddGeneProvider.name_spec(),
                AddGeneProvider.link_spec(id),
                g,
                date,
            );
            Some(
                BiobrickView {
                    name: or_else(material_name, c.name),
                    authors: if authors.len() > 0 { authors } else { c.authors },
                    description: or_else(purpose, c.description),
                    creation: None,
                    ..c
                },
            )
        },
        None => match page_sequence {
            Some(sq) => {
                let name = or_else(material_name, "AddGene Plasmid "@ + id);
                Some(
                    BiobrickView {
                        id,
                        name,
                        category: registry(classify_notes(seq![name])),
                        circular: true,
                        size: sq.len(),
                        providers: seq![
                            ProviderView {
                                name: AddGeneProvider.name_spec(),
                                link: AddGeneProvider.link_spec(id),
                                date,
                            },
                        ],
                        description: or_else(purpose, seq![]),
                        authors,
                        creation: None,
                        sequence: sq,
                        features: seq![],
                    },
                )
            },
            None => None,
        },
    }
}

/// The AddGene candidate from what its pages gave: the fetched flat file,
/// if any, and the sequence copied from the page, the material name, the
/// principal investigator and the stated purpose.
pub fn addgene_candidate(
    id: &str,
    flat_file: Option<String>,
    page_sequence: Option<String>,
    material_name: Option<String>,
    authors: Vec<Author>,
    purpose: Option<String>,
    date: String,
) -> (r: Option<Biobrick>)
    ensures
        r matches Some(b) ==> addgene_of(id@, opt_seq(flat_file), opt_seq(page_sequence), opt_seq(material_name),
            author_views(authors@), opt_seq(purpose), date@) == Some(b@),
        r is None ==> addgene_of(id@, opt_seq(flat_file), opt_seq(page_sequence), opt_seq(material_name),
            author_views(authors@), opt_seq(purpose), date@) is None,
{
    let provider = AddGeneProvider;
    let parsed = match flat_file {
        Some(t) => crate::genbank::parse_genbank_raw(t.as_str()),
        None => None,
    };
    match parsed {
        Some(gb) => {
            let mut b = crate::genbank::genbank_to_biobrick(
                id,
                provider.name(),
                provider.link(id).as_str(),
                gb,
                date,
            );
            match material_name {
                Some(n) => {
                    b.metadata.name = n;
                },
                None => {},
            }
            if authors.len() > 0 {
                b.metadata.authors = authors;
            }
            match purpose {
                Some(p) => {
                    b.metadata.description = p;
                },
                None => {},
            }
            b.metadata.creation = None;
            Some(b)
        },
        None => match page_sequence {
            Some(sq) => {
                let name = match material_name {
                    Some(n) => n,
                    None => {
                        let mut n = "AddGene Plasmid ".to_owned();
                        n.append(id);
                        n
                    },
                };
                let notes = vec![name.clone()];
                assert(string_views(notes@) == seq![name@]);
                let category = OntologyEntrySerializable::from_entry(
                    &multiple_type_inference(notes.as_slice()),
                );
                let providers = one_provider(provider.name(), provider.link(id), date);
                let size = to_chars(sq.as_str()).len();
                let description = text_or(purpose, String::new());
                let features: Vec<MetaFeature> = Vec::new();
                let r = Biobrick {
                    metadata: MetaBiobrick {
                        id: id.to_owned(),
                        name,
                        category,
                        circular: true,
                        size,
                        providers,
                        description,
                        authors,
                        creation: None,
                    },
                    sequence: sq,
                    features,
                };
                assert(feature_views(r.features@) == Seq::<FeatureView>::empty());
                Some(r)
            },
            None => None,
        },
    }
}

} // verus!
