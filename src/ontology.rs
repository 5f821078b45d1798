//! A fixed registry of sequence-ontology categories and a total classifier
//! from free text to one of them.
use vstd::prelude::*;
use crate::text::{contains, contains_chars, lower_of, lowercase, to_chars};

verus! {

/// Number of categories in the registry.
pub const ONTOLOGY_LEN: usize = 15;

/// Position of the generic category that unmatched text falls back to.
pub const FALLBACK: usize = 0;

/// One category of the registry.
pub struct OntologyEntry {
    pub canonical: &'static str,
    pub ontology: Option<&'static str>,
    pub css: &'static str,
    pub also: Vec<&'static str>,
    pub slug: &'static str,
}

/// A category as records carry it.
#[derive(Debug)]
pub struct OntologyEntrySerializable {
    pub canonical: String,
    pub ontology: Option<String>,
    pub css: String,
    pub also: Vec<String>,
    pub slug: String,
}

/// What a category is: its tag, cross-reference id, display class,
/// synonyms and slug.
pub struct EntryView {
    pub canonical: Seq<char>,
    pub ontology: Option<Seq<char>>,
    pub css: Seq<char>,
    pub also: Seq<Seq<char>>,
    pub slug: Seq<char>,
}

pub open spec fn str_views(v: Seq<&'static str>) -> Seq<Seq<char>> {
    v.map_values(|s: &'static str| s@)
}

pub open spec fn string_views(v: Seq<String>) -> Seq<Seq<char>> {
    v.map_values(|s: String| s@)
}

impl View for OntologyEntry {
    type V = EntryView;

    open spec fn view(&self) -> EntryView {
        EntryView {
            canonical: self.canonical@,
            ontology: match self.ontology {
                Some(o) => Some(o@),
                None => None,
            },
            css: self.css@,
            also: str_views(self.also@),
            slug: self.slug@,
        }
    }
}

impl View for OntologyEntrySerializable {
    type V = EntryView;

    open spec fn view(&self) -> EntryView {
        EntryView {
            canonical: self.canonical@,
            ontology: match self.ontology {
                Some(o) => Some(o@),
                None => None,
            },
            css: self.css@,
            also: string_views(self.also@),
            slug: self.slug@,
        }
    }
}

pub open spec fn mk_entry(
    canonical: &'static str,
    ontology: Option<&'static str>,
    css: &'static str,
    also: Seq<Seq<char>>,
    slug: &'static str,
) -> EntryView {
    EntryView {
        canonical: canonical@,
        ontology: match ontology {
            Some(o) => Some(o@),
            None => None,
        },
        css: css@,
        also,
        slug: slug@,
    }
}

/// The registry, in priority order.
pub open spec fn registry(i: int) -> EntryView {
    if i == 1 {
        mk_entry("coding_sequence", Some("SO:0000316"), "cds",
            seq!["coding sequence"@, "cds"@, "coding region"@], "cds")
    } else if i == 2 {
        mk_entry("ribosome_entry_site", Some("SO:0000139"), "ribosome-entry-site",
            seq!["rbs"@, "ribosome binding"@, "ribosome entry"@], "rbs")
    } else if i == 3 {
        mk_entry("scar", None, "scar", seq![], "scar")
    } else if i == 4 {
        mk_entry("promoter", Some("SO:0000167"), "promoter", seq![], "promoter")
    } else if i == 5 {
        mk_entry("stop_codon", Some("SO:0000319"), "stop-codon", seq![], "stop-codon")
    } else if i == 6 {
        mk_entry("operator", Some("SO:0000057"), "operator", seq![], "operator")
    } else if i == 7 {
        mk_entry("primer_binding_site", Some("SO:0005850"), "primer-binding-site",
            seq!["primer entry site"@, "pbs"@, "pes"@, "primer binding"@, "primer entry"@],
            "primer-binding-site")
    } else if i == 8 {
        mk_entry("terminator", Some("SO:0000141"), "terminator", seq![], "terminator")
    } else if i == 9 {
        mk_entry("origin_of_replication", Some("SO:0000296"), "origin-of-replication",
            seq!["origin"@], "origin-of-replication")
    } else if i == 10 {
        mk_entry("deletion", Some("SO:0000159"), "protein-stability-element", seq![],
            "protein-stability-element")
    } else if i == 11 {
        mk_entry("polya_site", Some("SO:0000553"), "poly-a-site", seq!["polya"@], "poly-a-site")
    } else if i == 12 {
        mk_entry("composite", None, "composite", seq!["biobrick"@, "composite part"@],
            "composite")
    } else if i == 13 {
        mk_entry("plasmid_backbone", None, "plasmid-backbone",
            seq!["plasmid backbone"@, "backbone"@], "plasmid-backbone")
    } else if i == 14 {
        mk_entry("plasmid", Some("SO:0000155"), "plasmid",
            seq!["vector"@, "complete plasmid"@, "plasmid sequence"@], "plasmid")
    } else {
        mk_entry("sequence_feature", None, "sequence-feature", seq![], "misc")
    }
}

/// The category at position `i` of the registry.
pub fn ontology_entry(i: usize) -> (e: OntologyEntry)
    requires
        i < ONTOLOGY_LEN,
    ensures
        e@ == registry(i as int),
{
    let e = if i == 1 {
        OntologyEntry { canonical: "coding_sequence", ontology: Some("SO:0000316"), css: "cds",
            also: vec!["coding sequence", "cds", "coding region"], slug: "cds" }
    } else if i == 2 {
        OntologyEntry { canonical: "ribosome_entry_site", ontology: Some("SO:0000139"),
            css: "ribosome-entry-site", also: vec!["rbs", "ribosome binding", "ribosome entry"],
            slug: "rbs" }
    } else if i == 3 {
        OntologyEntry { canonical: "scar", ontology: None, css: "scar", also: vec![], slug: "scar" }
    } else if i == 4 {
        OntologyEntry { canonical: "promoter", ontology: Some("SO:0000167"), css: "promoter",
            also: vec![], slug: "promoter" }
    } else if i == 5 {
        OntologyEntry { canonical: "stop_codon", ontology: Some("SO:0000319"), css: "stop-codon",
            also: vec![], slug: "stop-codon" }
    } else if i == 6 {
        OntologyEntry { canonical: "operator", ontology: Some("SO:0000057"), css: "operator",
            also: vec![], slug: "operator" }
    } else if i == 7 {
        OntologyEntry { canonical: "primer_binding_site", ontology: Some("SO:0005850"),
            css: "primer-binding-site",
            also: vec!["primer entry site", "pbs", "pes", "primer binding", "primer entry"],
            slug: "primer-binding-site" }
    } else if i == 8 {
        OntologyEntry { canonical: "terminator", ontology: Some("SO:0000141"), css: "terminator",
            also: vec![], slug: "terminator" }
    } else if i == 9 {
        OntologyEntry { canonical: "origin_of_replication", ontology: Some("SO:0000296"),
            css: "origin-of-replication", also: vec!["origin"], slug: "origin-of-replication" }
    } else if i == 10 {
        OntologyEntry { canonical: "deletion", ontology: Some("SO:0000159"),
            css: "protein-stability-element", also: vec![], slug: "protein-stability-element" }
    } else if i == 11 {
        OntologyEntry { canonical: "polya_site", ontology: Some("SO:0000553"), css: "poly-a-site",
            also: vec!["polya"], slug: "poly-a-site" }
    } else if i == 12 {
        OntologyEntry { canonical: "composite", ontology: None, css: "composite",
            also: vec!["biobrick", "composite part"], slug: "composite" }
    } else if i == 13 {
        OntologyEntry { canonical: "plasmid_backbone", ontology: None, css: "plasmid-backbone",
            also: vec!["plasmid backbone", "backbone"], slug: "plasmid-backbone" }
    } else if i == 14 {
        OntologyEntry { canonical: "plasmid", ontology: Some("SO:0000155"), css: "plasmid",
            also: vec!["vector", "complete plasmid", "plasmid sequence"], slug: "plasmid" }
    } else {
        OntologyEntry { canonical: "sequence_feature", ontology: None, css: "sequence-feature",
            also: vec![], slug: "misc" }
    };
    assert(e@.also =~= registry(i as int).also);
    e
}

/// Text with `_` and `-` read as spaces.
pub open spec fn normalize(s: Seq<char>) -> Seq<char> {
    s.map_values(|c: char| if c == '_' || c == '-' { ' ' } else { c })
}

/// A tag with `_` read as a space.
pub open spec fn spaced(s: Seq<char>) -> Seq<char> {
    s.map_values(|c: char| if c == '_' { ' ' } else { c })
}

/// The phrases that select category `i`: its spaced tag, then its synonyms.
pub open spec fn phrases(i: int) -> Seq<Seq<char>> {
    seq![spaced(registry(i).canonical)] + registry(i).also
}

pub open spec fn entry_matches(text: Seq<char>, i: int) -> bool {
    exists|k: int| 0 <= k < phrases(i).len() && contains(text, #[trigger] phrases(i)[k])
}

/// The first category from position `i` on that one of its phrases selects.
pub open spec fn classify_from(text: Seq<char>, i: int) -> int
    decreases ONTOLOGY_LEN - i,
{
    if i < 0 || i >= ONTOLOGY_LEN {
        FALLBACK as int
    } else if entry_matches(text, i) {
        i
    } else {
        classify_from(text, i + 1)
    }
}

/// The category of text that is already lowercase and normalized.
pub open spec fn classify_text(text: Seq<char>) -> int {
    classify_from(text, 0)
}

/// The category of one free-text note.
pub open spec fn classify_note(note: Seq<char>) -> int {
    if note.len() == 0 {
        FALLBACK as int
    } else {
        classify_text(normalize(lower_of(note)))
    }
}

proof fn lemma_classify_from_range(text: Seq<char>, i: int)
    ensures
        0 <= classify_from(text, i) < ONTOLOGY_LEN,
    decreases ONTOLOGY_LEN - i,
{
    if 0 <= i < ONTOLOGY_LEN && !entry_matches(text, i) {
        lemma_classify_from_range(text, i + 1);
    }
}

/// Every text falls into a category of the registry.
pub proof fn lemma_classify_note_total(note: Seq<char>)
    ensures
        0 <= classify_note(note) < ONTOLOGY_LEN,
{
    if note.len() > 0 {
        lemma_classify_from_range(normalize(lower_of(note)), 0);
    }
}

proof fn lemma_classify_from_unmatched(text: Seq<char>, i: int)
    requires
        forall|j: int| 0 <= j < ONTOLOGY_LEN ==> !entry_matches(text, j),
    ensures
        classify_from(text, i) == FALLBACK,
    decreases ONTOLOGY_LEN - i,
{
    if 0 <= i < ONTOLOGY_LEN {
        lemma_classify_from_unmatched(text, i + 1);
    }
}

/// The classifier is total and a function of the note alone: every note has
/// one category of the registry; an empty note, or one in which no phrase
/// of any category stands, has the generic category.
pub proof fn lemma_classifier_total(note: Seq<char>)
    ensures
        0 <= classify_note(note) < ONTOLOGY_LEN,
        note.len() == 0 ==> classify_note(note) == FALLBACK,
        (forall|j: int| 0 <= j < ONTOLOGY_LEN ==> !entry_matches(normalize(lower_of(note)), j))
            ==> classify_note(note) == FALLBACK,
{
    lemma_classify_note_total(note);
    if forall|j: int| 0 <= j < ONTOLOGY_LEN ==> !entry_matches(normalize(lower_of(note)), j) {
        lemma_classify_from_unmatched(normalize(lower_of(note)), 0);
    }
}

fn normalize_chars(v: &Vec<char>) -> (r: Vec<char>)
    ensures
        r@ == normalize(v@),
{
    let mut r: Vec<char> = Vec::new();
    let mut i: usize = 0;
    while i < v.len()
        invariant
            i <= v.len(),
            r@ == normalize(v@.take(i as int)),
        decreases v.len() - i,
    {
        let c = v[i];
        r.push(if c == '_' || c == '-' { ' ' } else { c });
        assert(normalize(v@.take(i + 1)) == normalize(v@.take(i as int)).push(
            if c == '_' || c == '-' { ' ' } else { c },
        ));
        i = i + 1;
    }
    assert(v@.take(v.len() as int) == v@);
    r
}

fn spaced_chars(v: &Vec<char>) -> (r: Vec<char>)
    ensures
        r@ == spaced(v@),
{
    let mut r: Vec<char> = Vec::new();
    let mut i: usize = 0;
    while i < v.len()
        invariant
            i <= v.len(),
            r@ == spaced(v@.take(i as int)),
        decreases v.len() - i,
    {
        let c = v[i];
        r.push(if c == '_' { ' ' } else { c });
        assert(spaced(v@.take(i + 1)) == spaced(v@.take(i as int)).push(
            if c == '_' { ' ' } else { c },
        ));
        i = i + 1;
    }
    assert(v@.take(v.len() as int) == v@);
    r
}

fn entry_matches_chars(text: &Vec<char>, i: usize) -> (r: bool)
    requires
        i < ONTOLOGY_LEN,
    ensures
        r == entry_matches(text@, i as int),
{
    let e = ontology_entry(i);
    let tag = spaced_chars(&to_chars(e.canonical));
    if contains_chars(text, &tag) {
        assert(contains(text@, phrases(i as int)[0]));
        return true;
    }
    let mut k: usize = 0;
    while k < e.also.len()
        invariant
            e@ == registry(i as int),
            k <= e.also.len(),
            forall|j: int| 0 <= j < k + 1 ==> !contains(text@, #[trigger] phrases(i as int)[j]),
        decreases e.also.len() - k,
    {
        let syn = to_chars(e.also[k]);
        assert(syn@ == phrases(i as int)[k + 1]);
        if contains_chars(text, &syn) {
            return true;
        }
        k = k + 1;
    }
    false
}

/// Position of the category of `text`, which is already lowercase and normalized.
fn classify_chars(text: &Vec<char>) -> (r: usize)
    ensures
        r == classify_text(text@),
        r < ONTOLOGY_LEN,
{
    proof {
        lemma_classify_from_range(text@, 0);
    }
    let mut i: usize = 0;
    while i < ONTOLOGY_LEN
        invariant
            i <= ONTOLOGY_LEN,
            classify_text(text@) == classify_from(text@, i as int),
        decreases ONTOLOGY_LEN - i,
    {
        if entry_matches_chars(text, i) {
            return i;
        }
        i = i + 1;
    }
    FALLBACK
}

/// Position of the category of `lowered`, the lowercase form of a note.
pub fn classify_lowered(lowered: &str) -> (r: usize)
    ensures
        r == classify_text(normalize(lowered@)),
        r < ONTOLOGY_LEN,
{
    classify_chars(&normalize_chars(&to_chars(lowered)))
}

/// Position of the category of a free-text note.
pub fn category_index(note: &str) -> (r: usize)
    ensures
        r == classify_note(note@),
        r < ONTOLOGY_LEN,
{
    if note.is_empty() {
        return FALLBACK;
    }
    let lowered = lowercase(note);
    classify_lowered(lowered.as_str())
}

/// The category of a free-text note: the first category of the registry
/// whose tag or a synonym stands in the note, lowercased with `_` and `-`
/// read as spaces; the generic category when none does or the note is empty.
pub fn type_inference(note: &str) -> (r: OntologyEntry)
    ensures
        r@ == registry(classify_note(note@)),
{
    ontology_entry(category_index(note))
}

/// Of two category positions, the one that a multi-note classification keeps:
/// a specific category over the generic one, and of two specific ones the
/// earlier in the registry.
pub open spec fn pick(a: int, b: int) -> int {
    if a == FALLBACK {
        b
    } else if b == FALLBACK {
        a
    } else if a <= b {
        a
    } else {
        b
    }
}

/// The category of several notes together: the earliest specific category
/// among theirs, or the generic one when none has a specific category.
pub open spec fn classify_notes(notes: Seq<Seq<char>>) -> int
    decreases notes.len(),
{
    if notes.len() == 0 {
        FALLBACK as int
    } else {
        pick(classify_notes(notes.drop_last()), classify_note(notes.last()))
    }
}

/// Position of the category of several notes together.
pub fn categories_index(notes: &[String]) -> (r: usize)
    ensures
        r == classify_notes(string_views(notes@)),
        r < ONTOLOGY_LEN,
{
    let mut acc: usize = FALLBACK;
    let mut i: usize = 0;
    while i < notes.len()
        invariant
            i <= notes.len(),
            acc < ONTOLOGY_LEN,
            acc == classify_notes(string_views(notes@.take(i as int))),
        decreases notes.len() - i,
    {
        let c = category_index(notes[i].as_str());
        acc = if acc == FALLBACK {
            c
        } else if c == FALLBACK {
            acc
        } else if acc <= c {
            acc
        } else {
            c
        };
        assert(string_views(notes@.take(i + 1)).drop_last() == string_views(notes@.take(i as int)));
        i = i + 1;
    }
    assert(notes@.take(notes@.len() as int) == notes@);
    acc
}

/// The category of several notes: the one category that they select if they
/// agree, the earliest in the registry if they select several, and the
/// generic category if they select none.
pub fn multiple_type_inference(notes: &[String]) -> (r: OntologyEntry)
    ensures
        r@ == registry(classify_notes(string_views(notes@))),
{
    ontology_entry(categories_index(notes))
}

impl OntologyEntrySerializable {
    /// An owned copy of a registry category.
    pub fn from_entry(entry: &OntologyEntry) -> (r: OntologyEntrySerializable)
        ensures
            r@ == entry@,
    {
        let mut also: Vec<String> = Vec::new();
        let mut i: usize = 0;
        while i < entry.also.len()
            invariant
                i <= entry.also.len(),
                string_views(also@) == str_views(entry.also@.take(i as int)),
            decreases entry.also.len() - i,
        {
            also.push(entry.also[i].to_owned());
            assert(str_views(entry.also@.take(i + 1)) == str_views(entry.also@.take(i as int)).push(
                entry.also@[i as int]@,
            ));
            assert(string_views(also@) == str_views(entry.also@.take(i + 1)));
            i = i + 1;
        }
        assert(entry.also@.take(entry.also.len() as int) == entry.also@);
        let ontology = match entry.ontology {
            Some(o) => Some(o.to_owned()),
            None => None,
        };
        OntologyEntrySerializable {
            canonical: entry.canonical.to_owned(),
            ontology,
            css: entry.css.to_owned(),
            also,
            slug: entry.slug.to_owned(),
        }
    }
}

/// The category at position `i` of the registry, as records carry it.
pub fn category(i: usize) -> (r: OntologyEntrySerializable)
    requires
        i < ONTOLOGY_LEN,
    ensures
        r@ == registry(i as int),
{
    OntologyEntrySerializable::from_entry(&ontology_entry(i))
}

} // verus!
