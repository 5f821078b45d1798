//! The registered data sources: their names, links and fetch targets, and
//! the reading of the payloads that are flat files.
use vstd::prelude::*;
use crate::genbank::{candidate_of, genbank_of, genbank_to_biobrick, parse_genbank_raw};
use crate::text::{
    contains, contains_chars, from_chars, lower_of, lowercase, to_chars, trim, trim_chars,
};
use crate::types::Biobrick;

verus! {

/// `a` followed by `b` and `c`.
fn concat3(a: &str, b: &str, c: &str) -> (r: String)
    ensures
        r@ == a@ + b@ + c@,
{
    let mut r = a.to_owned();
    r.append(b);
    r.append(c);
    r
}

/// A part id as the iGEM registry writes it in its addresses.
pub open spec fn slug_of(id: Seq<char>) -> Seq<char> {
    lower_of(trim(id)).map_values(|c: char| if c == '_' { '-' } else { c })
}

/// The id trimmed and lowercased, with `_` written as `-`.
pub fn slugify(id: &str) -> (r: String)
    ensures
        r@ == slug_of(id@),
{
    let low = lowercase(from_chars(&trim_chars(&to_chars(id))).as_str());
    let v = to_chars(low.as_str());
    let mut out: Vec<char> = Vec::new();
    let mut i: usize = 0;
    while i < v.len()
        invariant
            i <= v.len(),
            out@ == v@.take(i as int).map_values(|c: char| if c == '_' { '-' } else { c }),
        decreases v.len() - i,
    {
        out.push(if v[i] == '_' { '-' } else { v[i] });
        assert(v@.take(i + 1).map_values(|c: char| if c == '_' { '-' } else { c }) == v@.take(
            i as int,
        ).map_values(|c: char| if c == '_' { '-' } else { c }).push(
            if v@[i as int] == '_' { '-' } else { v@[i as int] },
        ));
        i = i + 1;
    }
    assert(v@.take(v.len() as int) == v@);
    from_chars(&out)
}

/// A source, as each one implements it: its name, the page a reader is sent
/// to for an id, and the address its payload for an id is fetched from.
pub trait ProviderEnumTrait {
    spec fn name_spec(&self) -> Seq<char>;

    spec fn link_spec(&self, id: Seq<char>) -> Seq<char>;

    spec fn url_spec(&self, id: Seq<char>) -> Seq<char>;

    fn name(&self) -> (r: &'static str)
        ensures
            r@ == self.name_spec(),
    ;

    fn link(&self, id: &str) -> (r: String)
        ensures
            r@ == self.link_spec(id@),
    ;

    fn url(&self, id: &str) -> (r: String)
        ensures
            r@ == self.url_spec(id@),
    ;
}

/// The iGEM collection on SynBioHub, serving flat files.
pub struct SynBioHubProvider;

/// The legacy iGEM parts registry, serving HTML pages.
pub struct IgemPartsProvider;

/// NCBI's nucleotide database, serving flat files.
pub struct NcbiProvider;

/// The iGEM registry's API, serving JSON.
pub struct IgemApiProvider;

/// Ensembl's gene export, serving flat files.
pub struct EnsemblProvider;

/// AddGene's plasmid pages, serving HTML.
pub struct AddGeneProvider;

impl ProviderEnumTrait for SynBioHubProvider {
    open spec fn name_spec(&self) -> Seq<char> {
        "iGEM via SynBioHub"@
    }

    open spec fn link_spec(&self, id: Seq<char>) -> Seq<char> {
        "https://synbiohub.org/public/igem/"@ + id + "/1"@
    }

    open spec fn url_spec(&self, id: Seq<char>) -> Seq<char> {
        "https://synbiohub.org/public/igem/"@ + id + "/1/gb"@
    }

    fn name(&self) -> (r: &'static str) {
        "iGEM via SynBioHub"
    }

    fn link(&self, id: &str) -> (r: String) {
        concat3("https://synbiohub.org/public/igem/", id, "/1")
    }

    fn url(&self, id: &str) -> (r: String) {
        concat3("https://synbiohub.org/public/igem/", id, "/1/gb")
    }
}

impl ProviderEnumTrait for IgemPartsProvider {
    open spec fn name_spec(&self) -> Seq<char> {
        "iGEM Parts Registry (Legacy)"@
    }

    open spec fn link_spec(&self, id: Seq<char>) -> Seq<char> {
        "https://parts.igem.org/Part:"@ + id + ""@
    }

    open spec fn url_spec(&self, id: Seq<char>) -> Seq<char> {
        self.link_spec(id)
    }

    fn name(&self) -> (r: &'static str) {
        "iGEM Parts Registry (Legacy)"
    }

    fn link(&self, id: &str) -> (r: String) {
        concat3("https://parts.igem.org/Part:", id, "")
    }

    fn url(&self, id: &str) -> (r: String) {
        self.link(id)
    }
}

impl ProviderEnumTrait for NcbiProvider {
    open spec fn name_spec(&self) -> Seq<char> {
        "NCBI"@
    }

    open spec fn link_spec(&self, id: Seq<char>) -> Seq<char> {
        "https://www.ncbi.nlm.nih.gov/nuccore/"@ + id + ""@
    }

    open spec fn url_spec(&self, id: Seq<char>) -> Seq<char> {
        "https://eutils.ncbi.nlm.nih.gov/entrez/eutils/efetch.fcgi?db=nuccore&id="@ + id
            + "&rettype=gb&retmode=text"@
    }

    fn name(&self) -> (r: &'static str) {
        "NCBI"
    }

    fn link(&self, id: &str) -> (r: String) {
        concat3("https://www.ncbi.nlm.nih.gov/nuccore/", id, "")
    }

    fn url(&self, id: &str) -> (r: String) {
        concat3(
            "https://eutils.ncbi.nlm.nih.gov/entrez/eutils/efetch.fcgi?db=nuccore&id=",
            id,
            "&rettype=gb&retmode=text",
        )
    }
}

impl ProviderEnumTrait for IgemApiProvider {
    open spec fn name_spec(&self) -> Seq<char> {
        "iGEM Registry"@
    }

    open spec fn link_spec(&self, id: Seq<char>) -> Seq<char> {
        "https://registry.igem.org/parts/"@ + slug_of(id) + ""@
    }

    open spec fn url_spec(&self, id: Seq<char>) -> Seq<char> {
        "https://api.registry.igem.org/v1/parts/slugs/"@ + slug_of(id) + ""@
    }

    fn name(&self) -> (r: &'static str) {
        "iGEM Registry"
    }

    fn link(&self, id: &str) -> (r: String) {
        concat3("https://registry.igem.org/parts/", slugify(id).as_str(), "")
    }

    fn url(&self, id: &str) -> (r: String) {
        concat3("https://api.registry.igem.org/v1/parts/slugs/", slugify(id).as_str(), "")
    }
}

impl ProviderEnumTrait for EnsemblProvider {
    open spec fn name_spec(&self) -> Seq<char> {
        "Ensembl"@
    }

    open spec fn link_spec(&self, id: Seq<char>) -> Seq<char> {
        "https://www.ensembl.org/Homo_sapiens/Gene/Summary?g="@ + id + ""@
    }

    open spec fn url_spec(&self, id: Seq<char>) -> Seq<char> {
        "https://www.ensembl.org/Homo_sapiens/Export/Output/Gene?db=core;flank3_display=0;flank5_display=0;g="@
            + id + ";output=genbank;_format=Text"@
    }

    fn name(&self) -> (r: &'static str) {
        "Ensembl"
    }

    fn link(&self, id: &str) -> (r: String) {
        concat3("https://www.ensembl.org/Homo_sapiens/Gene/Summary?g=", id, "")
    }

    fn url(&self, id: &str) -> (r: String) {
        concat3(
            "https://www.ensembl.org/Homo_sapiens/Export/Output/Gene?db=core;flank3_display=0;flank5_display=0;g=",
            id,
            ";output=genbank;_format=Text",
        )
    }
}

impl ProviderEnumTrait for AddGeneProvider {
    open spec fn name_spec(&self) -> Seq<char> {
        "AddGene"@
    }

    open spec fn link_spec(&self, id: Seq<char>) -> Seq<char> {
        "https://www.addgene.org/"@ + id + "/"@
    }

    open spec fn url_spec(&self, id: Seq<char>) -> Seq<char> {
        "https://www.addgene.org/"@ + id + "/sequences/"@
    }

    fn name(&self) -> (r: &'static str) {
        "AddGene"
    }

    fn link(&self, id: &str) -> (r: String) {
        concat3("https://www.addgene.org/", id, "/")
    }

    fn url(&self, id: &str) -> (r: String) {
        concat3("https://www.addgene.org/", id, "/sequences/")
    }
}

/// The registered sources.
pub enum ProviderEnum {
    SynBioHub(SynBioHubProvider),
    IgemParts(IgemPartsProvider),
    Ncbi(NcbiProvider),
    IgemApi(IgemApiProvider),
    Ensembl(EnsemblProvider),
    AddGene(AddGeneProvider),
}

impl ProviderEnum {
    pub open spec fn name_of(&self) -> Seq<char> {
        match self {
            ProviderEnum::SynBioHub(p) => p.name_spec(),
            ProviderEnum::IgemParts(p) => p.name_spec(),
            ProviderEnum::Ncbi(p) => p.name_spec(),
            ProviderEnum::IgemApi(p) => p.name_spec(),
            ProviderEnum::Ensembl(p) => p.name_spec(),
            ProviderEnum::AddGene(p) => p.name_spec(),
        }
    }

    pub open spec fn link_of(&self, id: Seq<char>) -> Seq<char> {
        match self {
            ProviderEnum::SynBioHub(p) => p.link_spec(id),
            ProviderEnum::IgemParts(p) => p.link_spec(id),
            ProviderEnum::Ncbi(p) => p.link_spec(id),
            ProviderEnum::IgemApi(p) => p.link_spec(id),
            ProviderEnum::Ensembl(p) => p.link_spec(id),
            ProviderEnum::AddGene(p) => p.link_spec(id),
        }
    }

    pub open spec fn url_of(&self, id: Seq<char>) -> Seq<char> {
        match self {
            ProviderEnum::SynBioHub(p) => p.url_spec(id),
            ProviderEnum::IgemParts(p) => p.url_spec(id),
            ProviderEnum::Ncbi(p) => p.url_spec(id),
            ProviderEnum::IgemApi(p) => p.url_spec(id),
            ProviderEnum::Ensembl(p) => p.url_spec(id),
            ProviderEnum::AddGene(p) => p.url_spec(id),
        }
    }

    /// The sources whose payload is a flat file.
    pub open spec fn serves_flat_file(&self) -> bool {
        self is SynBioHub || self is Ncbi || self is Ensembl
    }

    /// A payload that the source sent in place of a record: an error page.
    pub open spec fn rejects(&self, text: Seq<char>) -> bool {
        match self {
            ProviderEnum::Ncbi(_) => contains(text, "Error:"@) || contains(text, "Failed"@),
            ProviderEnum::Ensembl(_) => contains(text, "Error"@) || contains(text, "not found"@),
            _ => false,
        }
    }

    pub fn name(&self) -> (r: &'static str)
        ensures
            r@ == self.name_of(),
    {
        match self {
            ProviderEnum::SynBioHub(p) => p.name(),
            ProviderEnum::IgemParts(p) => p.name(),
            ProviderEnum::Ncbi(p) => p.name(),
            ProviderEnum::IgemApi(p) => p.name(),
            ProviderEnum::Ensembl(p) => p.name(),
            ProviderEnum::AddGene(p) => p.name(),
        }
    }

    pub fn link(&self, id: &str) -> (r: String)
        ensures
            r@ == self.link_of(id@),
    {
        match self {
            ProviderEnum::SynBioHub(p) => p.link(id),
            ProviderEnum::IgemParts(p) => p.link(id),
            ProviderEnum::Ncbi(p) => p.link(id),
            ProviderEnum::IgemApi(p) => p.link(id),
            ProviderEnum::Ensembl(p) => p.link(id),
            ProviderEnum::AddGene(p) => p.link(id),
        }
    }

    pub fn url(&self, id: &str) -> (r: String)
        ensures
            r@ == self.url_of(id@),
    {
        match self {
            ProviderEnum::SynBioHub(p) => p.url(id),
            ProviderEnum::IgemParts(p) => p.url(id),
            ProviderEnum::Ncbi(p) => p.url(id),
            ProviderEnum::IgemApi(p) => p.url(id),
            ProviderEnum::Ensembl(p) => p.url(id),
            ProviderEnum::AddGene(p) => p.url(id),
        }
    }

    /// Whether the payload of this source is a flat file.
    pub fn reads_flat_file(&self) -> (r: bool)
        ensures
            r == self.serves_flat_file(),
    {
        match self {
            ProviderEnum::SynBioHub(_) | ProviderEnum::Ncbi(_) | ProviderEnum::Ensembl(_) => true,
            _ => false,
        }
    }

    /// Whether the payload is an error page of this source.
    pub fn payload_rejected(&self, text: &str) -> (r: bool)
        ensures
            r == self.rejects(text@),
    {
        let t = to_chars(text);
        match self {
            ProviderEnum::Ncbi(_) => contains_chars(&t, &to_chars("Error:")) || contains_chars(
                &t,
                &to_chars("Failed"),
            ),
            ProviderEnum::Ensembl(_) => contains_chars(&t, &to_chars("Error")) || contains_chars(
                &t,
                &to_chars("not found"),
            ),
            _ => false,
        }
    }

    /// The candidate of a flat-file source for `id` from its payload,
    /// retrieved at `date`; none when the payload is an error page of the
    /// source or holds neither a name nor a sequence.
    pub fn parse(&self, id: &str, text: &str, date: String) -> (r: Option<Biobrick>)
        requires
            self.serves_flat_file(),
        ensures
            r is None <==> self.rejects(text@) || genbank_of(text@) is None,
            r matches Some(b) ==> genbank_of(text@) matches Some(g) && b@ == candidate_of(
                id@,
                self.name_of(),
                self.link_of(id@),
                g,
                date@,
            ),
    {
        if self.payload_rejected(text) {
            return None;
        }
        match parse_genbank_raw(text) {
            Some(gb) => Some(genbank_to_biobrick(id, self.name(), self.link(id).as_str(), gb, date)),
            None => None,
        }
    }
}

/// The sources in registration order, which is the order their candidates fold in.
pub fn get_all_providers() -> (r: Vec<ProviderEnum>)
    ensures
        r@.len() == 6,
        r@[0] is IgemApi,
        r@[1] is SynBioHub,
        r@[2] is IgemParts,
        r@[3] is Ncbi,
        r@[4] is Ensembl,
        r@[5] is AddGene,
{
    vec![
        ProviderEnum::IgemApi(IgemApiProvider),
        ProviderEnum::SynBioHub(SynBioHubProvider),
        ProviderEnum::IgemParts(IgemPartsProvider),
        ProviderEnum::Ncbi(NcbiProvider),
        ProviderEnum::Ensembl(EnsemblProvider),
        ProviderEnum::AddGene(AddGeneProvider),
    ]
}

} // verus!
