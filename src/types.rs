//! The records that sources produce and that the merge folds together.
use vstd::prelude::*;
use crate::ontology::{EntryView, OntologyEntrySerializable};

verus! {

/// Someone credited with a part.
#[derive(Debug)]
pub struct Author {
    pub name: String,
    pub role: Option<String>,
}

/// Where a feature lies on the sequence, and on which strand.
#[derive(Clone, Copy, Debug)]
pub struct Location {
    pub start: i32,
    pub end: i32,
    pub forward: bool,
}

/// An annotated region of a part.
#[derive(Debug)]
pub struct MetaFeature {
    pub id: String,
    pub name: String,
    pub category: OntologyEntrySerializable,
    pub location: Location,
}

/// A source that contributed to a record, with its link and retrieval time.
#[derive(Debug)]
pub struct MetaProvider {
    pub name: String,
    pub link: String,
    pub date: String,
}

/// The descriptive fields of a record.
#[derive(Debug)]
pub struct MetaBiobrick {
    pub id: String,
    pub name: String,
    pub category: OntologyEntrySerializable,
    pub circular: bool,
    pub size: usize,
    pub providers: Vec<MetaProvider>,
    pub description: String,
    pub authors: Vec<Author>,
    pub creation: Option<String>,
}

/// A whole record: one source's candidate, or the canonical merge of several.
#[derive(Debug)]
pub struct Biobrick {
    pub metadata: MetaBiobrick,
    pub sequence: String,
    pub features: Vec<MetaFeature>,
}

pub struct AuthorView {
    pub name: Seq<char>,
    pub role: Option<Seq<char>>,
}

pub struct FeatureView {
    pub id: Seq<char>,
    pub name: Seq<char>,
    pub category: EntryView,
    pub location: Location,
}

pub struct ProviderView {
    pub name: Seq<char>,
    pub link: Seq<char>,
    pub date: Seq<char>,
}

/// What a record is, with its descriptive fields and its body side by side.
pub struct BiobrickView {
    pub id: Seq<char>,
    pub name: Seq<char>,
    pub category: EntryView,
    pub circular: bool,
    pub size: nat,
    pub providers: Seq<ProviderView>,
    pub description: Seq<char>,
    pub authors: Seq<AuthorView>,
    pub creation: Option<Seq<char>>,
    pub sequence: Seq<char>,
    pub features: Seq<FeatureView>,
}

pub open spec fn opt_view(o: Option<String>) -> Option<Seq<char>> {
    match o {
        Some(s) => Some(s@),
        None => None,
    }
}

impl View for Author {
    type V = AuthorView;

    open spec fn view(&self) -> AuthorView {
        AuthorView { name: self.name@, role: opt_view(self.role) }
    }
}

impl View for MetaFeature {
    type V = FeatureView;

    open spec fn view(&self) -> FeatureView {
        FeatureView {
            id: self.id@,
            name: self.name@,
            category: self.category@,
            location: self.location,
        }
    }
}

impl View for MetaProvider {
    type V = ProviderView;

    open spec fn view(&self) -> ProviderView {
        ProviderView { name: self.name@, link: self.link@, date: self.date@ }
    }
}

pub open spec fn author_views(v: Seq<Author>) -> Seq<AuthorView> {
    v.map_values(|a: Author| a@)
}

pub open spec fn feature_views(v: Seq<MetaFeature>) -> Seq<FeatureView> {
    v.map_values(|f: MetaFeature| f@)
}

pub open spec fn provider_views(v: Seq<MetaProvider>) -> Seq<ProviderView> {
    v.map_values(|p: MetaProvider| p@)
}

impl View for Biobrick {
    type V = BiobrickView;

    open spec fn view(&self) -> BiobrickView {
        BiobrickView {
            id: self.metadata.id@,
            name: self.metadata.name@,
            category: self.metadata.category@,
            circular: self.metadata.circular,
            size: self.metadata.size as nat,
            providers: provider_views(self.metadata.providers@),
            description: self.metadata.description@,
            authors: author_views(self.metadata.authors@),
            creation: opt_view(self.metadata.creation),
            sequence: self.sequence@,
            features: feature_views(self.features@),
        }
    }
}

pub open spec fn biobrick_views(v: Seq<Biobrick>) -> Seq<BiobrickView> {
    v.map_values(|b: Biobrick| b@)
}

fn clone_opt(o: &Option<String>) -> (r: Option<String>)
    ensures
        r == *o,
{
    match o {
        Some(s) => Some(s.clone()),
        None => None,
    }
}

impl Clone for OntologyEntrySerializable {
    fn clone(&self) -> (r: Self)
        ensures
            r@ == self@,
    {
        let mut also: Vec<String> = Vec::new();
        let mut i: usize = 0;
        while i < self.also.len()
            invariant
                i <= self.also.len(),
                also@ == self.also@.take(i as int),
            decreases self.also.len() - i,
        {
            also.push(self.also[i].clone());
            assert(self.also@.take(i + 1) == self.also@.take(i as int).push(self.also@[i as int]));
            i = i + 1;
        }
        assert(self.also@.take(self.also.len() as int) == self.also@);
        OntologyEntrySerializable {
            canonical: self.canonical.clone(),
            ontology: clone_opt(&self.ontology),
            css: self.css.clone(),
            also,
            slug: self.slug.clone(),
        }
    }
}

impl Clone for Author {
    fn clone(&self) -> (r: Self)
        ensures
            r == *self,
    {
        Author { name: self.name.clone(), role: clone_opt(&self.role) }
    }
}

impl Clone for MetaProvider {
    fn clone(&self) -> (r: Self)
        ensures
            r == *self,
    {
        MetaProvider { name: self.name.clone(), link: self.link.clone(), date: self.date.clone() }
    }
}

impl Clone for MetaFeature {
    fn clone(&self) -> (r: Self)
        ensures
            r@ == self@,
    {
        MetaFeature {
            id: self.id.clone(),
            name: self.name.clone(),
            category: self.category.clone(),
            location: self.location,
        }
    }
}

} // verus!
