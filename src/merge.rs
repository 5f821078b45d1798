//! Field-wise merge of candidate records and the left-to-right fold of a
//! candidate list into one canonical record.
use vstd::prelude::*;
use crate::ontology::{
    EntryView, OntologyEntrySerializable, classify_notes, multiple_type_inference, registry,
};
use crate::text::{contains, contains_chars, lower_head, lower_head_of, to_chars};
use crate::types::{
    Author, AuthorView, Biobrick, BiobrickView, FeatureView, MetaBiobrick, MetaFeature,
    MetaProvider, ProviderView, author_views, biobrick_views, feature_views, provider_views,
};

verus! {

/// `s` with every element whose key an earlier element has left out.
pub open spec fn dedup_by<T>(s: Seq<T>, key: spec_fn(T) -> Seq<char>) -> Seq<T>
    decreases s.len(),
{
    if s.len() == 0 {
        seq![]
    } else {
        let d = dedup_by(s.drop_last(), key);
        if s.drop_last().map_values(key).contains(key(s.last())) {
            d
        } else {
            d.push(s.last())
        }
    }
}

/// No two elements of `s` share a key.
pub open spec fn keys_unique<T>(s: Seq<T>, key: spec_fn(T) -> Seq<char>) -> bool {
    forall|i: int, j: int| 0 <= i < j < s.len() ==> key(#[trigger] s[i]) != key(#[trigger] s[j])
}

proof fn lemma_contains_push(q: Seq<Seq<char>>, y: Seq<char>, k: Seq<char>)
    ensures
        q.push(y).contains(k) <==> (q.contains(k) || y == k),
{
    if q.push(y).contains(k) {
        let i = choose|i: int| 0 <= i < q.push(y).len() && q.push(y)[i] == k;
        if i < q.len() {
            assert(q[i] == k);
        }
    }
    if q.contains(k) {
        let i = choose|i: int| 0 <= i < q.len() && q[i] == k;
        assert(q.push(y)[i] == k);
    }
    if y == k {
        assert(q.push(y)[q.len() as int] == k);
    }
}

/// Deduplication keeps exactly the keys there were, each once.
pub proof fn lemma_dedup_by<T>(s: Seq<T>, key: spec_fn(T) -> Seq<char>)
    ensures
        forall|k: Seq<char>|
            dedup_by(s, key).map_values(key).contains(k) <==> s.map_values(key).contains(k),
        keys_unique(dedup_by(s, key), key),
    decreases s.len(),
{
    if s.len() > 0 {
        let p = s.drop_last();
        let x = s.last();
        lemma_dedup_by(p, key);
        let d = dedup_by(p, key);
        assert(s.map_values(key) == p.map_values(key).push(key(x)));
        if p.map_values(key).contains(key(x)) {
            assert forall|k: Seq<char>|
                dedup_by(s, key).map_values(key).contains(k) <==> s.map_values(key).contains(
                    k,
                ) by {
                lemma_contains_push(p.map_values(key), key(x), k);
            }
        } else {
            assert(d.push(x).map_values(key) == d.map_values(key).push(key(x)));
            assert forall|k: Seq<char>|
                dedup_by(s, key).map_values(key).contains(k) <==> s.map_values(key).contains(
                    k,
                ) by {
                lemma_contains_push(p.map_values(key), key(x), k);
                lemma_contains_push(d.map_values(key), key(x), k);
            }
            assert forall|i: int| 0 <= i < d.len() implies key(d[i]) != key(x) by {
                if key(d[i]) == key(x) {
                    assert(d.map_values(key)[i] == key(x));
                }
            }
        }
    }
}

pub proof fn lemma_dedup_push<T>(s: Seq<T>, x: T, key: spec_fn(T) -> Seq<char>)
    ensures
        dedup_by(s.push(x), key) == if s.map_values(key).contains(key(x)) {
            dedup_by(s, key)
        } else {
            dedup_by(s, key).push(x)
        },
{
    assert(s.push(x).drop_last() == s);
}

/// A feature's identity: its id.
pub open spec fn feature_key() -> spec_fn(FeatureView) -> Seq<char> {
    |f: FeatureView| f.id
}

/// A provider's identity: its name.
pub open spec fn provider_key() -> spec_fn(ProviderView) -> Seq<char> {
    |p: ProviderView| p.name
}

/// An author's identity: their name.
pub open spec fn author_key() -> spec_fn(AuthorView) -> Seq<char> {
    |a: AuthorView| a.name
}

fn has_feature_id(out: &Vec<MetaFeature>, id: &String) -> (r: bool)
    ensures
        r == feature_views(out@).map_values(feature_key()).contains(id@),
{
    let ghost ks = feature_views(out@).map_values(feature_key());
    let mut k: usize = 0;
    while k < out.len()
        invariant
            k <= out.len(),
            ks == feature_views(out@).map_values(feature_key()),
            forall|j: int| 0 <= j < k ==> ks[j] != id@,
        decreases out.len() - k,
    {
        if out[k].id == *id {
            assert(ks[k as int] == id@);
            return true;
        }
        k = k + 1;
    }
    false
}

/// The features in order, without those whose id an earlier one has.
pub fn clean_features_list(features: Vec<MetaFeature>) -> (r: Vec<MetaFeature>)
    ensures
        feature_views(r@) == dedup_by(feature_views(features@), feature_key()),
{
    let ghost fs = features@;
    let mut out: Vec<MetaFeature> = Vec::new();
    for f in it: features.into_iter()
        invariant
            it.seq() == fs,
            feature_views(out@) == dedup_by(feature_views(fs.take(it.index() as int)), feature_key()),
    {
        let ghost i = it.index() as int;
        proof {
            assert(f == fs[i]);
            assert(fs.take(i + 1) == fs.take(i).push(f));
            assert(feature_views(fs.take(i + 1)) == feature_views(fs.take(i)).push(f@));
            lemma_dedup_push(feature_views(fs.take(i)), f@, feature_key());
            lemma_dedup_by(feature_views(fs.take(i)), feature_key());
        }
        assert(feature_key()(f@) == f.id@);
        if !has_feature_id(&out, &f.id) {
            out.push(f);
            assert(feature_views(out@) == feature_views(out@.drop_last()).push(f@));
        }
        assert(feature_views(out@) == dedup_by(feature_views(fs.take(i + 1)), feature_key()));
    }
    assert(fs.take(fs.len() as int) == fs);
    out
}

fn has_provider_name(out: &Vec<MetaProvider>, name: &String) -> (r: bool)
    ensures
        r == provider_views(out@).map_values(provider_key()).contains(name@),
{
    let ghost ks = provider_views(out@).map_values(provider_key());
    let mut k: usize = 0;
    while k < out.len()
        invariant
            k <= out.len(),
            ks == provider_views(out@).map_values(provider_key()),
            forall|j: int| 0 <= j < k ==> ks[j] != name@,
        decreases out.len() - k,
    {
        if out[k].name == *name {
            assert(ks[k as int] == name@);
            return true;
        }
        k = k + 1;
    }
    false
}

fn add_unique_providers(out: &mut Vec<MetaProvider>, list: &[MetaProvider], before: Ghost<Seq<ProviderView>>)
    requires
        provider_views(old(out)@) == dedup_by(before@, provider_key()),
    ensures
        provider_views(final(out)@) == dedup_by(before@ + provider_views(list@), provider_key()),
{
    let mut i: usize = 0;
    while i < list.len()
        invariant
            i <= list.len(),
            provider_views(out@) == dedup_by(before@ + provider_views(list@.take(i as int)), provider_key()),
        decreases list.len() - i,
    {
        let x = &list[i];
        let ghost seen = before@ + provider_views(list@.take(i as int));
        proof {
            assert(before@ + provider_views(list@.take(i + 1)) == seen.push(x@));
            lemma_dedup_push(seen, x@, provider_key());
            lemma_dedup_by(seen, provider_key());
        }
        assert(provider_key()(x@) == x.name@);
        if !has_provider_name(out, &x.name) {
            out.push(x.clone());
            assert(provider_views(out@) == provider_views(out@.drop_last()).push(x@));
        }
        i = i + 1;
    }
    assert(list@.take(list.len() as int) == list@);
}

/// The providers of both lists in order, without those whose name an earlier one has.
fn concat_unique_providers(list1: &[MetaProvider], list2: &[MetaProvider]) -> (r: Vec<MetaProvider>)
    ensures
        provider_views(r@) == dedup_by(provider_views(list1@ + list2@), provider_key()),
{
    let mut unique: Vec<MetaProvider> = Vec::new();
    assert(provider_views(unique@) == dedup_by(Seq::<ProviderView>::empty(), provider_key()));
    add_unique_providers(&mut unique, list1, Ghost(Seq::empty()));
    assert(Seq::<ProviderView>::empty() + provider_views(list1@) == provider_views(list1@));
    add_unique_providers(&mut unique, list2, Ghost(provider_views(list1@)));
    assert(provider_views(list1@ + list2@) == provider_views(list1@) + provider_views(list2@));
    unique
}

fn has_author_name(out: &Vec<Author>, name: &String) -> (r: bool)
    ensures
        r == author_views(out@).map_values(author_key()).contains(name@),
{
    let ghost ks = author_views(out@).map_values(author_key());
    let mut k: usize = 0;
    while k < out.len()
        invariant
            k <= out.len(),
            ks == author_views(out@).map_values(author_key()),
            forall|j: int| 0 <= j < k ==> ks[j] != name@,
        decreases out.len() - k,
    {
        if out[k].name == *name {
            assert(ks[k as int] == name@);
            return true;
        }
        k = k + 1;
    }
    false
}

fn add_unique_authors(out: &mut Vec<Author>, list: &[Author], before: Ghost<Seq<AuthorView>>)
    requires
        author_views(old(out)@) == dedup_by(before@, author_key()),
    ensures
        author_views(final(out)@) == dedup_by(before@ + author_views(list@), author_key()),
{
    let mut i: usize = 0;
    while i < list.len()
        invariant
            i <= list.len(),
            author_views(out@) == dedup_by(before@ + author_views(list@.take(i as int)), author_key()),
        decreases list.len() - i,
    {
        let x = &list[i];
        let ghost seen = before@ + author_views(list@.take(i as int));
        proof {
            assert(before@ + author_views(list@.take(i + 1)) == seen.push(x@));
            lemma_dedup_push(seen, x@, author_key());
            lemma_dedup_by(seen, author_key());
        }
        assert(author_key()(x@) == x.name@);
        if !has_author_name(out, &x.name) {
            out.push(x.clone());
            assert(author_views(out@) == author_views(out@.drop_last()).push(x@));
        }
        i = i + 1;
    }
    assert(list@.take(list.len() as int) == list@);
}

/// The authors of both lists in order, without those whose name an earlier one has.
fn concat_unique_authors(list1: &[Author], list2: &[Author]) -> (r: Vec<Author>)
    ensures
        author_views(r@) == dedup_by(author_views(list1@ + list2@), author_key()),
{
    let mut unique: Vec<Author> = Vec::new();
    assert(author_views(unique@) == dedup_by(Seq::<AuthorView>::empty(), author_key()));
    add_unique_authors(&mut unique, list1, Ghost(Seq::empty()));
    assert(Seq::<AuthorView>::empty() + author_views(list1@) == author_views(list1@));
    add_unique_authors(&mut unique, list2, Ghost(author_views(list1@)));
    assert(author_views(list1@ + list2@) == author_views(list1@) + author_views(list2@));
    unique
}

/// How many of the first `n` positions hold characters that differ once lowercased.
pub open spec fn mismatches(a: Seq<char>, b: Seq<char>, n: int) -> int
    decreases n,
{
    if n <= 0 {
        0
    } else {
        mismatches(a, b, n - 1) + if lower_head_of(a[n - 1]) != lower_head_of(b[n - 1]) {
            1int
        } else {
            0int
        }
    }
}

pub open spec fn len_gap(a: Seq<char>, b: Seq<char>) -> int {
    if a.len() >= b.len() {
        a.len() - b.len()
    } else {
        b.len() - a.len()
    }
}

/// The cheap near-duplicate test: case-insensitive mismatches over the shared
/// prefix length, plus the difference of lengths, come to at most three.
pub open spec fn near_duplicate(a: Seq<char>, b: Seq<char>) -> bool {
    let m = if a.len() <= b.len() { a.len() } else { b.len() };
    mismatches(a, b, m as int) + len_gap(a, b) <= 3
}

/// What merging two texts gives: the other when one is empty, the first when
/// they are near-duplicates, the containing one when one holds the other,
/// and else both, joined by " / ".
pub open spec fn merged(a: Seq<char>, b: Seq<char>) -> Seq<char> {
    if a.len() == 0 {
        b
    } else if b.len() == 0 {
        a
    } else if near_duplicate(a, b) {
        a
    } else if contains(a, b) {
        a
    } else if contains(b, a) {
        b
    } else {
        a + " / "@ + b
    }
}

proof fn lemma_mismatches_bound(a: Seq<char>, b: Seq<char>, n: int)
    ensures
        0 <= mismatches(a, b, n) <= if n < 0 { 0 } else { n },
    decreases n,
{
    if n > 0 {
        lemma_mismatches_bound(a, b, n - 1);
    }
}

proof fn lemma_mismatches_self(a: Seq<char>, n: int)
    ensures
        mismatches(a, a, n) == 0,
    decreases n,
{
    if n > 0 {
        lemma_mismatches_self(a, n - 1);
    }
}

/// Whether two texts are near-duplicates.
pub fn compare_strings(a: &str, b: &str) -> (r: bool)
    ensures
        r == near_duplicate(a@, b@),
{
    let ca = to_chars(a);
    let cb = to_chars(b);
    let m = if ca.len() <= cb.len() { ca.len() } else { cb.len() };
    let mut count: usize = 0;
    let mut i: usize = 0;
    while i < m
        invariant
            m <= ca.len(),
            m <= cb.len(),
            i <= m,
            ca@ == a@,
            cb@ == b@,
            count == mismatches(a@, b@, i as int),
        decreases m - i,
    {
        proof {
            lemma_mismatches_bound(a@, b@, i as int);
        }
        if lower_head(ca[i]) != lower_head(cb[i]) {
            count = count + 1;
        }
        i = i + 1;
    }
    proof {
        lemma_mismatches_bound(a@, b@, m as int);
    }
    let gap = if ca.len() >= cb.len() { ca.len() - cb.len() } else { cb.len() - ca.len() };
    count <= 3 && gap <= 3 - count
}

/// Merges two texts of the same field: the other when one is empty, the first
/// when they are near-duplicates, the containing one when one holds the
/// other, and else `a / b`.
pub fn merge_strings(a: &str, b: &str) -> (r: String)
    ensures
        r@ == merged(a@, b@),
{
    if a.is_empty() {
        return b.to_owned();
    }
    if b.is_empty() {
        return a.to_owned();
    }
    if compare_strings(a, b) {
        return a.to_owned();
    }
    let ca = to_chars(a);
    let cb = to_chars(b);
    if contains_chars(&ca, &cb) {
        return a.to_owned();
    }
    if contains_chars(&cb, &ca) {
        return b.to_owned();
    }
    let mut r = a.to_owned();
    r.append(" / ");
    r.append(b);
    r
}

/// Merging a text with itself, or with an empty text on either side, gives
/// the text back.
pub proof fn lemma_merge_strings_identity(a: Seq<char>, b: Seq<char>)
    ensures
        merged(a, a) == a,
        merged(a, Seq::empty()) == a,
        merged(Seq::empty(), b) == b,
{
    lemma_mismatches_self(a, a.len() as int);
}

/// Why candidates could not be folded into one record.
#[derive(Clone, Copy, Debug, PartialEq, Eq, Structural)]
pub enum MergeError {
    /// Two candidates name different parts.
    IdMismatch,
}

/// The category of a merge: the classifier's verdict on both tags together.
pub open spec fn merged_category(a: EntryView, b: EntryView) -> EntryView {
    registry(classify_notes(seq![a.canonical, b.canonical]))
}

/// The record that merging `b` into the accumulated `a` gives.
pub open spec fn enriched(a: BiobrickView, b: BiobrickView) -> BiobrickView {
    BiobrickView {
        id: a.id,
        name: merged(a.name, b.name),
        category: merged_category(a.category, b.category),
        circular: a.circular || b.circular,
        size: a.size,
        providers: dedup_by(a.providers + b.providers, provider_key()),
        description: merged(a.description, b.description),
        authors: dedup_by(a.authors + b.authors, author_key()),
        creation: a.creation,
        sequence: a.sequence,
        features: dedup_by(a.features + b.features, feature_key()),
    }
}

/// The left-to-right fold of a non-empty candidate list.
pub open spec fn folded(cs: Seq<BiobrickView>) -> Result<BiobrickView, MergeError>
    decreases cs.len(),
{
    if cs.len() <= 1 {
        Ok(cs[0])
    } else {
        match folded(cs.drop_last()) {
            Ok(acc) => if acc.id == cs.last().id {
                Ok(enriched(acc, cs.last()))
            } else {
                Err(MergeError::IdMismatch)
            },
            Err(e) => Err(e),
        }
    }
}

/// Whether a later candidate's sequence differs from the accumulated one,
/// which the merge resolves by keeping the earlier sequence.
pub fn sequences_diverge(biobrick1: &Biobrick, biobrick2: &Biobrick) -> (r: bool)
    ensures
        r == (biobrick1@.sequence != biobrick2@.sequence),
{
    biobrick1.sequence != biobrick2.sequence
}

/// Merges candidate `biobrick2` into the accumulated `biobrick1`; the two
/// must name the same part. The sequence, size, id and creation date of the
/// first stay; texts merge; lists are joined without repeating a key.
pub fn enrich(biobrick1: Biobrick, biobrick2: Biobrick) -> (r: Result<Biobrick, MergeError>)
    ensures
        r matches Ok(m) ==> biobrick1@.id == biobrick2@.id && m@ == enriched(biobrick1@, biobrick2@),
        r matches Err(e) ==> biobrick1@.id != biobrick2@.id && e == MergeError::IdMismatch,
{
    let ghost v1 = biobrick1@;
    let ghost v2 = biobrick2@;
    if biobrick1.metadata.id != biobrick2.metadata.id {
        return Err(MergeError::IdMismatch);
    }
    let Biobrick { metadata: m1, sequence, features: mut features } = biobrick1;
    let Biobrick { metadata: m2, sequence: _, features: mut features2 } = biobrick2;
    let notes = vec![m1.category.canonical.clone(), m2.category.canonical.clone()];
    assert(crate::ontology::string_views(notes@) == seq![v1.category.canonical, v2.category.canonical]);
    let category = OntologyEntrySerializable::from_entry(&multiple_type_inference(notes.as_slice()));
    let name = merge_strings(m1.name.as_str(), m2.name.as_str());
    let description = merge_strings(m1.description.as_str(), m2.description.as_str());
    let providers = concat_unique_providers(m1.providers.as_slice(), m2.providers.as_slice());
    let authors = concat_unique_authors(m1.authors.as_slice(), m2.authors.as_slice());
    assert(provider_views(m1.providers@ + m2.providers@) == v1.providers + v2.providers);
    assert(author_views(m1.authors@ + m2.authors@) == v1.authors + v2.authors);
    let ghost fs1 = features@;
    let ghost fs2 = features2@;
    features.append(&mut features2);
    assert(feature_views(fs1 + fs2) == v1.features + v2.features);
    let features = clean_features_list(features);
    let metadata = MetaBiobrick {
        id: m1.id,
        name,
        category,
        circular: m1.circular || m2.circular,
        size: m1.size,
        providers,
        description,
        authors,
        creation: m1.creation,
    };
    Ok(Biobrick { metadata, sequence, features })
}

proof fn lemma_folded_err_stays(cs: Seq<BiobrickView>, n: int)
    requires
        1 <= n <= cs.len(),
        folded(cs.take(n)) is Err,
    ensures
        folded(cs) == folded(cs.take(n)),
    decreases cs.len() - n,
{
    if n < cs.len() {
        assert(cs.take(n + 1).drop_last() == cs.take(n));
        lemma_folded_err_stays(cs, n + 1);
    } else {
        assert(cs.take(n) == cs);
    }
}

/// Folds a non-empty candidate list, in its order, into one record: the
/// first candidate, with each later one merged into it in turn.
pub fn fold_biobricks(candidates: Vec<Biobrick>) -> (r: Result<Biobrick, MergeError>)
    requires
        candidates.len() >= 1,
    ensures
        r matches Ok(m) ==> folded(biobrick_views(candidates@)) == Ok::<BiobrickView, MergeError>(m@),
        r matches Err(e) ==> folded(biobrick_views(candidates@)) == Err::<BiobrickView, MergeError>(e),
{
    let ghost cs = biobrick_views(candidates@);
    let ghost all = candidates@;
    let mut acc: Option<Biobrick> = None;
    for c in it: candidates.into_iter()
        invariant
            it.seq() == all,
            cs == biobrick_views(all),
            all.len() >= 1,
            it.index() == 0 ==> acc is None,
            it.index() > 0 ==> (acc matches Some(a) && folded(cs.take(it.index() as int)) == Ok::<BiobrickView, MergeError>(a@)),
    {
        let ghost i = it.index() as int;
        proof {
            assert(c == all[i]);
            assert(cs.take(i + 1).drop_last() == cs.take(i));
            assert(cs.take(i + 1).last() == c@);
        }
        acc = match acc {
            None => {
                assert(cs.take(1) == seq![c@]);
                Some(c)
            },
            Some(a) => match enrich(a, c) {
                Ok(m) => Some(m),
                Err(e) => {
                    proof {
                        lemma_folded_err_stays(cs, i + 1);
                    }
                    return Err(e);
                },
            },
        };
    }
    assert(cs.take(cs.len() as int) == cs);
    match acc {
        Some(a) => Ok(a),
        None => Err(MergeError::IdMismatch),
    }
}

/// Folding a list of one candidate gives that candidate back, unchanged in
/// every field.
pub proof fn lemma_fold_single(c: BiobrickView)
    ensures
        folded(seq![c]) == Ok::<BiobrickView, MergeError>(c),
{
}

/// Earliest wins: the canonical record has the id, size and sequence of the
/// first candidate.
pub proof fn lemma_fold_earliest_wins(cs: Seq<BiobrickView>)
    requires
        cs.len() >= 1,
    ensures
        folded(cs) matches Ok(r) ==> r.id == cs[0].id && r.size == cs[0].size && r.sequence
            == cs[0].sequence,
    decreases cs.len(),
{
    if cs.len() > 1 {
        lemma_fold_earliest_wins(cs.drop_last());
    }
}

/// After folding, no two features share an id. A single candidate is given
/// back as it is, so there its own feature ids must already be distinct.
pub proof fn lemma_fold_unique_features(cs: Seq<BiobrickView>)
    requires
        cs.len() >= 2 || (cs.len() == 1 && keys_unique(cs[0].features, feature_key())),
    ensures
        folded(cs) matches Ok(r) ==> keys_unique(r.features, feature_key()),
{
    if cs.len() > 1 {
        if let Ok(acc) = folded(cs.drop_last()) {
            lemma_dedup_by(acc.features + cs.last().features, feature_key());
        }
    }
}

/// What every candidate and canonical record keeps: its size is the length
/// of its sequence, and no two providers, authors or features share a name
/// or id.
pub open spec fn record_wf(b: BiobrickView) -> bool {
    &&& b.size == b.sequence.len()
    &&& keys_unique(b.providers, provider_key())
    &&& keys_unique(b.authors, author_key())
    &&& keys_unique(b.features, feature_key())
}

/// Folding keeps the record invariants: when the first candidate's size is
/// the length of its sequence, so is the canonical record's, and after any
/// merge the provider names, author names and feature ids are distinct.
pub proof fn lemma_fold_keeps_invariants(cs: Seq<BiobrickView>)
    requires
        cs.len() >= 2 || (cs.len() == 1 && record_wf(cs[0])),
        cs[0].size == cs[0].sequence.len(),
    ensures
        folded(cs) matches Ok(r) ==> record_wf(r),
{
    lemma_fold_earliest_wins(cs);
    if cs.len() > 1 {
        if let Ok(acc) = folded(cs.drop_last()) {
            let b = cs.last();
            lemma_fold_earliest_wins(cs.drop_last());
            lemma_dedup_by(acc.providers + b.providers, provider_key());
            lemma_dedup_by(acc.authors + b.authors, author_key());
            lemma_dedup_by(acc.features + b.features, feature_key());
        }
    }
}

/// The fold fails exactly when some candidate names another part than the
/// first one does.
pub proof fn lemma_fold_fails_iff_ids_differ(cs: Seq<BiobrickView>)
    requires
        cs.len() >= 1,
    ensures
        folded(cs) is Err <==> exists|i: int| 0 <= i < cs.len() && #[trigger] cs[i].id != cs[0].id,
    decreases cs.len(),
{
    if cs.len() > 1 {
        let p = cs.drop_last();
        lemma_fold_fails_iff_ids_differ(p);
        lemma_fold_earliest_wins(p);
        if folded(p) is Err {
            let i = choose|i: int| 0 <= i < p.len() && #[trigger] p[i].id != p[0].id;
            assert(cs[i].id != cs[0].id);
        } else if exists|i: int| 0 <= i < cs.len() && #[trigger] cs[i].id != cs[0].id {
            let i = choose|i: int| 0 <= i < cs.len() && #[trigger] cs[i].id != cs[0].id;
            if i < p.len() {
                assert(p[i].id != p[0].id);
            }
        }
    }
}

/// Merges two descriptions of one feature: the first keeps its id and
/// location, the names merge and the category is classified anew.
pub fn merge_features(f1: MetaFeature, f2: MetaFeature) -> (r: MetaFeature)
    ensures
        r@ == (FeatureView {
            id: f1@.id,
            name: merged(f1@.name, f2@.name),
            category: merged_category(f1@.category, f2@.category),
            location: f1@.location,
        }),
{
    let notes = vec![f1.category.canonical.clone(), f2.category.canonical.clone()];
    assert(crate::ontology::string_views(notes@) == seq![f1@.category.canonical, f2@.category.canonical]);
    MetaFeature {
        name: merge_strings(f1.name.as_str(), f2.name.as_str()),
        category: OntologyEntrySerializable::from_entry(&multiple_type_inference(notes.as_slice())),
        id: f1.id,
        location: f1.location,
    }
}

} // verus!
