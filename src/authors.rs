//! Reading author names out of a free-text credit line.
use vstd::prelude::*;
use crate::genbank::split_char;
use crate::text::{
    append_chars, contains, contains_chars, find, find_chars_from, find_from, from_chars,
    lemma_find_from, lower_of, lowercase, slice, split_words, to_chars, trim, trim_chars, views,
    words,
};

verus! {

/// Whether `char::is_numeric` holds of a character.
pub uninterp spec fn numeric(c: char) -> bool;

/// Relies on `char::is_numeric`: the Unicode numeric categories.
#[verifier::external_body]
fn is_numeric(c: char) -> (r: bool)
    ensures
        r == numeric(c),
{
    c.is_numeric()
}

/// How many bytes UTF-8 takes for a character.
pub open spec fn utf8_width(c: char) -> nat {
    if (c as u32) < 0x80 {
        1
    } else if (c as u32) < 0x800 {
        2
    } else if (c as u32) < 0x10000 {
        3
    } else {
        4
    }
}

/// How many bytes UTF-8 takes for a string.
pub open spec fn utf8_len(s: Seq<char>) -> nat
    decreases s.len(),
{
    if s.len() == 0 {
        0
    } else {
        utf8_len(s.drop_last()) + utf8_width(s.last())
    }
}

/// The UTF-8 length of `v`, or `cap` when it is `cap` or more.
pub fn utf8_len_capped(v: &Vec<char>, cap: usize) -> (r: usize)
    ensures
        r == if utf8_len(v@) < cap { utf8_len(v@) } else { cap as nat },
{
    let mut n: usize = 0;
    let mut i: usize = 0;
    while i < v.len()
        invariant
            i <= v.len(),
            n == if utf8_len(v@.take(i as int)) < cap { utf8_len(v@.take(i as int)) } else { cap as nat },
        decreases v.len() - i,
    {
        assert(v@.take(i + 1).drop_last() == v@.take(i as int));
        let c = v[i];
        let w: usize = if (c as u32) < 0x80 {
            1
        } else if (c as u32) < 0x800 {
            2
        } else if (c as u32) < 0x10000 {
            3
        } else {
            4
        };
        if n < cap {
            n = if w < cap - n { n + w } else { cap };
        }
        i = i + 1;
    }
    assert(v@.take(v.len() as int) == v@);
    n
}

/// Words joined by single spaces.
pub open spec fn joined(ws: Seq<Seq<char>>) -> Seq<char>
    decreases ws.len(),
{
    if ws.len() == 0 {
        seq![]
    } else if ws.len() == 1 {
        ws[0]
    } else {
        joined(ws.drop_last()) + " "@ + ws.last()
    }
}

/// The pieces of `s[b..]` between occurrences of " and ".
pub open spec fn split_and_from(s: Seq<char>, b: int) -> Seq<Seq<char>>
    decreases s.len() - b,
    via split_and_decreases
{
    if b < 0 || b > s.len() {
        seq![]
    } else {
        match find_from(s, " and "@, b) {
            Some(k) => seq![s.subrange(b, k)] + split_and_from(s, k + 5),
            None => seq![s.subrange(b, s.len() as int)],
        }
    }
}

#[via_fn]
proof fn split_and_decreases(s: Seq<char>, b: int) {
    reveal_strlit(" and ");
    if 0 <= b <= s.len() {
        lemma_find_from(s, " and "@, b);
    }
}

/// The names that one part of a credit line lists: split at " and " when
/// it holds that word.
pub open spec fn sub_parts(part: Seq<char>) -> Seq<Seq<char>> {
    if contains(part, " and "@) {
        split_and_from(part, 0)
    } else {
        seq![part]
    }
}

/// A name with its whitespace collapsed and a final period dropped.
pub open spec fn cleaned_name(n: Seq<char>) -> Seq<char> {
    let c = joined(words(trim(n)));
    if c.len() > 0 && c.last() == '.' {
        trim(c.drop_last())
    } else {
        c
    }
}

pub open spec fn all_numeric(s: Seq<char>) -> bool {
    forall|i: int| 0 <= i < s.len() ==> numeric(#[trigger] s[i])
}

/// A cleaned name is kept when it has three bytes or more, is not a number,
/// and is not the credit label itself.
pub open spec fn keeps_name(c: Seq<char>) -> bool {
    c.len() > 0 && utf8_len(c) >= 3 && !all_numeric(c) && !contains(lower_of(c), "designed by"@)
}

/// The kept names among the cleaned `ns`, in order.
pub open spec fn kept_names(ns: Seq<Seq<char>>) -> Seq<Seq<char>>
    decreases ns.len(),
{
    if ns.len() == 0 {
        seq![]
    } else if keeps_name(cleaned_name(ns.last())) {
        kept_names(ns.drop_last()).push(cleaned_name(ns.last()))
    } else {
        kept_names(ns.drop_last())
    }
}

/// The names of the parts `ps`, in order.
pub open spec fn names_of_parts(ps: Seq<Seq<char>>) -> Seq<Seq<char>>
    decreases ps.len(),
{
    if ps.len() == 0 {
        seq![]
    } else {
        names_of_parts(ps.drop_last()) + kept_names(sub_parts(ps.last()))
    }
}

/// The pieces of `s` between commas and semicolons.
pub open spec fn list_parts(s: Seq<char>) -> Seq<Seq<char>> {
    split_char(s.map_values(|c: char| if c == ';' { ',' } else { c }), ',')
}

/// The author names of a credit line.
pub open spec fn author_names(text: Seq<char>) -> Seq<Seq<char>> {
    names_of_parts(list_parts(text))
}

fn split_and(s: &Vec<char>) -> (r: Vec<Vec<char>>)
    ensures
        views(r@) == split_and_from(s@, 0),
{
    let pat = to_chars(" and ");
    proof {
        reveal_strlit(" and ");
    }
    let mut r: Vec<Vec<char>> = Vec::new();
    let mut b: usize = 0;
    loop
        invariant
            b <= s.len(),
            pat@ == " and "@,
            pat@.len() == 5,
            views(r@) + split_and_from(s@, b as int) == split_and_from(s@, 0),
        decreases s.len() - b,
    {
        proof {
            lemma_find_from(s@, pat@, b as int);
        }
        match find_chars_from(s, &pat, b) {
            Some(k) => {
                let piece = slice(s, b, k);
                let ghost old_r = views(r@);
                r.push(piece);
                assert(views(r@) == old_r.push(piece@));
                assert(old_r + split_and_from(s@, b as int) == views(r@) + split_and_from(
                    s@,
                    k + 5,
                ));
                b = k + 5;
            },
            None => {
                let piece = slice(s, b, s.len());
                let ghost old_r = views(r@);
                r.push(piece);
                assert(views(r@) == old_r.push(piece@));
                assert(views(r@) == split_and_from(s@, 0));
                return r;
            },
        }
    }
}

fn join_words(ws: &Vec<Vec<char>>) -> (r: Vec<char>)
    ensures
        r@ == joined(views(ws@)),
{
    let mut r: Vec<char> = Vec::new();
    let mut i: usize = 0;
    while i < ws.len()
        invariant
            i <= ws.len(),
            r@ == joined(views(ws@).take(i as int)),
        decreases ws.len() - i,
    {
        assert(views(ws@).take(i + 1).drop_last() == views(ws@).take(i as int));
        if i > 0 {
            r.push(' ');
            assert(" "@ == seq![' ']) by {
                reveal_strlit(" ");
            }
        }
        append_chars(&mut r, &ws[i]);
        i = i + 1;
    }
    assert(views(ws@).take(ws.len() as int) == views(ws@));
    r
}

fn clean_name(n: &Vec<char>) -> (r: Vec<char>)
    ensures
        r@ == cleaned_name(n@),
{
    let c = join_words(&split_words(&trim_chars(n)));
    if c.len() > 0 && c[c.len() - 1] == '.' {
        let mut d = slice(&c, 0, c.len());
        d.pop();
        assert(d@ == c@.drop_last());
        trim_chars(&d)
    } else {
        c
    }
}

fn keep_name(c: &Vec<char>) -> (r: bool)
    ensures
        r == keeps_name(c@),
{
    if c.len() == 0 || utf8_len_capped(c, 3) < 3 {
        return false;
    }
    let mut numeric_all = true;
    let mut i: usize = 0;
    while i < c.len()
        invariant
            i <= c.len(),
            numeric_all == forall|j: int| 0 <= j < i ==> numeric(#[trigger] c@[j]),
        decreases c.len() - i,
    {
        if !is_numeric(c[i]) {
            numeric_all = false;
        }
        i = i + 1;
    }
    if numeric_all {
        return false;
    }
    let low = to_chars(lowercase(from_chars(c).as_str()).as_str());
    !contains_chars(&low, &to_chars("designed by"))
}

/// The author names of a credit line: pieces between commas and semicolons,
/// each split again at " and ", with whitespace collapsed and a final period
/// dropped; pieces under three bytes, all-numeric ones and the credit label
/// itself are left out.
pub fn split_authors(text: &str) -> (r: Vec<String>)
    ensures
        crate::ontology::string_views(r@) == author_names(text@),
{
    let v = to_chars(text);
    let mut unified: Vec<char> = Vec::new();
    let mut i: usize = 0;
    while i < v.len()
        invariant
            i <= v.len(),
            v@ == text@,
            unified@ == v@.take(i as int).map_values(|c: char| if c == ';' { ',' } else { c }),
        decreases v.len() - i,
    {
        unified.push(if v[i] == ';' { ',' } else { v[i] });
        assert(v@.take(i + 1).map_values(|c: char| if c == ';' { ',' } else { c }) == v@.take(
            i as int,
        ).map_values(|c: char| if c == ';' { ',' } else { c }).push(
            if v@[i as int] == ';' { ',' } else { v@[i as int] },
        ));
        i = i + 1;
    }
    assert(v@.take(v.len() as int) == v@);
    let parts = crate::genbank::split_on(&unified, ',');
    let ghost ps = views(parts@);
    let mut result: Vec<String> = Vec::new();
    let mut p: usize = 0;
    while p < parts.len()
        invariant
            p <= parts.len(),
            ps == views(parts@),
            ps == list_parts(text@),
            crate::ontology::string_views(result@) == names_of_parts(ps.take(p as int)),
        decreases parts.len() - p,
    {
        let part = &parts[p];
        let subs: Vec<Vec<char>> = if contains_chars(part, &to_chars(" and ")) {
            split_and(part)
        } else {
            vec![slice(part, 0, part.len())]
        };
        proof {
            assert(part@.subrange(0, part@.len() as int) == part@);
            assert(views(subs@) == sub_parts(ps[p as int]));
            assert(ps.take(p + 1).drop_last() == ps.take(p as int));
        }
        let ghost base = crate::ontology::string_views(result@);
        let ghost ss = views(subs@);
        let mut j: usize = 0;
        while j < subs.len()
            invariant
                j <= subs.len(),
                ss == views(subs@),
                crate::ontology::string_views(result@) == base + kept_names(ss.take(j as int)),
            decreases subs.len() - j,
        {
            assert(ss.take(j + 1).drop_last() == ss.take(j as int));
            let c = clean_name(&subs[j]);
            if keep_name(&c) {
                let ghost before = crate::ontology::string_views(result@);
                let name = from_chars(&c);
                result.push(name);
                assert(crate::ontology::string_views(result@) == before.push(name@));
            }
            j = j + 1;
        }
        assert(ss.take(ss.len() as int) == ss);
        p = p + 1;
    }
    assert(ps.take(ps.len() as int) == ps);
    result
}

/// The part of a text that follows the credit label "Designed by:", up to
/// a "Group:" label or else an opening parenthesis.
pub open spec fn credit_chunk(text: Seq<char>) -> Option<Seq<char>> {
    match find(text, "Designed by:"@) {
        None => None,
        Some(i) => {
            let after = text.skip(i + 12);
            Some(
                match find(after, "Group:"@) {
                    Some(g) => after.take(g),
                    None => match find(after, "("@) {
                        Some(p) => after.take(p),
                        None => after,
                    },
                },
            )
        },
    }
}

/// The names a page block credits: those of its credit line, when the block
/// has one and is shorter than `limit` bytes.
pub open spec fn credited(text: Seq<char>, limit: nat) -> Option<Seq<Seq<char>>> {
    if utf8_len(text) < limit {
        match credit_chunk(text) {
            Some(c) => Some(author_names(c)),
            None => None,
        }
    } else {
        None
    }
}

fn prefix_before(v: &Vec<char>, pat: &str) -> (r: Option<Vec<char>>)
    ensures
        r matches Some(x) ==> find(v@, pat@) matches Some(k) && x@ == v@.take(k),
        r is None ==> find(v@, pat@) is None,
{
    match crate::text::find_chars(v, &to_chars(pat)) {
        Some(k) => {
            proof {
                lemma_find_from(v@, pat@, 0);
            }
            let x = slice(v, 0, k);
            assert(x@ == v@.take(k as int));
            Some(x)
        },
        None => None,
    }
}

/// The author names of a page block with a credit line "Designed by: ...",
/// when the block is shorter than `limit` bytes; `None` for any other block.
pub fn credit_names(text: &str, limit: usize) -> (r: Option<Vec<String>>)
    ensures
        r matches Some(ns) ==> credited(text@, limit as nat) == Some(
            crate::ontology::string_views(ns@),
        ),
        r is None ==> credited(text@, limit as nat) is None,
{
    let v = to_chars(text);
    if utf8_len_capped(&v, limit) >= limit {
        return None;
    }
    let label = to_chars("Designed by:");
    proof {
        reveal_strlit("Designed by:");
    }
    match crate::text::find_chars(&v, &label) {
        None => None,
        Some(i) => {
            proof {
                lemma_find_from(v@, label@, 0);
            }
            let after = slice(&v, i + 12, v.len());
            assert(after@ == v@.skip(i + 12));
            let chunk = match prefix_before(&after, "Group:") {
                Some(x) => x,
                None => match prefix_before(&after, "(") {
                    Some(x) => x,
                    None => after,
                },
            };
            Some(split_authors(from_chars(&chunk).as_str()))
        },
    }
}

/// A name is its own identity.
pub open spec fn name_key() -> spec_fn(Seq<char>) -> Seq<char> {
    |n: Seq<char>| n
}

/// The names in order, each kept once, at its first appearance.
pub fn distinct_names(names: Vec<String>) -> (r: Vec<String>)
    ensures
        crate::ontology::string_views(r@) == crate::merge::dedup_by(
            crate::ontology::string_views(names@),
            name_key(),
        ),
{
    let ghost all = crate::ontology::string_views(names@);
    let mut out: Vec<String> = Vec::new();
    let mut i: usize = 0;
    while i < names.len()
        invariant
            i <= names.len(),
            all == crate::ontology::string_views(names@),
            crate::ontology::string_views(out@) == crate::merge::dedup_by(all.take(i as int), name_key()),
        decreases names.len() - i,
    {
        let ghost seen = all.take(i as int);
        proof {
            assert(all.take(i + 1) == seen.push(names@[i as int]@));
            crate::merge::lemma_dedup_push(seen, names@[i as int]@, name_key());
            crate::merge::lemma_dedup_by(seen, name_key());
            let d = crate::merge::dedup_by(seen, name_key());
            assert forall|j: int| 0 <= j < seen.len() implies seen.map_values(name_key())[j] == seen[j] by {
                assert(name_key()(seen[j]) == seen[j]);
            }
            assert forall|j: int| 0 <= j < d.len() implies d.map_values(name_key())[j] == d[j] by {
                assert(name_key()(d[j]) == d[j]);
            }
            assert(seen.map_values(name_key()) =~= seen);
            assert(d.map_values(name_key()) =~= d);
        }
        let mut found = false;
        let mut k: usize = 0;
        while k < out.len()
            invariant
                i < names.len(),
                k <= out.len(),
                found == exists|j: int| 0 <= j < k && #[trigger] out@[j]@ == names@[i as int]@,
            decreases out.len() - k,
        {
            if out[k] == names[i] {
                found = true;
            }
            k = k + 1;
        }
        proof {
            let ov = crate::ontology::string_views(out@);
            if found {
                let j = choose|j: int| 0 <= j < out.len() && #[trigger] out@[j]@ == names@[i as int]@;
                assert(ov[j] == names@[i as int]@);
            } else {
                assert forall|j: int| 0 <= j < ov.len() implies ov[j] != names@[i as int]@ by {
                    assert(out@[j]@ == ov[j]);
                }
            }
        }
        if !found {
            let ghost before = crate::ontology::string_views(out@);
            out.push(names[i].clone());
            assert(crate::ontology::string_views(out@) == before.push(names@[i as int]@));
        }
        i = i + 1;
    }
    assert(all.take(all.len() as int) == all);
    out
}

} // verus!
