//! A lenient parser for the GenBank flat-file format, and the building of a
//! candidate record from what it parsed.
use vstd::prelude::*;
use crate::text::{
    append_chars, contains_chars, from_chars, lowercase, split_words, trim_quote_chars,
    lemma_trim_len, contains, find, find_chars, is_ws, is_whitespace, lines, lower_of, trim_quotes,
    words, slice, starts_with, to_chars, trim, trim_chars,
};
use crate::ontology::{
    OntologyEntrySerializable, classify_notes, multiple_type_inference, registry, string_views,
};
use crate::types::{
    Author, AuthorView, Biobrick, BiobrickView, FeatureView, Location, MetaBiobrick, MetaFeature,
    MetaProvider, ProviderView, author_views, feature_views, provider_views,
};

verus! {

pub open spec fn is_digit(c: char) -> bool {
    '0' <= c && c <= '9'
}

pub open spec fn all_digits(s: Seq<char>) -> bool {
    forall|i: int| 0 <= i < s.len() ==> is_digit(#[trigger] s[i])
}

/// The number that a string of decimal digits writes.
pub open spec fn digits_value(s: Seq<char>) -> int
    decreases s.len(),
{
    if s.len() == 0 {
        0
    } else {
        digits_value(s.drop_last()) * 10 + (s.last() as int - '0' as int)
    }
}

/// The integer that `s` writes in decimal, with an optional sign, if it does.
pub open spec fn int_of(s: Seq<char>) -> Option<int> {
    if s.len() > 0 && (s[0] == '+' || s[0] == '-') {
        let d = s.drop_first();
        if d.len() == 0 || !all_digits(d) {
            None
        } else if s[0] == '-' {
            Some(-digits_value(d))
        } else {
            Some(digits_value(d))
        }
    } else if s.len() == 0 || !all_digits(s) {
        None
    } else {
        Some(digits_value(s))
    }
}

/// What `str::parse::<i32>` gives: the integer written, if it is one that
/// fits in 32 bits.
pub open spec fn i32_of(s: Seq<char>) -> Option<i32> {
    match int_of(s) {
        Some(v) => if i32::MIN <= v <= i32::MAX {
            Some(v as i32)
        } else {
            None
        },
        None => None,
    }
}

/// A bound past every 32-bit magnitude.
const CAP: u64 = 4294967296;

proof fn lemma_digits_nonneg(s: Seq<char>)
    requires
        all_digits(s),
    ensures
        digits_value(s) >= 0,
    decreases s.len(),
{
    if s.len() > 0 {
        lemma_digits_nonneg(s.drop_last());
    }
}

/// The value of the decimal digits `v[a..]`, or `None` when a character
/// there is no digit; values past `CAP` come out as `CAP`.
fn digits_capped(v: &Vec<char>, a: usize) -> (r: Option<u64>)
    requires
        a <= v.len(),
    ensures
        r is Some <==> all_digits(v@.subrange(a as int, v.len() as int)),
        r matches Some(x) ==> x == if digits_value(v@.subrange(a as int, v.len() as int))
            < CAP { digits_value(v@.subrange(a as int, v.len() as int)) } else { CAP as int },
{
    let mut acc: u64 = 0;
    let mut i: usize = a;
    while i < v.len()
        invariant
            a <= i <= v.len(),
            all_digits(v@.subrange(a as int, i as int)),
            acc == if digits_value(v@.subrange(a as int, i as int)) < CAP {
                digits_value(v@.subrange(a as int, i as int))
            } else {
                CAP as int
            },
        decreases v.len() - i,
    {
        let c = v[i];
        if !('0' <= c && c <= '9') {
            assert(v@.subrange(a as int, v.len() as int)[i - a] == c);
            return None;
        }
        let ghost pre = v@.subrange(a as int, i as int);
        let ghost next = v@.subrange(a as int, i + 1);
        proof {
            assert(next.drop_last() == pre);
            assert(next.last() == c);
            lemma_digits_nonneg(pre);
        }
        let d: u64 = (c as u32 - '0' as u32) as u64;
        assert(d == c as int - '0' as int);
        if acc >= CAP {
            acc = CAP;
            assert(digits_value(next) >= CAP) by (nonlinear_arith)
                requires
                    digits_value(next) == digits_value(pre) * 10 + d,
                    digits_value(pre) >= CAP,
                    d >= 0,
            ;
        } else {
            let x = acc * 10 + d;
            acc = if x < CAP { x } else { CAP };
        }
        i = i + 1;
    }
    Some(acc)
}

/// Parses a decimal integer that fits in 32 bits, as `str::parse::<i32>` does.
pub fn parse_i32(v: &Vec<char>) -> (r: Option<i32>)
    ensures
        r == i32_of(v@),
{
    if v.len() == 0 {
        return None;
    }
    let signed = v[0] == '+' || v[0] == '-';
    let a: usize = if signed { 1 } else { 0 };
    if signed && v.len() == 1 {
        return None;
    }
    assert(v@.subrange(a as int, v.len() as int) == if signed { v@.drop_first() } else { v@ });
    match digits_capped(v, a) {
        None => None,
        Some(m) => {
            if v[0] == '-' {
                if m <= 2147483648 {
                    Some((0 - (m as i64)) as i32)
                } else {
                    None
                }
            } else if m <= 2147483647 {
                Some(m as i32)
            } else {
                None
            }
        },
    }
}

/// The location that a feature-table location string writes: a position, a
/// `start..end` range, or either wrapped in `complement(...)`, which makes it
/// reverse.
pub open spec fn location_of(loc: Seq<char>) -> Option<Location>
    decreases loc.len(),
    via location_of_decreases
{
    let t = trim(loc);
    if starts_with(t, "complement("@) && t.len() > 11 && t.last() == ')' {
        match location_of(t.subrange(11, t.len() - 1)) {
            Some(l) => Some(Location { start: l.start, end: l.end, forward: false }),
            None => None,
        }
    } else {
        match find(t, ".."@) {
            Some(k) => match (i32_of(t.take(k)), i32_of(t.skip(k + 2))) {
                (Some(a), Some(b)) => Some(Location { start: a, end: b, forward: true }),
                _ => None,
            },
            None => match i32_of(t) {
                Some(p) => Some(Location { start: p, end: p, forward: true }),
                None => None,
            },
        }
    }
}

#[via_fn]
proof fn location_of_decreases(loc: Seq<char>) {
    lemma_trim_len(loc);
}

fn location_chars(v: &Vec<char>) -> (r: Option<Location>)
    ensures
        r == location_of(v@),
    decreases v.len(),
{
    let t = trim_chars(v);
    proof {
        lemma_trim_len(v@);
    }
    let wrapper = to_chars("complement(");
    if t.len() > 11 && crate::text::is_at(&t, &wrapper, 0) && t[t.len() - 1] == ')' {
        let inner = slice(&t, 11, t.len() - 1);
        return match location_chars(&inner) {
            Some(l) => Some(Location { start: l.start, end: l.end, forward: false }),
            None => None,
        };
    }
    let dots = to_chars("..");
    proof {
        reveal_strlit("..");
    }
    match find_chars(&t, &dots) {
        Some(k) => {
            proof {
                crate::text::lemma_find_from(t@, dots@, 0);
            }
            let a = parse_i32(&slice(&t, 0, k));
            let b = parse_i32(&slice(&t, k + 2, t.len()));
            assert(t@.subrange(0, k as int) == t@.take(k as int));
            assert(t@.subrange(k + 2, t.len() as int) == t@.skip(k + 2));
            match (a, b) {
                (Some(a), Some(b)) => Some(Location { start: a, end: b, forward: true }),
                _ => None,
            }
        },
        None => match parse_i32(&t) {
            Some(p) => Some(Location { start: p, end: p, forward: true }),
            None => None,
        },
    }
}

/// Parses a feature-table location: a single position `p` (from `p` to
/// `p`), a range `start..end`, or either inside `complement(...)`, which
/// keeps the coordinates and makes the strand reverse.
pub fn parse_location(loc: &str) -> (r: Option<Location>)
    ensures
        r == location_of(loc@),
{
    location_chars(&to_chars(loc))
}

/// The first position at or after `i` that holds whitespace.
pub open spec fn first_ws_from(s: Seq<char>, i: int) -> Option<int>
    decreases s.len() - i,
{
    if i < 0 || i >= s.len() {
        None
    } else if is_ws(s[i]) {
        Some(i)
    } else {
        first_ws_from(s, i + 1)
    }
}

/// The pieces of `s[b..]` between occurrences of `c`, where `s[b..i]` holds no `c`.
pub open spec fn split_from(s: Seq<char>, c: char, i: int, b: int) -> Seq<Seq<char>>
    decreases s.len() - i,
{
    if i >= s.len() {
        seq![s.subrange(b, s.len() as int)]
    } else if s[i] == c {
        seq![s.subrange(b, i)] + split_from(s, c, i + 1, i + 1)
    } else {
        split_from(s, c, i + 1, b)
    }
}

/// The pieces of `s` between occurrences of `c`, as `str::split` yields them.
pub open spec fn split_char(s: Seq<char>, c: char) -> Seq<Seq<char>> {
    split_from(s, c, 0, 0)
}

/// The alphabetic characters of `s`, in order.
pub open spec fn letters(s: Seq<char>) -> Seq<char>
    decreases s.len(),
{
    if s.len() == 0 {
        seq![]
    } else if crate::text::alphabetic(s.last()) {
        letters(s.drop_last()).push(s.last())
    } else {
        letters(s.drop_last())
    }
}

/// `m` with its first character made uppercase when it is an ASCII lowercase letter.
pub open spec fn capitalized(m: Seq<char>) -> Seq<char> {
    if m.len() > 0 && 'a' <= m[0] && m[0] <= 'z' {
        m.update(0, ((m[0] as u32) - 32) as char)
    } else {
        m
    }
}

fn first_ws(v: &Vec<char>) -> (r: Option<usize>)
    ensures
        r matches Some(k) ==> first_ws_from(v@, 0) == Some(k as int) && k < v.len(),
        r is None ==> first_ws_from(v@, 0) is None,
{
    let mut i: usize = 0;
    while i < v.len()
        invariant
            i <= v.len(),
            first_ws_from(v@, 0) == first_ws_from(v@, i as int),
        decreases v.len() - i,
    {
        if is_whitespace(v[i]) {
            return Some(i);
        }
        i = i + 1;
    }
    None
}

pub(crate) fn split_on(v: &Vec<char>, c: char) -> (r: Vec<Vec<char>>)
    ensures
        crate::text::views(r@) == split_char(v@, c),
{
    let mut r: Vec<Vec<char>> = Vec::new();
    let mut i: usize = 0;
    let mut b: usize = 0;
    while i < v.len()
        invariant
            b <= i <= v.len(),
            crate::text::views(r@) + split_from(v@, c, i as int, b as int) == split_char(v@, c),
        decreases v.len() - i,
    {
        if v[i] == c {
            let piece = slice(v, b, i);
            let ghost old_r = crate::text::views(r@);
            r.push(piece);
            assert(crate::text::views(r@) =~= old_r.push(v@.subrange(b as int, i as int)));
            assert(old_r + split_from(v@, c, i as int, b as int) == crate::text::views(r@)
                + split_from(v@, c, i + 1, i + 1));
            b = i + 1;
        }
        i = i + 1;
    }
    let piece = slice(v, b, v.len());
    let ghost old_r = crate::text::views(r@);
    r.push(piece);
    assert(crate::text::views(r@) =~= old_r.push(v@.subrange(b as int, v.len() as int)));
    r
}

fn letters_of(v: &Vec<char>) -> (r: Vec<char>)
    ensures
        r@ == letters(v@),
{
    let mut r: Vec<char> = Vec::new();
    let mut i: usize = 0;
    while i < v.len()
        invariant
            i <= v.len(),
            r@ == letters(v@.take(i as int)),
        decreases v.len() - i,
    {
        assert(v@.take(i + 1).drop_last() == v@.take(i as int));
        if crate::text::is_alphabetic(v[i]) {
            r.push(v[i]);
        }
        i = i + 1;
    }
    assert(v@.take(v.len() as int) == v@);
    r
}

fn capitalize(m: &Vec<char>) -> (r: Vec<char>)
    ensures
        r@ == capitalized(m@),
{
    let mut r = slice(m, 0, m.len());
    assert(r@ == m@);
    if r.len() > 0 && 'a' <= r[0] && r[0] <= 'z' {
        let up = ((r[0] as u32) - 32) as u8 as char;
        assert(up == ((m@[0] as u32) - 32) as char);
        r.set(0, up);
    }
    r
}

/// What chrono makes of a `day-Mon-year` date: the timestamp of its
/// midnight, if the text is such a date.
pub uninterp spec fn iso_date_of(s: Seq<char>) -> Option<Seq<char>>;

/// Relies on chrono's `NaiveDate::parse_from_str` with the format
/// `%d-%b-%Y`, and on `NaiveDate::format` to render the date it parsed as
/// `%Y-%m-%dT00:00:00.000Z`.
#[verifier::external_body]
fn parse_dmy_date(s: &str) -> (r: Option<String>)
    ensures
        r matches Some(x) ==> iso_date_of(s@) == Some(x@),
        r is None ==> iso_date_of(s@) is None,
{
    match chrono::NaiveDate::parse_from_str(s, "%d-%b-%Y") {
        Ok(d) => Some(d.format("%Y-%m-%dT00:00:00.000Z").to_string()),
        Err(_) => None,
    }
}

/// One entry of the feature table: its kind, location and qualifiers.
#[derive(Debug)]
pub struct GenBankFeature {
    pub kind: String,
    pub location: Location,
    pub qualifiers: Vec<(String, String)>,
}

/// What a flat file holds, as far as it could be read.
#[derive(Debug)]
pub struct GenBankData {
    pub name: String,
    pub definition: String,
    pub creation: Option<String>,
    pub sequence: String,
    pub circular: bool,
    pub features: Vec<GenBankFeature>,
}

pub struct FeatureScan {
    pub kind: Seq<char>,
    pub location: Location,
    pub qualifiers: Seq<(Seq<char>, Seq<char>)>,
}

pub struct GenBankView {
    pub name: Seq<char>,
    pub definition: Seq<char>,
    pub creation: Option<Seq<char>>,
    pub sequence: Seq<char>,
    pub circular: bool,
    pub features: Seq<FeatureScan>,
}

pub open spec fn pair_views(q: Seq<(String, String)>) -> Seq<(Seq<char>, Seq<char>)> {
    q.map_values(|p: (String, String)| (p.0@, p.1@))
}

impl View for GenBankFeature {
    type V = FeatureScan;

    open spec fn view(&self) -> FeatureScan {
        FeatureScan { kind: self.kind@, location: self.location, qualifiers: pair_views(self.qualifiers@) }
    }
}

pub open spec fn scan_views(v: Seq<GenBankFeature>) -> Seq<FeatureScan> {
    v.map_values(|f: GenBankFeature| f@)
}

impl View for GenBankData {
    type V = GenBankView;

    open spec fn view(&self) -> GenBankView {
        GenBankView {
            name: self.name@,
            definition: self.definition@,
            creation: crate::types::opt_view(self.creation),
            sequence: self.sequence@,
            circular: self.circular,
            features: scan_views(self.features@),
        }
    }
}

/// Where a forward scan of a flat file stands after some lines.
pub struct ScanState {
    pub data: GenBankView,
    pub in_features: bool,
    pub in_origin: bool,
    pub done: bool,
}

/// A date token with its month name lowercased but for an initial capital.
pub open spec fn normalized_date(d: Seq<char>) -> Seq<char> {
    if contains(d, "-"@) {
        let ps = split_char(d, '-');
        if ps.len() == 3 {
            ps[0] + "-"@ + capitalized(lower_of(ps[1])) + "-"@ + ps[2]
        } else {
            d
        }
    } else {
        d
    }
}

/// The header line: the name is its second word, the word "circular" marks
/// the topology, and a last word of six or more that is a date gives the
/// creation date.
pub open spec fn locus_step(st: GenBankView, line: Seq<char>) -> GenBankView {
    let parts = words(line);
    GenBankView {
        name: if parts.len() >= 2 { parts[1] } else { st.name },
        circular: st.circular || contains(line, "circular"@),
        creation: if parts.len() >= 6 {
            match iso_date_of(normalized_date(parts.last())) {
                Some(x) => Some(x),
                None => st.creation,
            }
        } else {
            st.creation
        },
        ..st
    }
}

/// A feature-start line opens a feature when its location reads.
pub open spec fn feature_step(st: GenBankView, line: Seq<char>) -> GenBankView {
    let fl = trim(line);
    match first_ws_from(fl, 0) {
        Some(k) => match location_of(trim(fl.skip(k))) {
            Some(l) => GenBankView {
                features: st.features.push(
                    FeatureScan { kind: fl.take(k), location: l, qualifiers: seq![] },
                ),
                ..st
            },
            None => st,
        },
        None => st,
    }
}

/// A qualifier line `/key=value` adds the pair to the latest feature.
pub open spec fn qualifier_step(st: GenBankView, line: Seq<char>) -> GenBankView {
    let q = trim(line);
    if st.features.len() == 0 || q.len() == 0 || q[0] != '/' {
        st
    } else {
        match find(q, "="@) {
            Some(e) => {
                let f = st.features.last();
                let g = FeatureScan {
                    qualifiers: f.qualifiers.push((q.subrange(1, e), trim_quotes(q.skip(e + 1)))),
                    ..f
                };
                GenBankView { features: st.features.update(st.features.len() - 1, g), ..st }
            },
            None => st,
        }
    }
}

/// The scan after one more line.
pub open spec fn scan_step(st: ScanState, line: Seq<char>) -> ScanState {
    if st.done {
        st
    } else if starts_with(line, "LOCUS"@) {
        ScanState { data: locus_step(st.data, line), ..st }
    } else if starts_with(line, "DEFINITION"@) {
        ScanState { data: GenBankView { definition: trim(line.skip(10)), ..st.data }, ..st }
    } else if starts_with(line, "FEATURES"@) {
        ScanState { in_features: true, in_origin: false, ..st }
    } else if starts_with(line, "ORIGIN"@) {
        ScanState { in_features: false, in_origin: true, ..st }
    } else if starts_with(line, "//"@) {
        ScanState { done: true, ..st }
    } else if st.in_features && starts_with(line, FEATURE_INDENT@) && !starts_with(
        line,
        QUALIFIER_INDENT@,
    ) {
        ScanState { data: feature_step(st.data, line), ..st }
    } else if st.in_features && starts_with(line, QUALIFIER_START@) {
        ScanState { data: qualifier_step(st.data, line), ..st }
    } else if st.in_origin && trim(line).len() > 0 {
        ScanState {
            data: GenBankView { sequence: st.data.sequence + letters(trim(line)), ..st.data },
            ..st
        }
    } else {
        st
    }
}

pub open spec fn scan_start() -> ScanState {
    ScanState {
        data: GenBankView {
            name: seq![],
            definition: seq![],
            creation: None,
            sequence: seq![],
            circular: false,
            features: seq![],
        },
        in_features: false,
        in_origin: false,
        done: false,
    }
}

/// The scan after the lines `ls`.
pub open spec fn scan_lines(ls: Seq<Seq<char>>) -> ScanState
    decreases ls.len(),
{
    if ls.len() == 0 {
        scan_start()
    } else {
        scan_step(scan_lines(ls.drop_last()), ls.last())
    }
}

/// What a flat file holds: what a scan of all its lines gathered, unless it
/// found neither a name nor a sequence.
pub open spec fn genbank_of(text: Seq<char>) -> Option<GenBankView> {
    let d = scan_lines(lines(text)).data;
    if d.name.len() == 0 && d.sequence.len() == 0 {
        None
    } else {
        Some(d)
    }
}

/// The indentation of a feature-start line.
pub const FEATURE_INDENT: &'static str = "     ";

/// The indentation from which a line continues a feature.
pub const QUALIFIER_INDENT: &'static str = "                     ";

/// The start of a qualifier line.
pub const QUALIFIER_START: &'static str = "                     /";

fn normalize_date(v: &Vec<char>) -> (r: Vec<char>)
    ensures
        r@ == normalized_date(v@),
{
    let dash = to_chars("-");
    if !contains_chars(v, &dash) {
        return slice(v, 0, v.len());
    }
    let ps = split_on(v, '-');
    if ps.len() != 3 {
        assert(split_char(v@, '-').len() == ps@.len());
        return slice(v, 0, v.len());
    }
    assert(ps@[1]@ == split_char(v@, '-')[1]);
    assert(ps@[0]@ == split_char(v@, '-')[0]);
    assert(ps@[2]@ == split_char(v@, '-')[2]);
    let low = lowercase(from_chars(&ps[1]).as_str());
    let month = capitalize(&to_chars(low.as_str()));
    let mut r = slice(&ps[0], 0, ps[0].len());
    append_chars(&mut r, &dash);
    append_chars(&mut r, &month);
    append_chars(&mut r, &dash);
    append_chars(&mut r, &ps[2]);
    r
}

fn locus_line(d: GenBankData, line: &Vec<char>) -> (r: GenBankData)
    ensures
        r@ == locus_step(d@, line@),
{
    let parts = split_words(line);
    let mut d = d;
    if parts.len() >= 2 {
        assert(parts@[1]@ == words(line@)[1]);
        d.name = from_chars(&parts[1]);
    }
    if contains_chars(line, &to_chars("circular")) {
        d.circular = true;
    }
    if parts.len() >= 6 {
        assert(parts@[parts.len() - 1]@ == words(line@).last());
        let date = normalize_date(&parts[parts.len() - 1]);
        match parse_dmy_date(from_chars(&date).as_str()) {
            Some(x) => {
                d.creation = Some(x);
            },
            None => {},
        }
    }
    d
}

fn feature_line(d: GenBankData, line: &Vec<char>) -> (r: GenBankData)
    ensures
        r@ == feature_step(d@, line@),
{
    let fl = trim_chars(line);
    let mut d = d;
    match first_ws(&fl) {
        Some(k) => {
            let rest = slice(&fl, k, fl.len());
            assert(rest@ == fl@.skip(k as int));
            match location_chars(&trim_chars(&rest)) {
                Some(l) => {
                    let kind = slice(&fl, 0, k);
                    assert(kind@ == fl@.take(k as int));
                    let f = GenBankFeature { kind: from_chars(&kind), location: l, qualifiers: Vec::new() };
                    let ghost before = d.features@;
                    d.features.push(f);
                    assert(pair_views(f.qualifiers@) == Seq::<(Seq<char>, Seq<char>)>::empty());
                    assert(scan_views(d.features@) == scan_views(before).push(f@));
                },
                None => {},
            }
        },
        None => {},
    }
    d
}

fn qualifier_line(d: GenBankData, line: &Vec<char>) -> (r: GenBankData)
    ensures
        r@ == qualifier_step(d@, line@),
{
    let q = trim_chars(line);
    if d.features.len() == 0 || q.len() == 0 || q[0] != '/' {
        return d;
    }
    let eq = to_chars("=");
    proof {
        reveal_strlit("=");
    }
    match find_chars(&q, &eq) {
        Some(e) => {
            proof {
                crate::text::lemma_find_from(q@, eq@, 0);
                assert(q@.subrange(0, 1)[0] == '/');
            }
            let key = from_chars(&slice(&q, 1, e));
            let value = from_chars(&trim_quote_chars(&slice(&q, e + 1, q.len())));
            assert(q@.subrange(e + 1, q.len() as int) == q@.skip(e + 1));
            let mut d = d;
            let ghost before = d.features@;
            match d.features.pop() {
                Some(f) => {
                    let mut f = f;
                    let ghost fq = f.qualifiers@;
                    f.qualifiers.push((key, value));
                    assert(pair_views(f.qualifiers@) == pair_views(fq).push((key@, value@)));
                    d.features.push(f);
                    assert(scan_views(d.features@) == scan_views(before).update(
                        before.len() - 1,
                        f@,
                    ));
                },
                None => {},
            }
            d
        },
        None => d,
    }
}

struct Scanner {
    data: GenBankData,
    in_features: bool,
    in_origin: bool,
    done: bool,
}

impl View for Scanner {
    type V = ScanState;

    closed spec fn view(&self) -> ScanState {
        ScanState {
            data: self.data@,
            in_features: self.in_features,
            in_origin: self.in_origin,
            done: self.done,
        }
    }
}

fn scan_line(st: Scanner, line: &Vec<char>) -> (r: Scanner)
    ensures
        r@ == scan_step(st@, line@),
{
    let mut st = st;
    if st.done {
        return st;
    }
    if crate::text::is_at(line, &to_chars("LOCUS"), 0) {
        st.data = locus_line(st.data, line);
    } else if crate::text::is_at(line, &to_chars("DEFINITION"), 0) {
        proof {
            reveal_strlit("DEFINITION");
        }
        let rest = slice(line, 10, line.len());
        assert(rest@ == line@.skip(10));
        st.data.definition = from_chars(&trim_chars(&rest));
    } else if crate::text::is_at(line, &to_chars("FEATURES"), 0) {
        st.in_features = true;
        st.in_origin = false;
    } else if crate::text::is_at(line, &to_chars("ORIGIN"), 0) {
        st.in_features = false;
        st.in_origin = true;
    } else if crate::text::is_at(line, &to_chars("//"), 0) {
        st.done = true;
    } else if st.in_features && crate::text::is_at(line, &to_chars(FEATURE_INDENT), 0)
        && !crate::text::is_at(line, &to_chars(QUALIFIER_INDENT), 0) {
        st.data = feature_line(st.data, line);
    } else if st.in_features && crate::text::is_at(line, &to_chars(QUALIFIER_START), 0) {
        st.data = qualifier_line(st.data, line);
    } else if st.in_origin {
        let t = trim_chars(line);
        if t.len() > 0 {
            let ls = letters_of(&t);
            st.data.sequence.append(from_chars(&ls).as_str());
        }
    }
    st
}

/// Parses a flat file in one forward scan. Header lines give the name,
/// topology, creation date and definition; the feature table gives features
/// and their qualifiers; the origin section gives the letters of the
/// sequence; `//` ends the scan. Lines that do not read are passed over.
/// The result is `None` only when neither a name nor a sequence was found.
pub fn parse_genbank_raw(text: &str) -> (r: Option<GenBankData>)
    ensures
        r matches Some(d) ==> genbank_of(text@) == Some(d@),
        r is None ==> genbank_of(text@) is None,
{
    let ls = crate::text::split_lines(&to_chars(text));
    let ghost lv = crate::text::views(ls@);
    let mut st = Scanner {
        data: GenBankData {
            name: String::new(),
            definition: String::new(),
            creation: None,
            sequence: String::new(),
            circular: false,
            features: Vec::new(),
        },
        in_features: false,
        in_origin: false,
        done: false,
    };
    assert(st@.data.features == Seq::<FeatureScan>::empty());
    assert(st@ == scan_start());
    let mut i: usize = 0;
    while i < ls.len()
        invariant
            i <= ls.len(),
            lv == crate::text::views(ls@),
            lv == lines(text@),
            st@ == scan_lines(lv.take(i as int)),
        decreases ls.len() - i,
    {
        assert(lv.take(i + 1).drop_last() == lv.take(i as int));
        st = scan_line(st, &ls[i]);
        i = i + 1;
    }
    assert(lv.take(lv.len() as int) == lv);
    if st.data.name.as_str().is_empty() && st.data.sequence.as_str().is_empty() {
        None
    } else {
        Some(st.data)
    }
}

pub open spec fn digit_char(d: int) -> char {
    (d + 48) as char
}

/// The decimal digits of a natural number.
pub open spec fn nat_text(n: nat) -> Seq<char>
    decreases n,
{
    if n < 10 {
        seq![digit_char(n as int)]
    } else {
        nat_text(n / 10).push(digit_char((n % 10) as int))
    }
}

/// An integer written in decimal, with a minus sign when negative.
pub open spec fn int_text(v: int) -> Seq<char> {
    if v < 0 {
        seq!['-'] + nat_text((-v) as nat)
    } else {
        nat_text(v as nat)
    }
}

fn nat_chars(n: u32) -> (r: Vec<char>)
    ensures
        r@ == nat_text(n as nat),
    decreases n,
{
    let d = ((n % 10) as u8 + 48) as char;
    assert(d == digit_char((n % 10) as int));
    if n < 10 {
        vec![d]
    } else {
        let mut r = nat_chars(n / 10);
        r.push(d);
        r
    }
}

/// An integer written in decimal.
pub fn int_chars(v: i32) -> (r: Vec<char>)
    ensures
        r@ == int_text(v as int),
{
    if v < 0 {
        let m = (0 - (v as i64)) as u32;
        let mut r = vec!['-'];
        append_chars(&mut r, &nat_chars(m));
        r
    } else {
        nat_chars(v as u32)
    }
}

/// The qualifier keys whose value names a feature.
pub open spec fn label_key(k: Seq<char>) -> bool {
    k == "label"@ || k == "gene"@ || k == "note"@ || k == "locus_tag"@
}

/// The value of the first naming qualifier from position `i` on.
pub open spec fn label_from(qs: Seq<(Seq<char>, Seq<char>)>, i: int) -> Option<Seq<char>>
    decreases qs.len() - i,
{
    if i < 0 || i >= qs.len() {
        None
    } else if label_key(qs[i].0) {
        Some(qs[i].1)
    } else {
        label_from(qs, i + 1)
    }
}

/// A feature's name: its first naming qualifier, or else its kind.
pub open spec fn feature_label(f: FeatureScan) -> Seq<char> {
    match label_from(f.qualifiers, 0) {
        Some(v) => v,
        None => f.kind,
    }
}

/// The record feature built from a parsed one: named by its label, with the
/// id `label_start`, classified from its label and kind together.
pub open spec fn built_feature(f: FeatureScan) -> FeatureView {
    let name = feature_label(f);
    FeatureView {
        id: name + "_"@ + int_text(f.location.start as int),
        name,
        category: registry(classify_notes(seq![name, f.kind])),
        location: f.location,
    }
}

pub open spec fn built_features(s: Seq<FeatureScan>) -> Seq<FeatureView> {
    s.map_values(|f: FeatureScan| built_feature(f))
}

/// The candidate record that a parsed flat file gives, with its provenance.
pub open spec fn candidate_of(
    id: Seq<char>,
    provider: Seq<char>,
    link: Seq<char>,
    gb: GenBankView,
    date: Seq<char>,
) -> BiobrickView {
    BiobrickView {
        id,
        name: gb.definition,
        category: registry(classify_notes(seq![gb.definition])),
        circular: gb.circular,
        size: gb.sequence.len(),
        providers: seq![ProviderView { name: provider, link, date }],
        description: seq![],
        authors: seq![],
        creation: gb.creation,
        sequence: gb.sequence,
        features: built_features(gb.features),
    }
}

fn is_label_key(k: &String) -> (r: bool)
    ensures
        r == label_key(k@),
{
    let c = to_chars(k.as_str());
    crate::text::chars_eq(&c, &to_chars("label")) || crate::text::chars_eq(&c, &to_chars("gene"))
        || crate::text::chars_eq(&c, &to_chars("note")) || crate::text::chars_eq(
        &c,
        &to_chars("locus_tag"),
    )
}

fn build_feature(f: &GenBankFeature) -> (r: MetaFeature)
    ensures
        r@ == built_feature(f@),
{
    let ghost qs = f@.qualifiers;
    let mut label: Option<String> = None;
    let mut i: usize = 0;
    while i < f.qualifiers.len()
        invariant
            i <= f.qualifiers.len(),
            qs == pair_views(f.qualifiers@),
            label is None ==> label_from(qs, 0) == label_from(qs, i as int),
            label matches Some(v) ==> label_from(qs, 0) == Some(v@),
        decreases f.qualifiers.len() - i,
    {
        if label.is_none() && is_label_key(&f.qualifiers[i].0) {
            label = Some(f.qualifiers[i].1.clone());
        }
        i = i + 1;
    }
    let name = match label {
        Some(v) => v,
        None => f.kind.clone(),
    };
    let mut id = to_chars(name.as_str());
    append_chars(&mut id, &to_chars("_"));
    append_chars(&mut id, &int_chars(f.location.start));
    let notes = vec![name.clone(), f.kind.clone()];
    assert(string_views(notes@) == seq![name@, f.kind@]);
    let category = OntologyEntrySerializable::from_entry(&multiple_type_inference(notes.as_slice()));
    MetaFeature { id: from_chars(&id), name, category, location: f.location }
}

/// Builds the candidate record of one source from its parsed flat file: the
/// definition names it and gives its category, its size is the length of
/// its sequence, each feature gets its name, id and category, and the source
/// is its one provider.
pub fn genbank_to_biobrick(
    id: &str,
    provider: &str,
    provider_link: &str,
    gb_data: GenBankData,
    date: String,
) -> (r: Biobrick)
    ensures
        r@ == candidate_of(id@, provider@, provider_link@, gb_data@, date@),
{
    let size = to_chars(gb_data.sequence.as_str()).len();
    let mut features: Vec<MetaFeature> = Vec::new();
    let mut i: usize = 0;
    while i < gb_data.features.len()
        invariant
            i <= gb_data.features.len(),
            feature_views(features@) == built_features(scan_views(gb_data.features@).take(i as int)),
        decreases gb_data.features.len() - i,
    {
        let f = build_feature(&gb_data.features[i]);
        features.push(f);
        assert(scan_views(gb_data.features@).take(i + 1) == scan_views(gb_data.features@).take(
            i as int,
        ).push(gb_data.features@[i as int]@));
        assert(feature_views(features@) == feature_views(features@.drop_last()).push(f@));
        assert(built_features(scan_views(gb_data.features@).take(i + 1)) == built_features(
            scan_views(gb_data.features@).take(i as int),
        ).push(built_feature(gb_data.features@[i as int]@)));
        i = i + 1;
    }
    assert(scan_views(gb_data.features@).take(gb_data.features.len() as int) == scan_views(
        gb_data.features@,
    ));
    let notes = vec![gb_data.definition.clone()];
    assert(string_views(notes@) == seq![gb_data.definition@]);
    let category = OntologyEntrySerializable::from_entry(&multiple_type_inference(notes.as_slice()));
    let providers = vec![
        MetaProvider { name: provider.to_owned(), link: provider_link.to_owned(), date },
    ];
    let authors: Vec<Author> = Vec::new();
    let metadata = MetaBiobrick {
        id: id.to_owned(),
        name: gb_data.definition,
        category,
        circular: gb_data.circular,
        size,
        providers,
        description: String::new(),
        authors,
        creation: gb_data.creation,
    };
    let r = Biobrick { metadata, sequence: gb_data.sequence, features };
    assert(provider_views(r.metadata.providers@) == seq![
        ProviderView { name: provider@, link: provider_link@, date: date@ },
    ]);
    assert(author_views(r.metadata.authors@) == Seq::<AuthorView>::empty());
    r
}

} // verus!
