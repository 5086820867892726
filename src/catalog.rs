use vstd::prelude::*;
use crate::text::{
    after_char, before_char, chars_of, index_of, contains_char, find_char, has_prefix, lex_le,
    lemma_lex_le_transitive, starts_with, text_eq, text_le, trim, trimmed,
};

verus! {

/// One toolchain release: its date (`YYYY-MM-DD`) and its dotted version.
pub struct Release {
    pub date: String,
    pub version: String,
}

impl View for Release {
    /// `(date, version)`.
    type V = (Seq<char>, Seq<char>);

    open spec fn view(&self) -> (Seq<char>, Seq<char>) {
        (self.date@, self.version@)
    }
}

/// The release catalog, oldest first.
pub struct VersionTable {
    pub releases: Vec<Release>,
}

impl View for VersionTable {
    type V = Seq<(Seq<char>, Seq<char>)>;

    open spec fn view(&self) -> Seq<(Seq<char>, Seq<char>)> {
        self.releases@.map_values(|r: Release| r@)
    }
}

/// What a selector resolved to: the cutoff date and the toolchain version.
pub struct CutoffSelection {
    pub cutoff_date: String,
    pub resolved_version: String,
}

impl View for CutoffSelection {
    type V = (Seq<char>, Seq<char>);

    open spec fn view(&self) -> (Seq<char>, Seq<char>) {
        (self.cutoff_date@, self.resolved_version@)
    }
}

/// Why a selector could not be turned into a cutoff date.
#[derive(Debug, Clone, Copy, PartialEq, Eq, Structural)]
pub enum ResolveError {
    /// The installed toolchain's version is missing from the catalog, or could not be read.
    UnresolvedToolchain,
    /// The selector looks like a version, and no catalog entry matches it.
    UnrecognizedVersion,
    /// The selector is neither a date nor a version.
    InvalidSelector,
}

pub type Resolution = Result<(Seq<char>, Seq<char>), ResolveError>;

/// The releases this crate knows of.
pub open spec fn builtin_releases() -> Seq<(Seq<char>, Seq<char>)> {
    seq![
        ("2015-05-15"@, "1.0.0"@),
        ("2015-06-25"@, "1.1.0"@),
        ("2015-08-07"@, "1.2.0"@),
        ("2015-09-17"@, "1.3.0"@),
        ("2015-10-29"@, "1.4.0"@),
        ("2015-12-10"@, "1.5.0"@),
        ("2016-01-21"@, "1.6.0"@),
        ("2016-03-03"@, "1.7.0"@),
        ("2016-04-14"@, "1.8.0"@),
        ("2016-05-26"@, "1.9.0"@),
        ("2016-07-07"@, "1.10.0"@),
        ("2016-08-18"@, "1.11.0"@),
        ("2016-09-29"@, "1.12.0"@),
        ("2016-10-20"@, "1.12.1"@),
        ("2016-11-10"@, "1.13.0"@),
        ("2016-12-22"@, "1.14.0"@),
        ("2017-02-02"@, "1.15.0"@),
        ("2017-02-09"@, "1.15.1"@),
        ("2017-03-16"@, "1.16.0"@),
        ("2017-04-27"@, "1.17.0"@),
        ("2017-06-08"@, "1.18.0"@),
        ("2017-07-20"@, "1.19.0"@),
        ("2017-08-31"@, "1.20.0"@),
        ("2017-10-12"@, "1.21.0"@),
        ("2017-11-22"@, "1.22.0"@),
        ("2017-11-22"@, "1.22.1"@),
        ("2018-01-04"@, "1.23.0"@),
        ("2018-02-15"@, "1.24.0"@),
        ("2018-03-01"@, "1.24.1"@),
        ("2018-03-29"@, "1.25.0"@),
        ("2018-05-10"@, "1.26.0"@),
        ("2018-05-29"@, "1.26.1"@),
        ("2018-06-05"@, "1.26.2"@),
        ("2018-06-21"@, "1.27.0"@),
        ("2018-07-10"@, "1.27.1"@),
        ("2018-07-20"@, "1.27.2"@),
        ("2018-08-02"@, "1.28.0"@),
        ("2018-09-13"@, "1.29.0"@),
        ("2018-09-25"@, "1.29.1"@),
        ("2018-10-11"@, "1.29.2"@),
        ("2018-10-25"@, "1.30.0"@),
        ("2018-11-08"@, "1.30.1"@),
        ("2018-12-06"@, "1.31.0"@),
        ("2018-12-20"@, "1.31.1"@),
        ("2019-01-17"@, "1.32.0"@),
        ("2019-02-28"@, "1.33.0"@),
        ("2019-04-11"@, "1.34.0"@),
        ("2019-04-25"@, "1.34.1"@),
        ("2019-05-14"@, "1.34.2"@),
        ("2019-05-23"@, "1.35.0"@),
        ("2019-07-04"@, "1.36.0"@),
        ("2019-08-15"@, "1.37.0"@),
        ("2019-09-20"@, "1.38.0"@),
    ]
}

/// Index of the first entry at or after `i` that satisfies `p`, or `cat.len()`.
pub open spec fn first_from(
    cat: Seq<(Seq<char>, Seq<char>)>,
    p: spec_fn((Seq<char>, Seq<char>)) -> bool,
    i: int,
) -> int
    decreases cat.len() - i,
{
    if i < 0 || i >= cat.len() {
        cat.len() as int
    } else if p(cat[i]) {
        i
    } else {
        first_from(cat, p, i + 1)
    }
}

/// Index of the first entry whose date is not earlier than `d`, or `cat.len()`.
pub open spec fn date_floor(cat: Seq<(Seq<char>, Seq<char>)>, d: Seq<char>) -> int {
    first_from(cat, not_before(d), 0)
}

/// Holds of the entries dated on or after `d`.
pub open spec fn not_before(d: Seq<char>) -> spec_fn((Seq<char>, Seq<char>)) -> bool {
    |e: (Seq<char>, Seq<char>)| lex_le(d, e.0)
}

/// Holds of the entries whose version is `v`.
pub open spec fn has_version(v: Seq<char>) -> spec_fn((Seq<char>, Seq<char>)) -> bool {
    |e: (Seq<char>, Seq<char>)| e.1 == v
}

/// Holds of the entries that `v` selects.
pub open spec fn selected_by(v: Seq<char>) -> spec_fn((Seq<char>, Seq<char>)) -> bool {
    |e: (Seq<char>, Seq<char>)| version_matches(e.1, v)
}

/// Index of the first entry whose version is `v`, or `cat.len()`.
pub open spec fn version_exact(cat: Seq<(Seq<char>, Seq<char>)>, v: Seq<char>) -> int {
    first_from(cat, has_version(v), 0)
}

/// A version `entry` is selected by `sel` when it is `sel`, or extends it by a dot
/// (`1.20` selects `1.20.0` and `1.20.1`, never `1.2.0`).
pub open spec fn version_matches(entry: Seq<char>, sel: Seq<char>) -> bool {
    entry == sel || has_prefix(entry, sel.push('.'))
}

/// Index of the first entry whose version `v` selects, or `cat.len()`.
pub open spec fn version_prefix(cat: Seq<(Seq<char>, Seq<char>)>, v: Seq<char>) -> int {
    first_from(cat, selected_by(v), 0)
}

pub open spec fn is_digit(c: char) -> bool {
    '0' <= c <= '9'
}

/// A selector that starts with a four-digit year and holds a `-`.
pub open spec fn is_date_like(s: Seq<char>) -> bool {
    s.len() >= 4 && is_digit(s[0]) && is_digit(s[1]) && is_digit(s[2]) && is_digit(s[3])
        && contains_char(s, '-')
}

/// A selector that holds a `.`.
pub open spec fn is_version_like(s: Seq<char>) -> bool {
    contains_char(s, '.')
}

/// The version shown for a date that lies past the catalog's last release.
pub open spec fn unknown_version() -> Seq<char> {
    "<date>"@
}

/// What an explicit selector resolves to.  For a date, the cutoff is the date itself,
/// and the version is that of the first release on or after it (a hint only).
pub open spec fn resolve_spec(cat: Seq<(Seq<char>, Seq<char>)>, sel: Seq<char>) -> Resolution {
    if is_date_like(sel) {
        let i = date_floor(cat, sel);
        Ok((sel, if i < cat.len() { cat[i].1 } else { unknown_version() }))
    } else if is_version_like(sel) {
        let i = version_prefix(cat, sel);
        if i < cat.len() {
            Ok(cat[i])
        } else {
            Err(ResolveError::UnrecognizedVersion)
        }
    } else {
        Err(ResolveError::InvalidSelector)
    }
}

/// The version token of a toolchain's `--version` line (`rustc 1.38.0 (…)` gives
/// `1.38.0`, `rustc 1.30.0-beta.3 …` gives `1.30.0`): the second space-separated
/// word of the trimmed output, cut at its first `-`.
pub open spec fn toolchain_token(out: Seq<char>) -> Option<Seq<char>> {
    let t = trimmed(out);
    if contains_char(t, ' ') {
        let rest = t.skip(find_char(t, ' ') + 1);
        let word = rest.take(find_char(rest, ' '));
        Some(word.take(find_char(word, '-')))
    } else {
        None
    }
}

/// What the installed toolchain's `--version` output resolves to: its exact version
/// must be in the catalog.
pub open spec fn resolve_installed_spec(cat: Seq<(Seq<char>, Seq<char>)>, out: Seq<char>) -> Resolution {
    match toolchain_token(out) {
        Some(v) => {
            let i = version_exact(cat, v);
            if i < cat.len() {
                Ok(cat[i])
            } else {
                Err(ResolveError::UnresolvedToolchain)
            }
        },
        None => Err(ResolveError::UnresolvedToolchain),
    }
}

pub open spec fn resolution_of(r: Result<CutoffSelection, ResolveError>) -> Resolution {
    match r {
        Ok(c) => Ok(c@),
        Err(e) => Err(e),
    }
}

fn release(date: &str, version: &str) -> (r: Release)
    ensures
        r@ == (date@, version@),
{
    Release { date: date.to_owned(), version: version.to_owned() }
}

fn copy_release(r: &Release) -> (c: Release)
    ensures
        c@ == r@,
{
    Release { date: r.date.clone(), version: r.version.clone() }
}

impl VersionTable {
    /// The catalog of stable toolchain releases.
    pub fn builtin() -> (t: VersionTable)
        ensures
            t@ == builtin_releases(),
    {
        let mut r: Vec<Release> = Vec::new();
    r.push(release("2015-05-15", "1.0.0"));
    r.push(release("2015-06-25", "1.1.0"));
    r.push(release("2015-08-07", "1.2.0"));
    r.push(release("2015-09-17", "1.3.0"));
    r.push(release("2015-10-29", "1.4.0"));
    r.push(release("2015-12-10", "1.5.0"));
    r.push(release("2016-01-21", "1.6.0"));
    r.push(release("2016-03-03", "1.7.0"));
    r.push(release("2016-04-14", "1.8.0"));
    r.push(release("2016-05-26", "1.9.0"));
    r.push(release("2016-07-07", "1.10.0"));
    r.push(release("2016-08-18", "1.11.0"));
    r.push(release("2016-09-29", "1.12.0"));
    r.push(release("2016-10-20", "1.12.1"));
    r.push(release("2016-11-10", "1.13.0"));
    r.push(release("2016-12-22", "1.14.0"));
    r.push(release("2017-02-02", "1.15.0"));
    r.push(release("2017-02-09", "1.15.1"));
    r.push(release("2017-03-16", "1.16.0"));
    r.push(release("2017-04-27", "1.17.0"));
    r.push(release("2017-06-08", "1.18.0"));
    r.push(release("2017-07-20", "1.19.0"));
    r.push(release("2017-08-31", "1.20.0"));
    r.push(release("2017-10-12", "1.21.0"));
    r.push(release("2017-11-22", "1.22.0"));
    r.push(release("2017-11-22", "1.22.1"));
    r.push(release("2018-01-04", "1.23.0"));
    r.push(release("2018-02-15", "1.24.0"));
    r.push(release("2018-03-01", "1.24.1"));
    r.push(release("2018-03-29", "1.25.0"));
    r.push(release("2018-05-10", "1.26.0"));
    r.push(release("2018-05-29", "1.26.1"));
    r.push(release("2018-06-05", "1.26.2"));
    r.push(release("2018-06-21", "1.27.0"));
    r.push(release("2018-07-10", "1.27.1"));
    r.push(release("2018-07-20", "1.27.2"));
    r.push(release("2018-08-02", "1.28.0"));
    r.push(release("2018-09-13", "1.29.0"));
    r.push(release("2018-09-25", "1.29.1"));
    r.push(release("2018-10-11", "1.29.2"));
    r.push(release("2018-10-25", "1.30.0"));
    r.push(release("2018-11-08", "1.30.1"));
    r.push(release("2018-12-06", "1.31.0"));
    r.push(release("2018-12-20", "1.31.1"));
    r.push(release("2019-01-17", "1.32.0"));
    r.push(release("2019-02-28", "1.33.0"));
    r.push(release("2019-04-11", "1.34.0"));
    r.push(release("2019-04-25", "1.34.1"));
    r.push(release("2019-05-14", "1.34.2"));
    r.push(release("2019-05-23", "1.35.0"));
    r.push(release("2019-07-04", "1.36.0"));
    r.push(release("2019-08-15", "1.37.0"));
    r.push(release("2019-09-20", "1.38.0"));
        let t = VersionTable { releases: r };
        assert(t@ =~= builtin_releases());
        t
    }

    /// Index of the first release dated on or after `d`, or the catalog's length.
    pub fn date_floor_index(&self, d: &str) -> (r: usize)
        ensures
            r == date_floor(self@, d@),
    {
        let mut i: usize = 0;
        while i < self.releases.len()
            invariant
                i <= self@.len(),
                self@.len() == self.releases@.len(),
                date_floor(self@, d@) == first_from(self@, not_before(d@), i as int),
            decreases self@.len() - i,
        {
            assert(self@[i as int] == self.releases@[i as int]@);
            if text_le(d, self.releases[i].date.as_str()) {
                return i;
            }
            i = i + 1;
        }
        i
    }

    /// Index of the first release whose version is exactly `v`, or the catalog's length.
    pub fn version_exact_index(&self, v: &str) -> (r: usize)
        ensures
            r == version_exact(self@, v@),
    {
        let mut i: usize = 0;
        while i < self.releases.len()
            invariant
                i <= self@.len(),
                self@.len() == self.releases@.len(),
                version_exact(self@, v@) == first_from(self@, has_version(v@), i as int),
            decreases self@.len() - i,
        {
            assert(self@[i as int] == self.releases@[i as int]@);
            if text_eq(self.releases[i].version.as_str(), v) {
                return i;
            }
            i = i + 1;
        }
        i
    }

    /// Index of the first release that `v` selects (see [`version_matches`]), or the
    /// catalog's length.
    pub fn version_prefix_index(&self, v: &str) -> (r: usize)
        ensures
            r == version_prefix(self@, v@),
    {
        let mut i: usize = 0;
        while i < self.releases.len()
            invariant
                i <= self@.len(),
                self@.len() == self.releases@.len(),
                version_prefix(self@, v@) == first_from(self@, selected_by(v@), i as int),
            decreases self@.len() - i,
        {
            assert(self@[i as int] == self.releases@[i as int]@);
            if version_selects(self.releases[i].version.as_str(), v) {
                return i;
            }
            i = i + 1;
        }
        i
    }

    /// The date of the release whose version is exactly `v`.
    pub fn lookup_by_version(&self, v: &str) -> (r: Option<String>)
        ensures
            match r {
                Some(d) => version_exact(self@, v@) < self@.len()
                    && d@ == self@[version_exact(self@, v@)].0,
                None => version_exact(self@, v@) == self@.len(),
            },
    {
        let i = self.version_exact_index(v);
        proof { lemma_first_from_bounds(self@, has_version(v@), 0); }
        if i < self.releases.len() {
            Some(self.releases[i].date.clone())
        } else {
            None
        }
    }

    /// The first release dated on or after `d`.
    pub fn lookup_by_date_floor(&self, d: &str) -> (r: Option<Release>)
        ensures
            match r {
                Some(e) => date_floor(self@, d@) < self@.len() && e@ == self@[date_floor(self@, d@)],
                None => date_floor(self@, d@) == self@.len(),
            },
    {
        let i = self.date_floor_index(d);
        proof { lemma_first_from_bounds(self@, not_before(d@), 0); }
        if i < self.releases.len() {
            Some(copy_release(&self.releases[i]))
        } else {
            None
        }
    }

    /// The first release that `v` selects: `v` itself, or a release that extends it
    /// by a dot.
    pub fn lookup_by_version_prefix(&self, v: &str) -> (r: Option<Release>)
        ensures
            match r {
                Some(e) => version_prefix(self@, v@) < self@.len()
                    && e@ == self@[version_prefix(self@, v@)],
                None => version_prefix(self@, v@) == self@.len(),
            },
    {
        let i = self.version_prefix_index(v);
        proof {
            lemma_first_from_bounds(self@, selected_by(v@), 0);
        }
        if i < self.releases.len() {
            Some(copy_release(&self.releases[i]))
        } else {
            None
        }
    }
}

pub proof fn lemma_first_from_bounds(
    cat: Seq<(Seq<char>, Seq<char>)>,
    p: spec_fn((Seq<char>, Seq<char>)) -> bool,
    i: int,
)
    requires
        0 <= i,
    ensures
        first_from(cat, p, i) <= cat.len(),
        i <= cat.len() ==> i <= first_from(cat, p, i),
        first_from(cat, p, i) < cat.len() ==> p(cat[first_from(cat, p, i)]),
        forall|k: int| i <= k < first_from(cat, p, i) ==> !p(#[trigger] cat[k]),
    decreases cat.len() - i,
{
    if i < cat.len() && !p(cat[i]) {
        lemma_first_from_bounds(cat, p, i + 1);
    }
}

/// The catalog's invariant: dates ascend, every version is dotted and does not read as
/// a date, and no version equals or extends by a dot one listed after it.
pub open spec fn catalog_well_formed(cat: Seq<(Seq<char>, Seq<char>)>) -> bool {
    &&& forall|j: int, k: int| 0 <= j < k < cat.len() ==> lex_le(cat[j].0, cat[k].0)
    &&& forall|k: int|
        0 <= k < cat.len() ==> is_version_like(#[trigger] cat[k].1) && !is_date_like(cat[k].1)
    &&& forall|j: int, k: int|
        0 <= j < k < cat.len() ==> !version_matches(#[trigger] cat[j].1, #[trigger] cat[k].1)
}

pub proof fn lemma_first_from_at_most(
    cat: Seq<(Seq<char>, Seq<char>)>,
    p: spec_fn((Seq<char>, Seq<char>)) -> bool,
    i: int,
    k: int,
)
    requires
        0 <= i <= k < cat.len(),
        p(cat[k]),
    ensures
        first_from(cat, p, i) <= k,
    decreases k - i,
{
    if !p(cat[i]) {
        lemma_first_from_at_most(cat, p, i + 1, k);
    }
}

/// Resolving dates is monotone: a later date never gives an earlier cutoff, nor an
/// earlier catalog entry as its version hint.
pub proof fn lemma_date_resolution_monotone(
    cat: Seq<(Seq<char>, Seq<char>)>,
    d1: Seq<char>,
    d2: Seq<char>,
)
    requires
        is_date_like(d1),
        is_date_like(d2),
        lex_le(d1, d2),
    ensures
        resolve_spec(cat, d1) is Ok,
        resolve_spec(cat, d2) is Ok,
        lex_le(resolve_spec(cat, d1)->Ok_0.0, resolve_spec(cat, d2)->Ok_0.0),
        date_floor(cat, d1) <= date_floor(cat, d2),
{
    lemma_first_from_bounds(cat, not_before(d1), 0);
    lemma_first_from_bounds(cat, not_before(d2), 0);
    let j = date_floor(cat, d2);
    if j < cat.len() {
        lemma_lex_le_transitive(d1, d2, cat[j].0);
        lemma_first_from_at_most(cat, not_before(d1), 0, j);
    }
}

/// In a well-formed catalog, each listed version resolves to its own entry: that
/// version, on that date.
pub proof fn lemma_listed_version_resolves(cat: Seq<(Seq<char>, Seq<char>)>, k: int)
    requires
        catalog_well_formed(cat),
        0 <= k < cat.len(),
    ensures
        resolve_spec(cat, cat[k].1) == Ok::<(Seq<char>, Seq<char>), ResolveError>(cat[k]),
{
    let v = cat[k].1;
    assert(is_version_like(v) && !is_date_like(v));
    lemma_first_from_at_most(cat, selected_by(v), 0, k);
    lemma_first_from_bounds(cat, selected_by(v), 0);
    let i = version_prefix(cat, v);
    if i < k {
        assert(!version_matches(cat[i].1, cat[k].1));
    }
}

fn selection(date: &str, version: &str) -> (r: CutoffSelection)
    ensures
        r@ == (date@, version@),
{
    CutoffSelection { cutoff_date: date.to_owned(), resolved_version: version.to_owned() }
}

fn is_ascii_digit(c: char) -> (r: bool)
    ensures
        r == is_digit(c),
{
    '0' <= c && c <= '9'
}

/// Whether `s` reads as a date: a four-digit year first, and a `-` somewhere.
pub fn is_date_selector(s: &str) -> (r: bool)
    ensures
        r == is_date_like(s@),
{
    let v = chars_of(s);
    if v.len() < 4 {
        return false;
    }
    is_ascii_digit(v[0]) && is_ascii_digit(v[1]) && is_ascii_digit(v[2]) && is_ascii_digit(v[3])
        && index_of(&v, '-') < v.len()
}

/// Whether `s` reads as a version: it holds a `.`.
pub fn is_version_selector(s: &str) -> (r: bool)
    ensures
        r == is_version_like(s@),
{
    let v = chars_of(s);
    index_of(&v, '.') < v.len()
}

/// The version token of a toolchain's `--version` output, when it has a second word.
pub fn toolchain_version(out: &str) -> (r: Option<String>)
    ensures
        match r {
            Some(v) => toolchain_token(out@) == Some(v@),
            None => toolchain_token(out@) is None,
        },
{
    let t = trim(out);
    match after_char(t.as_str(), ' ') {
        Some(rest) => {
            let word = before_char(rest.as_str(), ' ');
            Some(before_char(word.as_str(), '-'))
        },
        None => None,
    }
}

impl VersionTable {
    /// Resolves an explicit selector: a date gives itself as the cutoff, with the
    /// version of the first release on or after it as a hint (`<date>` past the last
    /// release); a version gives the date and version of the first release it selects.
    pub fn resolve_selector(&self, sel: &str) -> (r: Result<CutoffSelection, ResolveError>)
        ensures
            resolution_of(r) == resolve_spec(self@, sel@),
    {
        if is_date_selector(sel) {
            let i = self.date_floor_index(sel);
            proof { lemma_first_from_bounds(self@, not_before(sel@), 0); }
            if i < self.releases.len() {
                Ok(selection(sel, self.releases[i].version.as_str()))
            } else {
                proof { reveal_strlit("<date>"); }
                Ok(selection(sel, "<date>"))
            }
        } else if is_version_selector(sel) {
            let i = self.version_prefix_index(sel);
            proof { lemma_first_from_bounds(self@, selected_by(sel@), 0); }
            if i < self.releases.len() {
                let e = &self.releases[i];
                Ok(selection(e.date.as_str(), e.version.as_str()))
            } else {
                Err(ResolveError::UnrecognizedVersion)
            }
        } else {
            Err(ResolveError::InvalidSelector)
        }
    }

    /// Resolves the installed toolchain from its `--version` output: its exact version
    /// must be listed.
    pub fn resolve_installed(&self, out: &str) -> (r: Result<CutoffSelection, ResolveError>)
        ensures
            resolution_of(r) == resolve_installed_spec(self@, out@),
    {
        match toolchain_version(out) {
            Some(v) => {
                let i = self.version_exact_index(v.as_str());
                proof { lemma_first_from_bounds(self@, has_version(v@), 0); }
                if i < self.releases.len() {
                    let e = &self.releases[i];
                    Ok(selection(e.date.as_str(), e.version.as_str()))
                } else {
                    Err(ResolveError::UnresolvedToolchain)
                }
            },
            None => Err(ResolveError::UnresolvedToolchain),
        }
    }
}

/// Whether a command-line argument may be the selector: it is neither the
/// subcommand's own name `lts` nor a flag (which begins with `-`).
pub fn is_selector_argument(arg: &str) -> (r: bool)
    ensures
        r == (arg@ != "lts"@ && !has_prefix(arg@, "-"@)),
{
    !text_eq(arg, "lts") && !starts_with(arg, "-")
}

/// Whether the selector asks only to fetch the baseline.
pub fn is_prefetch_request(arg: &str) -> (r: bool)
    ensures
        r == (arg@ == "prefetch"@),
{
    text_eq(arg, "prefetch")
}

/// Whether the version `entry` is selected by `sel` (see [`version_matches`]).
pub fn version_selects(entry: &str, sel: &str) -> (r: bool)
    ensures
        r == version_matches(entry@, sel@),
{
    let mut dotted = sel.to_owned();
    dotted.append(".");
    proof {
        reveal_strlit(".");
        assert(dotted@ =~= sel@.push('.'));
    }
    text_eq(entry, sel) || starts_with(entry, dotted.as_str())
}

impl VersionTable {
    /// Whether the table meets the catalog's invariant (see [`catalog_well_formed`]).
    pub fn is_well_formed(&self) -> (r: bool)
        ensures
            r == catalog_well_formed(self@),
    {
        let n = self.releases.len();
        let mut k: usize = 0;
        while k < n
            invariant
                k <= n,
                n == self@.len(),
                n == self.releases@.len(),
                forall|j: int, m: int| 0 <= j < m < k ==> lex_le(self@[j].0, self@[m].0),
                forall|m: int|
                    0 <= m < k ==> is_version_like(#[trigger] self@[m].1) && !is_date_like(
                        self@[m].1,
                    ),
                forall|j: int, m: int|
                    0 <= j < m < k ==> !version_matches(#[trigger] self@[j].1, #[trigger] self@[m].1),
            decreases n - k,
        {
            assert(self@[k as int] == self.releases@[k as int]@);
            let date = self.releases[k].date.as_str();
            let version = self.releases[k].version.as_str();
            if !is_version_selector(version) || is_date_selector(version) {
                assert(!(is_version_like(self@[k as int].1) && !is_date_like(self@[k as int].1)));
                return false;
            }
            let mut j: usize = 0;
            while j < k
                invariant
                    j <= k < n,
                    n == self@.len(),
                    n == self.releases@.len(),
                    date@ == self@[k as int].0,
                    version@ == self@[k as int].1,
                    forall|i: int| 0 <= i < j ==> lex_le(self@[i].0, self@[k as int].0),
                    forall|i: int| 0 <= i < j ==> !version_matches(#[trigger] self@[i].1, version@),
                decreases k - j,
            {
                assert(self@[j as int] == self.releases@[j as int]@);
                let e = &self.releases[j];
                if !text_le(e.date.as_str(), date) {
                    assert(!lex_le(self@[j as int].0, self@[k as int].0));
                    return false;
                }
                if version_selects(e.version.as_str(), version) {
                    assert(version_matches(self@[j as int].1, self@[k as int].1));
                    return false;
                }
                j = j + 1;
            }
            k = k + 1;
        }
        true
    }
}

} // verus!
