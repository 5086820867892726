use vstd::prelude::*;
use vstd::string::*;
use crate::text::{
    find_char, find_from, has_prefix, join_lines, lemma_join_lines_push,
    lemma_lines_of_join, lemma_lines_of_no_newline, lemma_no_newline_found, lines_of, no_newline,
    split_lines, starts_with,
};

verus! {

/// A line that opens a section: a table header, or the marker comment.
pub open spec fn is_boundary(l: Seq<char>) -> bool {
    has_prefix(l, "["@) || has_prefix(l, "# delete this"@)
}

/// A line that opens a section this crate writes: the marker comment, the
/// `[source.crates-io]` redirection, or a `[source.lts-repo-…]` replacement.
pub open spec fn is_managed(l: Seq<char>) -> bool {
    has_prefix(l, "[source.crates-io]"@) || has_prefix(l, "# delete this"@) || has_prefix(
        l,
        "[source.lts-repo-"@,
    )
}

/// Whether the scan drops lines after having read the first `n` of `ls`: the last
/// boundary among them decides, and before any boundary nothing is dropped.
pub open spec fn skipping_after(ls: Seq<Seq<char>>, n: int) -> bool
    decreases n,
{
    if n <= 0 || n > ls.len() {
        false
    } else if is_boundary(ls[n - 1]) {
        is_managed(ls[n - 1])
    } else {
        skipping_after(ls, n - 1)
    }
}

/// The lines among the first `n` of `ls` that the scan keeps, in order.
pub open spec fn kept_prefix(ls: Seq<Seq<char>>, n: int) -> Seq<Seq<char>>
    decreases n,
{
    if n <= 0 || n > ls.len() {
        seq![]
    } else if skipping_after(ls, n) {
        kept_prefix(ls, n - 1)
    } else {
        kept_prefix(ls, n - 1).push(ls[n - 1])
    }
}

pub open spec fn kept_lines(ls: Seq<Seq<char>>) -> Seq<Seq<char>> {
    kept_prefix(ls, ls.len() as int)
}

/// The three sections appended after the kept lines: the marker comment, the
/// redirection of the default registry, and the replacement registry at `path`,
/// annotated with `cutoff`.
pub open spec fn appended_lines(path: Seq<char>, cutoff: Seq<char>) -> Seq<Seq<char>> {
    seq![
        "# delete this"@ + " to restore to the default registry"@,
        "[source.crates-io]"@,
        "replace-with = 'lts-repo-replacement'"@,
        seq![],
        "[source.lts-repo-"@ + "replacement] # "@ + cutoff,
        "registry = 'file://"@ + path + "'"@,
    ]
}

/// The configuration text that patching `existing` gives.
pub open spec fn patched_text(existing: Seq<char>, path: Seq<char>, cutoff: Seq<char>) -> Seq<char> {
    join_lines(kept_lines(lines_of(existing)) + appended_lines(path, cutoff))
}

/// How many of `ls` begin with `p`.
pub open spec fn count_prefixed(ls: Seq<Seq<char>>, p: Seq<char>) -> nat
    decreases ls.len(),
{
    if ls.len() == 0 {
        0
    } else {
        (if has_prefix(ls[0], p) { 1nat } else { 0nat }) + count_prefixed(ls.drop_first(), p)
    }
}

/// Whether `line` opens a section.
pub fn is_section_boundary(line: &str) -> (r: bool)
    ensures
        r == is_boundary(line@),
{
    starts_with(line, "[") || starts_with(line, "# delete this")
}

/// Whether `line` opens a section that patching replaces.
pub fn is_managed_section(line: &str) -> (r: bool)
    ensures
        r == is_managed(line@),
{
    starts_with(line, "[source.crates-io]") || starts_with(line, "# delete this") || starts_with(
        line,
        "[source.lts-repo-",
    )
}

fn push_line(out: &mut String, line: &str, Ghost(ls): Ghost<Seq<Seq<char>>>)
    requires
        old(out)@ == join_lines(ls),
    ensures
        final(out)@ == join_lines(ls.push(line@)),
{
    out.append(line);
    out.append("\n");
    proof {
        reveal_strlit("\n");
        lemma_join_lines_push(ls, line@);
        assert("\n"@ =~= seq!['\n']);
    }
}

/// Rewrites a configuration text so that the default registry is replaced by the
/// registry at `fork_path`: the sections that an earlier run wrote are dropped,
/// every other line is kept as it was and where it was, and fresh sections are
/// appended.
pub fn patch_config(existing: &str, fork_path: &str, cutoff: &str) -> (r: String)
    ensures
        r@ == patched_text(existing@, fork_path@, cutoff@),
{
    let lines = split_lines(existing);
    let ghost ls = lines@.map_values(|l: String| l@);
    let mut out = String::new();
    let mut skipping = false;
    let mut i: usize = 0;
    assert(out@ =~= join_lines(kept_prefix(ls, 0)));
    while i < lines.len()
        invariant
            ls == lines@.map_values(|l: String| l@),
            i <= lines@.len(),
            skipping == skipping_after(ls, i as int),
            out@ == join_lines(kept_prefix(ls, i as int)),
        decreases lines@.len() - i,
    {
        let line = lines[i].as_str();
        assert(line@ == ls[i as int]);
        if is_section_boundary(line) {
            skipping = is_managed_section(line);
        }
        if !skipping {
            push_line(&mut out, line, Ghost(kept_prefix(ls, i as int)));
        }
        i = i + 1;
    }
    let ghost kept = kept_prefix(ls, i as int);
    let ghost a = appended_lines(fork_path@, cutoff@);
    let mut marker = String::new();
    marker.append("# delete this");
    marker.append(" to restore to the default registry");
    push_line(&mut out, marker.as_str(), Ghost(kept));
    push_line(&mut out, "[source.crates-io]", Ghost(kept.push(a[0])));
    proof {
        assert(kept.push(a[0]) =~= kept + a.take(1));
        assert(kept.push(a[0]).push(a[1]) =~= kept + a.take(2));
    }
    push_line(&mut out, "replace-with = 'lts-repo-replacement'", Ghost(kept + a.take(2)));
    proof {
        reveal_strlit("");
        assert(""@ =~= a[3]);
        assert(kept.push(a[0]) =~= kept + a.take(1));
        assert(kept.push(a[0]).push(a[1]) =~= kept + a.take(2));
        assert((kept + a.take(2)).push(a[2]) =~= kept + a.take(3));
    }
    push_line(&mut out, "", Ghost(kept + a.take(3)));
    let mut source = String::new();
    source.append("[source.lts-repo-");
    source.append("replacement] # ");
    source.append(cutoff);
    proof {
        assert((kept + a.take(3)).push(a[3]) =~= kept + a.take(4));
    }
    push_line(&mut out, source.as_str(), Ghost(kept + a.take(4)));
    let mut registry = String::new();
    registry.append("registry = 'file://");
    registry.append(fork_path);
    registry.append("'");
    proof {
        assert((kept + a.take(4)).push(a[4]) =~= kept + a.take(5));
    }
    push_line(&mut out, registry.as_str(), Ghost(kept + a.take(5)));
    proof {
        assert((kept + a.take(5)).push(a[5]) =~= kept + a);
    }
    out
}

pub proof fn lemma_not_prefix_at(s: Seq<char>, p: Seq<char>, k: int)
    requires
        0 <= k < p.len(),
        k < s.len() ==> s[k] != p[k],
    ensures
        !has_prefix(s, p),
{
    if has_prefix(s, p) {
        assert(s.subrange(0, p.len() as int)[k] == s[k]);
    }
}

pub proof fn lemma_prefix_of_concat(a: Seq<char>, b: Seq<char>)
    ensures
        has_prefix(a + b, a),
{
    assert((a + b).subrange(0, a.len() as int) =~= a);
}

pub proof fn lemma_no_newline_concat(a: Seq<char>, b: Seq<char>)
    requires
        no_newline(a),
        no_newline(b),
    ensures
        no_newline(a + b),
{
    assert forall|k: int| 0 <= k < (a + b).len() implies (a + b)[k] != '\n' by {
        if k >= a.len() {
            assert((a + b)[k] == b[k - a.len()]);
        }
    }
}

pub proof fn lemma_appended_no_newline(path: Seq<char>, cutoff: Seq<char>)
    requires
        no_newline(path),
        no_newline(cutoff),
    ensures
        forall|i: int|
            0 <= i < appended_lines(path, cutoff).len() ==> no_newline(
                #[trigger] appended_lines(path, cutoff)[i],
            ),
{
    reveal_with_fuel(find_from, 40);
    reveal_strlit("# delete this");
    reveal_strlit(" to restore to the default registry");
    reveal_strlit("[source.crates-io]");
    reveal_strlit("replace-with = 'lts-repo-replacement'");
    reveal_strlit("[source.lts-repo-");
    reveal_strlit("replacement] # ");
    reveal_strlit("registry = 'file://");
    reveal_strlit("'");
    assert(find_char("# delete this"@, '\n') == "# delete this"@.len());
    assert(find_char(" to restore to the default registry"@, '\n')
        == " to restore to the default registry"@.len());
    assert(find_char("[source.crates-io]"@, '\n') == "[source.crates-io]"@.len());
    assert(find_char("replace-with = 'lts-repo-replacement'"@, '\n')
        == "replace-with = 'lts-repo-replacement'"@.len());
    assert(find_char("[source.lts-repo-"@, '\n') == "[source.lts-repo-"@.len());
    assert(find_char("replacement] # "@, '\n') == "replacement] # "@.len());
    assert(find_char("registry = 'file://"@, '\n') == "registry = 'file://"@.len());
    assert(find_char("'"@, '\n') == "'"@.len());
    lemma_no_newline_found("# delete this"@);
    lemma_no_newline_found(" to restore to the default registry"@);
    lemma_no_newline_found("[source.crates-io]"@);
    lemma_no_newline_found("replace-with = 'lts-repo-replacement'"@);
    lemma_no_newline_found("[source.lts-repo-"@);
    lemma_no_newline_found("replacement] # "@);
    lemma_no_newline_found("registry = 'file://"@);
    lemma_no_newline_found("'"@);
    lemma_no_newline_concat("# delete this"@, " to restore to the default registry"@);
    lemma_no_newline_concat("[source.lts-repo-"@, "replacement] # "@);
    lemma_no_newline_concat("[source.lts-repo-"@ + "replacement] # "@, cutoff);
    lemma_no_newline_concat("registry = 'file://"@, path);
    lemma_no_newline_concat("registry = 'file://"@ + path, "'"@);
    let a = appended_lines(path, cutoff);
    assert(no_newline(a[3]));
}

pub proof fn lemma_skipping_after_concat(a: Seq<Seq<char>>, b: Seq<Seq<char>>, k: int)
    requires
        0 <= k <= a.len(),
    ensures
        skipping_after(a + b, k) == skipping_after(a, k),
        kept_prefix(a + b, k) == kept_prefix(a, k),
    decreases k,
{
    if k > 0 {
        assert((a + b)[k - 1] == a[k - 1]);
        lemma_skipping_after_concat(a, b, k - 1);
    }
}

/// Every line that the scan keeps holds no `'\n'` when no line of its input does,
/// and none of them opens a section that patching replaces.
pub proof fn lemma_kept_lines_shape(ls: Seq<Seq<char>>, n: int)
    requires
        0 <= n <= ls.len(),
    ensures
        forall|i: int|
            0 <= i < kept_prefix(ls, n).len() ==> !(is_boundary(#[trigger] kept_prefix(ls, n)[i])
                && is_managed(kept_prefix(ls, n)[i])),
        (forall|i: int| 0 <= i < ls.len() ==> no_newline(#[trigger] ls[i])) ==> forall|i: int|
            0 <= i < kept_prefix(ls, n).len() ==> no_newline(#[trigger] kept_prefix(ls, n)[i]),
    decreases n,
{
    if n > 0 {
        lemma_kept_lines_shape(ls, n - 1);
        let k = kept_prefix(ls, n - 1);
        if !skipping_after(ls, n) {
            assert forall|i: int| 0 <= i < k.len() + 1 implies #[trigger] k.push(ls[n - 1])[i] == (
            if i < k.len() {
                k[i]
            } else {
                ls[n - 1]
            }) by {}
        }
    }
}

/// Scanning what a scan kept keeps all of it, and ends outside any replaced section.
pub proof fn lemma_kept_prefix_stable(ls: Seq<Seq<char>>, n: int)
    requires
        0 <= n <= ls.len(),
    ensures
        kept_lines(kept_prefix(ls, n)) == kept_prefix(ls, n),
        !skipping_after(kept_prefix(ls, n), kept_prefix(ls, n).len() as int),
    decreases n,
{
    if n > 0 {
        lemma_kept_prefix_stable(ls, n - 1);
        let k = kept_prefix(ls, n - 1);
        if !skipping_after(ls, n) {
            let l = ls[n - 1];
            let k2 = k.push(l);
            assert(k2 =~= k + seq![l]);
            lemma_skipping_after_concat(k, seq![l], k.len() as int);
            assert(k2[k.len() as int] == l);
        }
    }
}

/// The appended sections are dropped by a later scan, whatever came before them.
pub proof fn lemma_appended_dropped(kept: Seq<Seq<char>>, path: Seq<char>, cutoff: Seq<char>)
    ensures
        kept_lines(kept + appended_lines(path, cutoff)) == kept_lines(kept),
{
    let a = appended_lines(path, cutoff);
    let ls = kept + a;
    let m = kept.len() as int;
    reveal_strlit("[");
    reveal_strlit("# delete this");
    reveal_strlit("[source.crates-io]");
    reveal_strlit("replace-with = 'lts-repo-replacement'");
    reveal_strlit("[source.lts-repo-");
    reveal_strlit("registry = 'file://");
    lemma_skipping_after_concat(kept, a, m);
    assert(ls[m] == a[0]);
    assert(ls[m + 1] == a[1]);
    assert(ls[m + 2] == a[2]);
    assert(ls[m + 3] == a[3]);
    assert(ls[m + 4] == a[4]);
    assert(ls[m + 5] == a[5]);
    lemma_prefix_of_concat("# delete this"@, " to restore to the default registry"@);
    assert(skipping_after(ls, m + 1));
    assert(a[1] =~= "[source.crates-io]"@);
    lemma_prefix_of_concat("[source.crates-io]"@, seq![]);
    assert("[source.crates-io]"@ + seq![] =~= "[source.crates-io]"@);
    assert("[source.crates-io]"@.subrange(0, 1) =~= "["@);
    assert(skipping_after(ls, m + 2));
    lemma_not_prefix_at(a[2], "["@, 0);
    lemma_not_prefix_at(a[2], "# delete this"@, 0);
    assert(skipping_after(ls, m + 3));
    lemma_not_prefix_at(a[3], "["@, 0);
    lemma_not_prefix_at(a[3], "# delete this"@, 0);
    assert(skipping_after(ls, m + 4));
    lemma_prefix_of_concat("[source.lts-repo-"@, "replacement] # "@ + cutoff);
    assert("[source.lts-repo-"@ + "replacement] # "@ + cutoff =~= "[source.lts-repo-"@ + (
    "replacement] # "@ + cutoff));
    assert(a[4].subrange(0, 1) =~= "["@);
    assert(skipping_after(ls, m + 5));
    lemma_not_prefix_at(a[5], "["@, 0);
    lemma_not_prefix_at(a[5], "# delete this"@, 0);
    assert(skipping_after(ls, m + 6));
    assert(ls.len() == m + 6);
    assert(kept_prefix(ls, m + 1) == kept_prefix(ls, m));
    assert(kept_prefix(ls, m + 2) == kept_prefix(ls, m));
    assert(kept_prefix(ls, m + 3) == kept_prefix(ls, m));
    assert(kept_prefix(ls, m + 4) == kept_prefix(ls, m));
    assert(kept_prefix(ls, m + 5) == kept_prefix(ls, m));
    assert(kept_prefix(ls, m + 6) == kept_prefix(ls, m));
}

pub proof fn lemma_count_concat(a: Seq<Seq<char>>, b: Seq<Seq<char>>, p: Seq<char>)
    ensures
        count_prefixed(a + b, p) == count_prefixed(a, p) + count_prefixed(b, p),
    decreases a.len(),
{
    if a.len() == 0 {
        assert(a + b =~= b);
    } else {
        assert((a + b).drop_first() =~= a.drop_first() + b);
        lemma_count_concat(a.drop_first(), b, p);
    }
}

pub proof fn lemma_count_none(ls: Seq<Seq<char>>, p: Seq<char>)
    requires
        forall|i: int| 0 <= i < ls.len() ==> !has_prefix(#[trigger] ls[i], p),
    ensures
        count_prefixed(ls, p) == 0,
    decreases ls.len(),
{
    if ls.len() > 0 {
        assert forall|i: int| 0 <= i < ls.drop_first().len() implies !has_prefix(
            #[trigger] ls.drop_first()[i],
            p,
        ) by {
            assert(ls.drop_first()[i] == ls[i + 1]);
        }
        lemma_count_none(ls.drop_first(), p);
    }
}

/// A line that begins with a replaced section's header opens a replaced section.
pub proof fn lemma_header_is_managed(l: Seq<char>, p: Seq<char>)
    requires
        p == "[source.crates-io]"@ || p == "[source.lts-repo-"@,
        has_prefix(l, p),
    ensures
        is_boundary(l) && is_managed(l),
{
    reveal_strlit("[");
    reveal_strlit("[source.crates-io]");
    reveal_strlit("[source.lts-repo-");
    assert(l.subrange(0, p.len() as int)[0] == l[0]);
    assert(l.subrange(0, 1) =~= "["@);
}

/// The lines of a patched text: the kept lines, then the appended sections.
pub proof fn lemma_patched_lines(existing: Seq<char>, path: Seq<char>, cutoff: Seq<char>)
    requires
        no_newline(path),
        no_newline(cutoff),
    ensures
        lines_of(patched_text(existing, path, cutoff)) == kept_lines(lines_of(existing))
            + appended_lines(path, cutoff),
{
    let ls = lines_of(existing);
    let k = kept_lines(ls);
    let a = appended_lines(path, cutoff);
    lemma_lines_of_no_newline(existing);
    lemma_kept_lines_shape(ls, ls.len() as int);
    lemma_appended_no_newline(path, cutoff);
    assert forall|i: int| 0 <= i < (k + a).len() implies no_newline(#[trigger] (k + a)[i]) by {
        if i >= k.len() {
            assert((k + a)[i] == a[i - k.len()]);
        }
    }
    lemma_lines_of_join(k + a);
}

/// Patching an empty configuration gives exactly the appended sections, in order:
/// the marker comment, the redirection, the replacement registry.
pub proof fn lemma_patch_empty(path: Seq<char>, cutoff: Seq<char>)
    ensures
        patched_text(seq![], path, cutoff) == join_lines(appended_lines(path, cutoff)),
        no_newline(path) && no_newline(cutoff) ==> lines_of(patched_text(seq![], path, cutoff))
            == appended_lines(path, cutoff),
{
    let e = Seq::<Seq<char>>::empty();
    assert(lines_of(seq![]) =~= e);
    assert(e + appended_lines(path, cutoff) =~= appended_lines(path, cutoff));
    if no_newline(path) && no_newline(cutoff) {
        lemma_patched_lines(seq![], path, cutoff);
    }
}

/// Patching twice is patching once with the second snapshot: the first run's sections
/// are replaced, not repeated, and the result holds exactly one redirection section
/// and one replacement-registry section.
pub proof fn lemma_patch_twice(
    existing: Seq<char>,
    path1: Seq<char>,
    cutoff1: Seq<char>,
    path2: Seq<char>,
    cutoff2: Seq<char>,
)
    requires
        no_newline(path1),
        no_newline(cutoff1),
    ensures
        patched_text(patched_text(existing, path1, cutoff1), path2, cutoff2) == patched_text(
            existing,
            path2,
            cutoff2,
        ),
        no_newline(path2) && no_newline(cutoff2) ==> {
            let ls = lines_of(patched_text(patched_text(existing, path1, cutoff1), path2, cutoff2));
            &&& count_prefixed(ls, "[source.crates-io]"@) == 1
            &&& count_prefixed(ls, "[source.lts-repo-"@) == 1
        },
{
    let ls = lines_of(existing);
    let k = kept_lines(ls);
    lemma_patched_lines(existing, path1, cutoff1);
    lemma_appended_dropped(k, path1, cutoff1);
    lemma_kept_prefix_stable(ls, ls.len() as int);
    if no_newline(path2) && no_newline(cutoff2) {
        let a = appended_lines(path2, cutoff2);
        lemma_patched_lines(existing, path2, cutoff2);
        lemma_kept_lines_shape(ls, ls.len() as int);
        let p1 = "[source.crates-io]"@;
        let p2 = "[source.lts-repo-"@;
        assert forall|i: int| 0 <= i < k.len() implies !has_prefix(#[trigger] k[i], p1) && !has_prefix(k[i], p2) by {
            if has_prefix(k[i], p1) {
                lemma_header_is_managed(k[i], p1);
            }
            if has_prefix(k[i], p2) {
                lemma_header_is_managed(k[i], p2);
            }
        }
        lemma_count_none(k, p1);
        lemma_count_none(k, p2);
        lemma_count_concat(k, a, p1);
        lemma_count_concat(k, a, p2);
        reveal_strlit("# delete this");
        reveal_strlit("[source.crates-io]");
        reveal_strlit("replace-with = 'lts-repo-replacement'");
        reveal_strlit("[source.lts-repo-");
        reveal_strlit("registry = 'file://");
        lemma_not_prefix_at(a[0], p1, 0);
        lemma_not_prefix_at(a[0], p2, 0);
        lemma_prefix_of_concat(p1, seq![]);
        assert(p1 + seq![] =~= p1);
        lemma_not_prefix_at(a[1], p2, 8);
        lemma_not_prefix_at(a[2], p1, 0);
        lemma_not_prefix_at(a[2], p2, 0);
        lemma_not_prefix_at(a[3], p1, 0);
        lemma_not_prefix_at(a[3], p2, 0);
        assert(a[4] =~= p2 + ("replacement] # "@ + cutoff2));
        lemma_prefix_of_concat(p2, "replacement] # "@ + cutoff2);
        lemma_not_prefix_at(a[4], p1, 8);
        lemma_not_prefix_at(a[5], p1, 0);
        lemma_not_prefix_at(a[5], p2, 0);
        reveal_with_fuel(count_prefixed, 7);
        assert(count_prefixed(a, p1) == 1);
        assert(count_prefixed(a, p2) == 1);
    }
}

} // verus!
