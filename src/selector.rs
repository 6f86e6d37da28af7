use vstd::prelude::*;
use crate::age::{age_label, relative_time};
use crate::record::{PullRequest, status_label_of};
use crate::artifact::{artifact_name, escape, escape_char, lemma_artifact_names_distinct};
use crate::text::{chars_of, decimal, digit_value, lemma_decimal_roundtrip, push_char, string_of};

verus! {

/// A character that would break the line protocol: the field delimiter or a
/// line break.
pub open spec fn is_separator(c: char) -> bool {
    c == '\t' || c == '\n' || c == '\r'
}

pub open spec fn clean_char(c: char) -> char {
    if is_separator(c) { ' ' } else { c }
}

/// A field value with every separator replaced by a space.
pub open spec fn clean(s: Seq<char>) -> Seq<char> {
    s.map_values(|c: char| clean_char(c))
}

/// One protocol line: artifact path, age, status, title and, when several
/// repositories are in scope, the repository, joined by tabs.
pub open spec fn line_of(
    path: Seq<char>,
    age: Seq<char>,
    status: Seq<char>,
    title: Seq<char>,
    repo: Option<Seq<char>>,
) -> Seq<char> {
    let head = clean(path) + seq!['\t'] + clean(age) + seq!['\t'] + clean(status) + seq!['\t']
        + clean(title);
    match repo {
        Some(r) => head + seq!['\t'] + clean(r),
        None => head,
    }
}

/// The line for a record whose preview lives at `path`.
pub open spec fn record_line(p: PullRequest, path: Seq<char>, now: i64, show_repo: bool) -> Seq<char> {
    line_of(
        path,
        age_label(now - p.updated_at),
        status_label_of(p.status),
        p.title@,
        if show_repo { Some(p.repository_name@) } else { None },
    )
}

/// Index of the first separator in `s` at or after `i`, or the length.
pub open spec fn first_separator(s: Seq<char>, i: int) -> int
    decreases s.len() - i,
{
    if i < 0 || i >= s.len() {
        s.len() as int
    } else if is_separator(s[i]) {
        i
    } else {
        first_separator(s, i + 1)
    }
}

/// The correlation key of a selector's output: its first field.
pub open spec fn selection_key(out: Seq<char>) -> Seq<char> {
    out.take(first_separator(out, 0))
}

/// Record `i` is the one and only record whose key is `key`.
pub open spec fn unique_match(paths: Seq<Seq<char>>, key: Seq<char>, i: int) -> bool {
    &&& 0 <= i < paths.len()
    &&& clean(paths[i]) == key
    &&& forall|j: int| 0 <= j < paths.len() && j != i ==> clean(#[trigger] paths[j]) != key
}

/// The views of a list of strings.
pub open spec fn views(v: Seq<String>) -> Seq<Seq<char>> {
    v.map_values(|s: String| s@)
}

/// The record that the selector's output names, when exactly one does.
pub open spec fn selected_index(paths: Seq<Seq<char>>, out: Seq<char>) -> Option<int> {
    if exists|i: int| unique_match(paths, selection_key(out), i) {
        Some(choose|i: int| unique_match(paths, selection_key(out), i))
    } else {
        None
    }
}

/// The one matching record is the selected one.
pub proof fn lemma_unique_match_selects(paths: Seq<Seq<char>>, out: Seq<char>, i: int)
    requires
        unique_match(paths, selection_key(out), i),
    ensures
        selected_index(paths, out) == Some(i),
{
    let c = choose|k: int| unique_match(paths, selection_key(out), k);
    assert(unique_match(paths, selection_key(out), c));
    if c != i {
        assert(clean(paths[c]) == selection_key(out));
    }
}

/// What is reported once the selector has returned: the title and URL of the
/// chosen record, or that nothing was chosen.
pub open spec fn outcome_text(chosen: Option<PullRequest>) -> Seq<char> {
    match chosen {
        Some(p) => "Title: "@ + p.title@ + "\nURL  : "@ + p.html_url@,
        None => "No PR selected."@,
    }
}

/// Appends `s` with its separators replaced by spaces.
fn push_clean(out: &mut String, s: &str)
    ensures
        final(out)@ == old(out)@ + clean(s@),
{
    let cs = chars_of(s);
    let ghost head = out@;
    let n = cs.len();
    let mut i: usize = 0;
    while i < n
        invariant
            n == cs@.len(),
            cs@ == s@,
            i <= n,
            out@ == head + clean(cs@.take(i as int)),
        decreases n - i,
    {
        let c = cs[i];
        if c == '\t' || c == '\n' || c == '\r' {
            push_char(out, ' ');
        } else {
            push_char(out, c);
        }
        i = i + 1;
        assert(out@ =~= head + clean(cs@.take(i as int)));
    }
    assert(cs@.take(n as int) =~= s@);
}

/// Builds one protocol line.
pub fn protocol_line(path: &str, age: &str, status: &str, title: &str, repo: Option<&str>) -> (r: String)
    ensures
        r@ == line_of(path@, age@, status@, title@, match repo { Some(x) => Some(x@), None => None }),
{
    let mut out = String::new();
    push_clean(&mut out, path);
    push_char(&mut out, '\t');
    push_clean(&mut out, age);
    push_char(&mut out, '\t');
    push_clean(&mut out, status);
    push_char(&mut out, '\t');
    push_clean(&mut out, title);
    match repo {
        Some(x) => {
            push_char(&mut out, '\t');
            push_clean(&mut out, x);
        },
        None => {},
    }
    assert(out@ =~= line_of(path@, age@, status@, title@, match repo { Some(x) => Some(x@), None => None }));
    out
}

/// The protocol lines of ranked records, one per record, in order; `paths[i]`
/// is where the body of `prs[i]` was written.
pub fn selector_lines(prs: &Vec<PullRequest>, paths: &Vec<String>, now: i64, show_repo: bool) -> (r: Vec<String>)
    requires
        prs@.len() == paths@.len(),
    ensures
        r@.len() == prs@.len(),
        forall|i: int| 0 <= i < r@.len() ==> #[trigger] r@[i]@ == record_line(prs@[i], paths@[i]@, now, show_repo),
{
    let mut lines: Vec<String> = Vec::new();
    let n = prs.len();
    let mut i: usize = 0;
    while i < n
        invariant
            n == prs@.len(),
            n == paths@.len(),
            i <= n,
            lines@.len() == i,
            forall|k: int| 0 <= k < i ==> #[trigger] lines@[k]@ == record_line(prs@[k], paths@[k]@, now, show_repo),
        decreases n - i,
    {
        let p = &prs[i];
        let age = relative_time(now, p.updated_at);
        let repo = if show_repo { Some(p.repository_name.as_str()) } else { None };
        let line = protocol_line(paths[i].as_str(), age.as_str(), p.status.label(), p.title.as_str(), repo);
        lines.push(line);
        i = i + 1;
    }
    lines
}

/// The first field of the selector's output.
pub fn selected_key(out: &str) -> (r: String)
    ensures
        r@ == selection_key(out@),
{
    let cs = chars_of(out);
    let n = cs.len();
    let mut i: usize = 0;
    while i < n && !(cs[i] == '\t' || cs[i] == '\n' || cs[i] == '\r')
        invariant
            n == cs@.len(),
            cs@ == out@,
            i <= n,
            first_separator(out@, 0) == first_separator(out@, i as int),
        decreases n - i,
    {
        i = i + 1;
    }
    assert(out@.take(i as int) =~= out@.subrange(0, i as int));
    string_of(&cs, 0, i)
}

/// Whether the cleaned `path` equals `key`.
fn key_matches(path: &String, key: &String) -> (r: bool)
    ensures
        r == (clean(path@) == key@),
{
    let mut c = String::new();
    push_clean(&mut c, path.as_str());
    assert(c@ =~= clean(path@));
    c == *key
}

/// Maps the selector's output back to the record it names: the index of the
/// one path whose key equals the output's first field; none when no path or
/// more than one matches.
pub fn resolve_selection(paths: &Vec<String>, out: &str) -> (r: Option<usize>)
    ensures
        match r {
            Some(i) => unique_match(views(paths@), selection_key(out@), i as int),
            None => forall|i: int| !unique_match(views(paths@), selection_key(out@), i),
        },
{
    let key = selected_key(out);
    let ghost ps = views(paths@);
    let n = paths.len();
    let mut found: Option<usize> = None;
    let mut dup = false;
    let mut i: usize = 0;
    while i < n
        invariant
            n == paths@.len(),
            ps == views(paths@),
            key@ == selection_key(out@),
            i <= n,
            found is None ==> !dup && forall|k: int| 0 <= k < i ==> clean(#[trigger] ps[k]) != key@,
            found matches Some(f) ==> {
                &&& f < i
                &&& clean(ps[f as int]) == key@
                &&& !dup ==> forall|k: int| 0 <= k < i && k != f ==> clean(#[trigger] ps[k]) != key@
                &&& dup ==> exists|k: int| 0 <= k < i && k != f && clean(#[trigger] ps[k]) == key@
            },
        decreases n - i,
    {
        if key_matches(&paths[i], &key) {
            assert(ps[i as int] == paths@[i as int]@);
            match found {
                None => found = Some(i),
                Some(f) => {
                    assert(clean(ps[i as int]) == key@);
                    dup = true;
                },
            }
        } else {
            assert(ps[i as int] == paths@[i as int]@);
        }
        i = i + 1;
    }
    match found {
        Some(f) => {
            if dup {
                proof {
                    assert forall|m: int| !unique_match(ps, key@, m) by {
                        let k = choose|k: int| 0 <= k < n && k != f && clean(#[trigger] ps[k]) == key@;
                        if unique_match(ps, key@, m) {
                            assert(clean(ps[f as int]) == key@);
                            assert(clean(ps[k]) == key@);
                        }
                    }
                }
                None
            } else {
                Some(f)
            }
        },
        None => None,
    }
}

/// What to report after the selector returned `out` (none when it was
/// cancelled or exited without a choice).
pub fn selection_outcome(prs: &Vec<PullRequest>, paths: &Vec<String>, out: Option<&str>) -> (r: String)
    requires
        prs@.len() == paths@.len(),
    ensures
        r@ == outcome_text(match out {
            Some(o) => match selected_index(views(paths@), o@) {
                Some(i) => Some(prs@[i]),
                None => None,
            },
            None => None,
        }),
{
    let chosen = match out {
        Some(o) => resolve_selection(paths, o),
        None => None,
    };
    match chosen {
        Some(i) => {
            proof {
                lemma_unique_match_selects(views(paths@), out->0@, i as int);
            }
            let p = &prs[i];
            let mut s = "Title: ".to_owned();
            s.append(p.title.as_str());
            s.append("\nURL  : ");
            s.append(p.html_url.as_str());
            s
        },
        None => {
            proof {
                if let Some(o) = out {
                    if selected_index(views(paths@), o@) is Some {
                        let c = choose|k: int| unique_match(views(paths@), selection_key(o@), k);
                        assert(!unique_match(views(paths@), selection_key(o@), c));
                    }
                }
            }
            "No PR selected.".to_owned()
        },
    }
}

/// The report when the fetch found nothing: in that case no selector is
/// started at all.
pub fn empty_report(prs: &Vec<PullRequest>) -> (r: Option<String>)
    ensures
        r is Some <==> prs@.len() == 0,
        r matches Some(s) ==> s@ == "No pull requests found."@,
{
    if prs.len() == 0 {
        Some("No pull requests found.".to_owned())
    } else {
        None
    }
}

proof fn lemma_first_separator_skips(s: Seq<char>, c: Seq<char>, i: int)
    requires
        0 <= i <= c.len(),
        c.len() < s.len(),
        s.take(c.len() as int) == c,
        is_separator(s[c.len() as int]),
        forall|k: int| 0 <= k < c.len() ==> !is_separator(#[trigger] c[k]),
    ensures
        first_separator(s, i) == c.len(),
    decreases c.len() - i,
{
    if i < c.len() {
        assert(s[i] == s.take(c.len() as int)[i]);
        lemma_first_separator_skips(s, c, i + 1);
    }
}

proof fn lemma_line_key_unique(
    paths: Seq<Seq<char>>,
    i: int,
    age: Seq<char>,
    status: Seq<char>,
    title: Seq<char>,
    repo: Option<Seq<char>>,
    tail: Seq<char>,
)
    requires
        0 <= i < paths.len(),
        forall|a: int, b: int| 0 <= a < paths.len() && 0 <= b < paths.len() && a != b
            ==> clean(#[trigger] paths[a]) != clean(#[trigger] paths[b]),
    ensures
        unique_match(paths, selection_key(line_of(paths[i], age, status, title, repo) + tail), i),
{
    let line = line_of(paths[i], age, status, title, repo) + tail;
    let c = clean(paths[i]);
    assert(line.take(c.len() as int) =~= c);
    assert(line[c.len() as int] == '\t');
    lemma_first_separator_skips(line, c, 0);
    assert(selection_key(line) =~= c);
}

/// The preview path of a record: its artifact file name under `dir`.
pub open spec fn preview_path(dir: Seq<char>, p: PullRequest) -> Seq<char> {
    dir + artifact_name(p.repository_name@, p.number as nat)
}

proof fn lemma_no_separator_in_path(dir: Seq<char>, p: PullRequest)
    requires
        forall|k: int| 0 <= k < dir.len() ==> !is_separator(#[trigger] dir[k]),
    ensures
        forall|k: int| 0 <= k < preview_path(dir, p).len() ==> !is_separator(#[trigger] preview_path(dir, p)[k]),
        clean(preview_path(dir, p)) == preview_path(dir, p),
{
    let d = decimal(p.number as nat);
    let e = escape(p.repository_name@);
    lemma_decimal_roundtrip(p.number as nat);
    lemma_escape_has_no_separator(p.repository_name@);
    let f = preview_path(dir, p);
    assert forall|k: int| 0 <= k < f.len() implies !is_separator(#[trigger] f[k]) by {
        if k < dir.len() {
            assert(f[k] == dir[k]);
        } else if k < dir.len() + d.len() {
            assert(f[k] == d[k - dir.len()]);
            assert(0 <= digit_value(d[k - dir.len()]) <= 9);
        } else if k == dir.len() + d.len() {
        } else if k < dir.len() + d.len() + 1 + e.len() {
            assert(f[k] == e[k - dir.len() - d.len() - 1]);
        } else {
        }
    }
    assert(clean(f) =~= f);
}

proof fn lemma_escape_has_no_separator(s: Seq<char>)
    ensures
        forall|k: int| 0 <= k < escape(s).len() ==> !is_separator(#[trigger] escape(s)[k]),
    decreases s.len(),
{
    if s.len() > 0 {
        lemma_escape_has_no_separator(s.drop_first());
        let h = escape_char(s[0]);
        let t = escape(s.drop_first());
        assert(escape(s) == h + t);
        assert forall|k: int| 0 <= k < escape(s).len() implies !is_separator(#[trigger] escape(s)[k]) by {
            if k < h.len() {
                assert(escape(s)[k] == h[k]);
            } else {
                assert(escape(s)[k] == t[k - h.len()]);
            }
        }
    }
}

/// Choosing the line of a record and handing the selector's echo of it back
/// (with anything after it, such as a line break) selects that very record,
/// when each record's preview lives at its artifact name under a directory
/// whose path holds no tab or line break, and no two records share repository
/// and number.
pub proof fn lemma_selection_round_trip(
    dir: Seq<char>,
    prs: Seq<PullRequest>,
    paths: Seq<Seq<char>>,
    i: int,
    now: i64,
    show_repo: bool,
    tail: Seq<char>,
)
    requires
        paths.len() == prs.len(),
        0 <= i < prs.len(),
        forall|k: int| 0 <= k < prs.len() ==> #[trigger] paths[k] == preview_path(dir, prs[k]),
        forall|k: int| 0 <= k < dir.len() ==> !is_separator(#[trigger] dir[k]),
        forall|a: int, b: int| 0 <= a < prs.len() && 0 <= b < prs.len() && a != b
            ==> (#[trigger] prs[a]).repository_name@ != (#[trigger] prs[b]).repository_name@
                || prs[a].number != prs[b].number,
    ensures
        selected_index(paths, record_line(prs[i], paths[i], now, show_repo) + tail) == Some(i),
{
    assert forall|a: int, b: int| 0 <= a < paths.len() && 0 <= b < paths.len() && a != b
        implies clean(#[trigger] paths[a]) != clean(#[trigger] paths[b]) by {
        lemma_no_separator_in_path(dir, prs[a]);
        lemma_no_separator_in_path(dir, prs[b]);
        let na = artifact_name(prs[a].repository_name@, prs[a].number as nat);
        let nb = artifact_name(prs[b].repository_name@, prs[b].number as nat);
        lemma_artifact_names_distinct(
            prs[a].repository_name@, prs[a].number as nat,
            prs[b].repository_name@, prs[b].number as nat,
        );
        if paths[a] == paths[b] {
            assert(na =~= paths[a].subrange(dir.len() as int, paths[a].len() as int));
            assert(nb =~= paths[b].subrange(dir.len() as int, paths[b].len() as int));
        }
    }
    let p = prs[i];
    let age = age_label(now - p.updated_at);
    let repo = if show_repo { Some(p.repository_name@) } else { None };
    lemma_line_key_unique(paths, i, age, status_label_of(p.status), p.title@, repo, tail);
    lemma_unique_match_selects(paths, record_line(p, paths[i], now, show_repo) + tail, i);
}

} // verus!
