use vstd::prelude::*;
use crate::text::{chars_of, string_of};

verus! {

/// Why the repository in scope could not be determined.
#[derive(Clone, Copy, Debug, PartialEq, Eq, Structural)]
pub enum ScopeError {
    /// No local repository encloses the working directory.
    NoRepository,
    /// The local repository has no `origin` remote, or it has no URL.
    NoOrigin,
    /// The remote URL does not point at the hosting service.
    NotHostedUrl,
    /// The remote URL names no `owner/name` pair.
    InvalidPath,
}

/// `p` occurs in `s` starting at index `i`.
pub open spec fn occurs_at(s: Seq<char>, p: Seq<char>, i: int) -> bool {
    0 <= i && i + p.len() <= s.len() && s.subrange(i, i + p.len()) == p
}

/// The first index at or after `start` where `p` occurs in `s`.
pub open spec fn find_from(s: Seq<char>, p: Seq<char>, start: int) -> Option<int>
    decreases s.len() - start,
{
    if start < 0 || p.len() == 0 || start + p.len() > s.len() {
        None
    } else if occurs_at(s, p, start) {
        Some(start)
    } else {
        find_from(s, p, start + 1)
    }
}

/// All the text that follows the occurrence of `p` at `at`.
pub open spec fn text_after(s: Seq<char>, p: Seq<char>, at: int) -> Seq<char> {
    s.subrange(at + p.len(), s.len() as int)
}

/// `s` without its trailing `.git`, if it has one.
pub open spec fn strip_git(s: Seq<char>) -> Seq<char> {
    if s.len() >= 4 && s.subrange(s.len() - 4, s.len() as int) == ".git"@ {
        s.take(s.len() - 4)
    } else {
        s
    }
}

/// The owner and name that a repository path `owner/name[/...]` gives; both
/// must be non-empty.
pub open spec fn owner_and_name(path: Seq<char>) -> Result<(Seq<char>, Seq<char>), ScopeError> {
    let slash = seq!['/'];
    match find_from(path, slash, 0) {
        None => Err(ScopeError::InvalidPath),
        Some(i) => {
            let rest = path.subrange(i + 1, path.len() as int);
            let name = match find_from(rest, slash, 0) {
                Some(j) => rest.take(j),
                None => rest,
            };
            if i == 0 || name.len() == 0 {
                Err(ScopeError::InvalidPath)
            } else {
                Ok((path.take(i), name))
            }
        },
    }
}

/// The repository that a remote URL names: the SSH form `github.com:owner/name`
/// is tried first, then the HTTPS form `github.com/owner/name`; a trailing
/// `.git` is dropped.
pub open spec fn repo_of_url(url: Seq<char>) -> Result<(Seq<char>, Seq<char>), ScopeError> {
    let ssh = "github.com:"@;
    let https = "github.com/"@;
    match find_from(url, ssh, 0) {
        Some(i) => owner_and_name(strip_git(text_after(url, ssh, i))),
        None => match find_from(url, https, 0) {
            Some(i) => owner_and_name(strip_git(text_after(url, https, i))),
            None => Err(ScopeError::NotHostedUrl),
        },
    }
}

/// The characters of `v` from `lo` up to `hi`.
fn slice_chars(v: &Vec<char>, lo: usize, hi: usize) -> (r: Vec<char>)
    requires
        lo <= hi <= v@.len(),
    ensures
        r@ == v@.subrange(lo as int, hi as int),
{
    let mut r: Vec<char> = Vec::new();
    let mut i = lo;
    while i < hi
        invariant
            lo <= i <= hi <= v@.len(),
            r@ == v@.subrange(lo as int, i as int),
        decreases hi - i,
    {
        r.push(v[i]);
        i = i + 1;
        assert(r@ =~= v@.subrange(lo as int, i as int));
    }
    r
}

/// Whether `p` occurs in `s` at index `i`.
fn matches_at(s: &Vec<char>, p: &Vec<char>, i: usize) -> (r: bool)
    requires
        i + p@.len() <= s@.len(),
    ensures
        r == occurs_at(s@, p@, i as int),
{
    let n = s.len();
    let mut j: usize = 0;
    while j < p.len()
        invariant
            n == s@.len(),
            i + p@.len() <= s@.len(),
            0 <= j <= p@.len(),
            forall|k: int| 0 <= k < j ==> s@[i + k] == p@[k],
        decreases p@.len() - j,
    {
        if s[i + j] != p[j] {
            assert(s@.subrange(i as int, i + p@.len())[j as int] != p@[j as int]);
            return false;
        }
        j = j + 1;
    }
    assert(s@.subrange(i as int, i + p@.len()) =~= p@);
    true
}

/// The first index where `p` occurs in `s`.
pub(crate) fn find(s: &Vec<char>, p: &Vec<char>) -> (r: Option<usize>)
    ensures
        match r {
            Some(i) => find_from(s@, p@, 0) == Some(i as int) && occurs_at(s@, p@, i as int),
            None => find_from(s@, p@, 0) is None,
        },
{
    proof {
        lemma_find_occurs(s@, p@, 0);
    }
    if p.len() == 0 {
        return None;
    }
    let n = s.len();
    let mut i: usize = 0;
    while i < n && p.len() <= n - i
        invariant
            n == s@.len(),
            0 < p@.len(),
            i <= n,
            find_from(s@, p@, 0) == find_from(s@, p@, i as int),
        decreases s@.len() - i,
    {
        if matches_at(s, p, i) {
            return Some(i);
        }
        i = i + 1;
    }
    None
}

/// The text that follows the occurrence of `p` at `at`.
fn after(s: &Vec<char>, p: &Vec<char>, at: usize) -> (r: Vec<char>)
    requires
        occurs_at(s@, p@, at as int),
    ensures
        r@ == text_after(s@, p@, at as int),
{
    let n = s.len();
    slice_chars(s, at + p.len(), n)
}

/// Removes a trailing `.git`, if there is one.
fn trim_git(s: Vec<char>) -> (r: Vec<char>)
    ensures
        r@ == strip_git(s@),
{
    let n = s.len();
    if n >= 4 && s[n - 4] == '.' && s[n - 3] == 'g' && s[n - 2] == 'i' && s[n - 1] == 't' {
        proof {
            reveal_strlit(".git");
            assert(s@.subrange(n - 4, n as int) =~= ".git"@);
        }
        let shorter = slice_chars(&s, 0, n - 4);
        assert(shorter@ =~= s@.take(n - 4));
        shorter
    } else {
        proof {
            reveal_strlit(".git");
            if n >= 4 && s@.subrange(n - 4, n as int) == ".git"@ {
                assert(s@.subrange(n - 4, n as int)[0] == '.');
                assert(s@.subrange(n - 4, n as int)[1] == 'g');
                assert(s@.subrange(n - 4, n as int)[2] == 'i');
                assert(s@.subrange(n - 4, n as int)[3] == 't');
            }
        }
        s
    }
}

/// Splits a repository path into owner and name.
fn split_owner_name(path: &Vec<char>) -> (r: Result<(String, String), ScopeError>)
    ensures
        match r {
            Ok((o, n)) => owner_and_name(path@) == Ok::<(Seq<char>, Seq<char>), ScopeError>((o@, n@)),
            Err(e) => owner_and_name(path@) == Err::<(Seq<char>, Seq<char>), ScopeError>(e),
        },
{
    let slash = vec!['/'];
    assert(slash@ =~= seq!['/']);
    match find(path, &slash) {
        None => Err(ScopeError::InvalidPath),
        Some(i) => {
            let n = path.len();
            let rest = slice_chars(path, i + 1, n);
            let owner = string_of(path, 0, i);
            assert(path@.take(i as int) =~= path@.subrange(0, i as int));
            let end = match find(&rest, &slash) {
                Some(j) => j,
                None => rest.len(),
            };
            let name = string_of(&rest, 0, end);
            assert(name@ =~= match find_from(rest@, seq!['/'], 0) {
                Some(j) => rest@.take(j),
                None => rest@,
            });
            if i == 0 || end == 0 {
                Err(ScopeError::InvalidPath)
            } else {
                Ok((owner, name))
            }
        },
    }
}

/// Derives `(owner, name)` from a remote URL in SSH or HTTPS form.
pub fn parse_remote_url(url: &str) -> (r: Result<(String, String), ScopeError>)
    ensures
        match r {
            Ok((o, n)) => repo_of_url(url@) == Ok::<(Seq<char>, Seq<char>), ScopeError>((o@, n@)),
            Err(e) => repo_of_url(url@) == Err::<(Seq<char>, Seq<char>), ScopeError>(e),
        },
{
    let s = chars_of(url);
    let ssh = chars_of("github.com:");
    match find(&s, &ssh) {
        Some(i) => {
            split_owner_name(&trim_git(after(&s, &ssh, i)))
        },
        None => {
            let https = chars_of("github.com/");
            match find(&s, &https) {
                Some(i) => {
                    split_owner_name(&trim_git(after(&s, &https, i)))
                },
                None => Err(ScopeError::NotHostedUrl),
            }
        },
    }
}

proof fn lemma_find_occurs(s: Seq<char>, p: Seq<char>, start: int)
    requires
        0 <= start,
    ensures
        find_from(s, p, start) matches Some(i) ==> occurs_at(s, p, i) && start <= i,
    decreases s.len() - start,
{
    if start < 0 || p.len() == 0 || start + p.len() > s.len() {
    } else if occurs_at(s, p, start) {
    } else {
        lemma_find_occurs(s, p, start + 1);
    }
}

} // verus!
