use vstd::prelude::*;

verus! {

/// The search string for the pull requests of `author`: within `owner/name`
/// when a repository is in scope, across all repositories otherwise.
pub open spec fn search_text(repo: Option<(Seq<char>, Seq<char>)>, author: Seq<char>) -> Seq<char> {
    match repo {
        Some((o, n)) => "type:pr repo:"@ + o + "/"@ + n + " author:"@ + author,
        None => "type:pr author:"@ + author,
    }
}

/// Builds the search string sent to the remote service.
pub fn search_query(repo: Option<(&str, &str)>, author: &str) -> (r: String)
    ensures
        r@ == search_text(
            match repo {
                Some((o, n)) => Some((o@, n@)),
                None => None,
            },
            author@,
        ),
{
    match repo {
        Some((o, n)) => {
            let mut s = "type:pr repo:".to_owned();
            s.append(o);
            s.append("/");
            s.append(n);
            s.append(" author:");
            s.append(author);
            s
        },
        None => {
            let mut s = "type:pr author:".to_owned();
            s.append(author);
            s
        },
    }
}

} // verus!
