use vstd::prelude::*;
use crate::record::RawPullRequest;
use crate::remote::{find, find_from};
use crate::text::{chars_of, string_of};

verus! {

/// One item of the flat search endpoint: the repository is referenced by its
/// API URL, the state is lower case, the draft flag may be left out and a merge
/// shows as a merge time.
#[derive(Clone, Debug)]
pub struct SearchItem {
    pub number: Option<u64>,
    pub title: Option<String>,
    pub html_url: Option<String>,
    pub body: Option<String>,
    pub created_at: Option<String>,
    pub updated_at: Option<String>,
    pub repository_url: Option<String>,
    pub state: Option<String>,
    pub draft: Option<bool>,
    pub merged_at: Option<String>,
}

/// The `owner/name` that follows `/repos/` in a repository API URL.
pub open spec fn repo_from_api_url(u: Seq<char>) -> Option<Seq<char>> {
    match find_from(u, "/repos/"@, 0) {
        Some(i) => Some(u.subrange(i + 7, u.len() as int)),
        None => None,
    }
}

/// The state in the upper-case spelling of the graph endpoint.
pub open spec fn graph_state(s: Seq<char>) -> Seq<char> {
    if s == "open"@ {
        "OPEN"@
    } else if s == "closed"@ {
        "CLOSED"@
    } else {
        s
    }
}

/// The view of an optional string.
pub open spec fn opt_view(o: Option<String>) -> Option<Seq<char>> {
    match o {
        Some(s) => Some(s@),
        None => None,
    }
}

/// `raw` carries what `item` says, in the shape of a graph-endpoint result.
pub open spec fn carries(item: SearchItem, raw: RawPullRequest) -> bool {
    &&& raw.number == item.number
    &&& opt_view(raw.title) == opt_view(item.title)
    &&& opt_view(raw.url) == opt_view(item.html_url)
    &&& opt_view(raw.body) == opt_view(item.body)
    &&& opt_view(raw.created_at) == opt_view(item.created_at)
    &&& opt_view(raw.updated_at) == opt_view(item.updated_at)
    &&& opt_view(raw.repository) == match item.repository_url {
        Some(u) => repo_from_api_url(u@),
        None => None,
    }
    &&& opt_view(raw.state) == match item.state {
        Some(s) => Some(graph_state(s@)),
        None => None,
    }
    &&& raw.is_draft == Some(item.draft.unwrap_or(false))
    &&& raw.merged == Some(item.merged_at is Some)
}

fn repository_of(url: &str) -> (r: Option<String>)
    ensures
        opt_view(r) == repo_from_api_url(url@),
{
    let cs = chars_of(url);
    let pat = chars_of("/repos/");
    proof {
        reveal_strlit("/repos/");
    }
    match find(&cs, &pat) {
        Some(i) => {
            let n = cs.len();
            Some(string_of(&cs, i + 7, n))
        },
        None => None,
    }
}

fn state_of(s: String) -> (r: String)
    ensures
        r@ == graph_state(s@),
{
    if s == "open".to_owned() {
        "OPEN".to_owned()
    } else if s == "closed".to_owned() {
        "CLOSED".to_owned()
    } else {
        s
    }
}

/// Brings an item of the flat search endpoint into the shape that the graph
/// endpoint delivers, so that both go through the same checks.
pub fn raw_from_search_item(item: SearchItem) -> (r: RawPullRequest)
    ensures
        carries(item, r),
{
    let SearchItem {
        number, title, html_url, body, created_at, updated_at, repository_url, state, draft, merged_at,
    } = item;
    let repository = match repository_url {
        Some(u) => repository_of(u.as_str()),
        None => None,
    };
    let state = match state {
        Some(s) => Some(state_of(s)),
        None => None,
    };
    RawPullRequest {
        number,
        title,
        url: html_url,
        body,
        created_at,
        updated_at,
        repository,
        state,
        is_draft: Some(draft.unwrap_or(false)),
        merged: Some(merged_at.is_some()),
    }
}

} // verus!
