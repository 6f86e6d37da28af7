use vstd::prelude::*;

verus! {

/// Lifecycle state of a pull request, collapsed from the raw state string and
/// the draft / merged flags into one mutually exclusive value.
#[derive(Clone, Copy, Debug, PartialEq, Eq, Structural)]
pub enum PrStatus {
    Open,
    Draft,
    Merged,
    Closed,
}

/// Ranking tier of a status: active work first, then merged, then closed.
pub open spec fn priority_of(s: PrStatus) -> int {
    match s {
        PrStatus::Open => 0,
        PrStatus::Draft => 0,
        PrStatus::Merged => 1,
        PrStatus::Closed => 2,
    }
}

/// The status that a raw state string and the two flags collapse into:
/// merged wins, then an explicit CLOSED state, then the draft flag.
pub open spec fn status_of(state: Seq<char>, is_draft: bool, merged: bool) -> PrStatus {
    if merged {
        PrStatus::Merged
    } else if state == "CLOSED"@ {
        PrStatus::Closed
    } else if is_draft {
        PrStatus::Draft
    } else {
        PrStatus::Open
    }
}

/// The label shown for a status.
pub open spec fn status_label_of(s: PrStatus) -> Seq<char> {
    match s {
        PrStatus::Open => "OPEN"@,
        PrStatus::Draft => "DRAFT"@,
        PrStatus::Merged => "MERGED"@,
        PrStatus::Closed => "CLOSED"@,
    }
}

impl PrStatus {
    /// Collapses a raw state string and the draft / merged flags into one status.
    pub fn from_flags(state: &str, is_draft: bool, merged: bool) -> (r: PrStatus)
        ensures
            r == status_of(state@, is_draft, merged),
    {
        if merged {
            PrStatus::Merged
        } else if state.to_owned() == "CLOSED".to_owned() {
            PrStatus::Closed
        } else if is_draft {
            PrStatus::Draft
        } else {
            PrStatus::Open
        }
    }

    pub fn priority(&self) -> (r: u8)
        ensures
            r as int == priority_of(*self),
    {
        match self {
            PrStatus::Open => 0,
            PrStatus::Draft => 0,
            PrStatus::Merged => 1,
            PrStatus::Closed => 2,
        }
    }

    pub fn label(&self) -> (r: &'static str)
        ensures
            r@ == status_label_of(*self),
    {
        match self {
            PrStatus::Open => "OPEN",
            PrStatus::Draft => "DRAFT",
            PrStatus::Merged => "MERGED",
            PrStatus::Closed => "CLOSED",
        }
    }
}

/// A pull request, whichever query produced it. Timestamps are seconds since
/// the Unix epoch, UTC.
#[derive(Clone, Debug)]
pub struct PullRequest {
    pub number: u64,
    pub title: String,
    pub html_url: String,
    pub body: Option<String>,
    pub created_at: i64,
    pub updated_at: i64,
    pub repository_name: String,
    pub status: PrStatus,
}

/// One search result as the remote service delivered it, before any check:
/// each field is absent when the payload lacked it or had the wrong type.
#[derive(Clone, Debug)]
pub struct RawPullRequest {
    pub number: Option<u64>,
    pub title: Option<String>,
    pub url: Option<String>,
    pub body: Option<String>,
    pub created_at: Option<String>,
    pub updated_at: Option<String>,
    pub repository: Option<String>,
    pub state: Option<String>,
    pub is_draft: Option<bool>,
    pub merged: Option<bool>,
}

/// A field of a search result.
#[derive(Clone, Copy, Debug, PartialEq, Eq, Structural)]
pub enum Field {
    Number,
    Title,
    Url,
    CreatedAt,
    UpdatedAt,
    Repository,
    State,
    IsDraft,
    Merged,
}

/// Why a search result could not become a record.
#[derive(Clone, Copy, Debug, PartialEq, Eq, Structural)]
pub enum RecordError {
    Missing(Field),
    BadTimestamp(Field),
}

/// Seconds since the epoch of an RFC 3339 timestamp, or none where the text is
/// not one.
pub uninterp spec fn rfc3339_seconds(s: Seq<char>) -> Option<i64>;

/// Relies on chrono::DateTime::parse_from_rfc3339 and DateTime::timestamp:
/// the instant that an RFC 3339 text denotes, which depends on the text alone.
#[verifier::external_body]
fn parse_timestamp(s: &str) -> (r: Option<i64>)
    ensures
        r == rfc3339_seconds(s@),
{
    chrono::DateTime::parse_from_rfc3339(s).ok().map(|d| d.timestamp())
}

/// The first check that a search result fails, in field order, if any.
pub open spec fn first_problem(raw: RawPullRequest) -> Option<RecordError> {
    if raw.number is None {
        Some(RecordError::Missing(Field::Number))
    } else if raw.title is None {
        Some(RecordError::Missing(Field::Title))
    } else if raw.url is None {
        Some(RecordError::Missing(Field::Url))
    } else if raw.created_at is None {
        Some(RecordError::Missing(Field::CreatedAt))
    } else if rfc3339_seconds(raw.created_at->0@) is None {
        Some(RecordError::BadTimestamp(Field::CreatedAt))
    } else if raw.updated_at is None {
        Some(RecordError::Missing(Field::UpdatedAt))
    } else if rfc3339_seconds(raw.updated_at->0@) is None {
        Some(RecordError::BadTimestamp(Field::UpdatedAt))
    } else if raw.repository is None {
        Some(RecordError::Missing(Field::Repository))
    } else if raw.state is None {
        Some(RecordError::Missing(Field::State))
    } else if raw.is_draft is None {
        Some(RecordError::Missing(Field::IsDraft))
    } else if raw.merged is None {
        Some(RecordError::Missing(Field::Merged))
    } else {
        None
    }
}

/// `p` is the record that a search result with no problem describes.
pub open spec fn describes(raw: RawPullRequest, p: PullRequest) -> bool {
    &&& p.number == raw.number->0
    &&& p.title@ == raw.title->0@
    &&& p.html_url@ == raw.url->0@
    &&& p.body.is_some() == raw.body.is_some()
    &&& (p.body.is_some() ==> p.body->0@ == raw.body->0@)
    &&& p.created_at == rfc3339_seconds(raw.created_at->0@)->0
    &&& p.updated_at == rfc3339_seconds(raw.updated_at->0@)->0
    &&& p.repository_name@ == raw.repository->0@
    &&& p.status == status_of(raw.state->0@, raw.is_draft->0, raw.merged->0)
}

impl PullRequest {
    /// Checks a search result field by field and builds the record it describes.
    pub fn from_raw(raw: RawPullRequest) -> (r: Result<PullRequest, RecordError>)
        ensures
            r is Err <==> first_problem(raw) is Some,
            r matches Err(e) ==> first_problem(raw) == Some(e),
            r matches Ok(p) ==> describes(raw, p),
    {
        let RawPullRequest {
            number, title, url, body, created_at, updated_at, repository, state, is_draft, merged,
        } = raw;
        let number = match number {
            Some(n) => n,
            None => return Err(RecordError::Missing(Field::Number)),
        };
        let title = match title {
            Some(t) => t,
            None => return Err(RecordError::Missing(Field::Title)),
        };
        let html_url = match url {
            Some(u) => u,
            None => return Err(RecordError::Missing(Field::Url)),
        };
        let created_at = match created_at {
            Some(c) => match parse_timestamp(c.as_str()) {
                Some(t) => t,
                None => return Err(RecordError::BadTimestamp(Field::CreatedAt)),
            },
            None => return Err(RecordError::Missing(Field::CreatedAt)),
        };
        let updated_at = match updated_at {
            Some(u) => match parse_timestamp(u.as_str()) {
                Some(t) => t,
                None => return Err(RecordError::BadTimestamp(Field::UpdatedAt)),
            },
            None => return Err(RecordError::Missing(Field::UpdatedAt)),
        };
        let repository_name = match repository {
            Some(n) => n,
            None => return Err(RecordError::Missing(Field::Repository)),
        };
        let state = match state {
            Some(s) => s,
            None => return Err(RecordError::Missing(Field::State)),
        };
        let is_draft = match is_draft {
            Some(d) => d,
            None => return Err(RecordError::Missing(Field::IsDraft)),
        };
        let merged = match merged {
            Some(m) => m,
            None => return Err(RecordError::Missing(Field::Merged)),
        };
        let status = PrStatus::from_flags(state.as_str(), is_draft, merged);
        Ok(PullRequest {
            number,
            title,
            html_url,
            body,
            created_at,
            updated_at,
            repository_name,
            status,
        })
    }
}

/// Builds the records of a page of search results, in the order given; the
/// first result that fails its checks fails the whole page.
pub fn records_from_raw(raws: Vec<RawPullRequest>) -> (r: Result<Vec<PullRequest>, RecordError>)
    ensures
        r is Ok <==> (forall|i: int| 0 <= i < raws@.len() ==> first_problem(#[trigger] raws@[i]) is None),
        r matches Ok(v) ==> v@.len() == raws@.len()
            && (forall|i: int| 0 <= i < raws@.len() ==> describes(raws@[i], #[trigger] v@[i])),
        r matches Err(e) ==> (exists|i: int| 0 <= i < raws@.len()
            && first_problem(#[trigger] raws@[i]) == Some(e)
            && (forall|k: int| 0 <= k < i ==> first_problem(#[trigger] raws@[k]) is None)),
{
    let ghost all = raws@;
    let mut rest = raws;
    let mut out: Vec<PullRequest> = Vec::new();
    let n = rest.len();
    let mut i: usize = 0;
    while i < n
        invariant
            n == all.len(),
            all == raws@,
            rest@ == all.subrange(i as int, n as int),
            0 <= i <= n,
            out@.len() == i,
            forall|k: int| 0 <= k < i ==> first_problem(#[trigger] all[k]) is None,
            forall|k: int| 0 <= k < i ==> describes(all[k], #[trigger] out@[k]),
        decreases n - i,
    {
        let raw = rest.remove(0);
        assert(raw == all[i as int]);
        match PullRequest::from_raw(raw) {
            Ok(p) => out.push(p),
            Err(e) => {
                assert(first_problem(all[i as int]) == Some(e));
                return Err(e);
            },
        }
        i = i + 1;
        assert(rest@ =~= all.subrange(i as int, n as int));
    }
    Ok(out)
}

} // verus!
