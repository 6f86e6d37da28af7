use vstd::prelude::*;
use vstd::multiset::Multiset;
use crate::record::{PullRequest, priority_of};

verus! {

broadcast use vstd::seq_lib::group_to_multiset_ensures;

/// `a` is shown before `b`: it was updated later, or at the same instant with
/// a higher-priority status.
pub open spec fn ranks_before(a: PullRequest, b: PullRequest) -> bool {
    a.updated_at > b.updated_at
        || (a.updated_at == b.updated_at && priority_of(a.status) < priority_of(b.status))
}

/// No record of `s` is preceded by one that should follow it.
pub open spec fn is_ranked(s: Seq<PullRequest>) -> bool {
    forall|i: int, j: int| 0 <= i < j < s.len() ==> !ranks_before(#[trigger] s[j], #[trigger] s[i])
}

fn before(a: &PullRequest, b: &PullRequest) -> (r: bool)
    ensures
        r == ranks_before(*a, *b),
{
    a.updated_at > b.updated_at
        || (a.updated_at == b.updated_at && a.status.priority() < b.status.priority())
}

/// Orders records most recently updated first; at equal update times, open and
/// draft before merged before closed. The records themselves are untouched.
pub fn rank(prs: &mut Vec<PullRequest>)
    ensures
        final(prs)@.len() == old(prs)@.len(),
        final(prs)@.to_multiset() == old(prs)@.to_multiset(),
        is_ranked(final(prs)@),
{
    let ghost orig = prs@;
    let mut sorted: Vec<PullRequest> = Vec::new();
    while prs.len() > 0
        invariant
            sorted@.to_multiset().add(prs@.to_multiset()) == orig.to_multiset(),
            is_ranked(sorted@),
        decreases prs@.len(),
    {
        let ghost before_pop = prs@;
        let x = prs.pop().unwrap();
        proof {
            assert(before_pop =~= prs@.push(x));
        }
        let n = sorted.len();
        let mut pos: usize = 0;
        while pos < n && !before(&x, &sorted[pos])
            invariant
                n == sorted@.len(),
                pos <= n,
                forall|k: int| 0 <= k < pos ==> !ranks_before(x, #[trigger] sorted@[k]),
            decreases n - pos,
        {
            pos = pos + 1;
        }
        let ghost old_sorted = sorted@;
        sorted.insert(pos, x);
        proof {
            assert(sorted@.remove(pos as int) =~= old_sorted);
            assert(sorted@.to_multiset() =~= old_sorted.to_multiset().insert(x));
            assert forall|i: int, j: int| 0 <= i < j < sorted@.len() implies
                !ranks_before(#[trigger] sorted@[j], #[trigger] sorted@[i]) by {
                if j < pos {
                } else if j == pos {
                    assert(sorted@[i] == old_sorted[i]);
                } else if i < pos {
                    assert(sorted@[i] == old_sorted[i]);
                    assert(sorted@[j] == old_sorted[j - 1]);
                } else if i == pos {
                    assert(sorted@[j] == old_sorted[j - 1]);
                    if pos < n {
                        assert(ranks_before(x, old_sorted[pos as int]));
                        if pos < j - 1 {
                            assert(!ranks_before(old_sorted[j - 1], old_sorted[pos as int]));
                        }
                    }
                } else {
                    assert(sorted@[i] == old_sorted[i - 1]);
                    assert(sorted@[j] == old_sorted[j - 1]);
                }
            }
        }
    }
    proof {
        assert(prs@.to_multiset() =~= Multiset::empty());
        assert(sorted@.to_multiset() =~= orig.to_multiset());
        assert(sorted@.len() == sorted@.to_multiset().len());
        assert(orig.len() == orig.to_multiset().len());
    }
    *prs = sorted;
}

/// Of two ranked records with different update times, the later one comes first.
pub proof fn lemma_later_update_ranks_first(s: Seq<PullRequest>, i: int, j: int)
    requires
        is_ranked(s),
        0 <= i < s.len(),
        0 <= j < s.len(),
        s[i].updated_at > s[j].updated_at,
    ensures
        i < j,
{
    if j < i {
        assert(!ranks_before(s[i], s[j]));
    }
}

/// At equal update times an open or draft record comes before a merged or
/// closed one, and a merged one before a closed one.
pub proof fn lemma_status_breaks_ties(s: Seq<PullRequest>, i: int, j: int)
    requires
        is_ranked(s),
        0 <= i < s.len(),
        0 <= j < s.len(),
        s[i].updated_at == s[j].updated_at,
        priority_of(s[i].status) < priority_of(s[j].status),
    ensures
        i < j,
{
    if j < i {
        assert(!ranks_before(s[i], s[j]));
    }
    assert(i != j);
}

} // verus!
