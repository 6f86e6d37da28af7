use vstd::prelude::*;
use crate::text::{decimal, int_text, push_decimal};

verus! {

/// Division that rounds toward zero.
pub open spec fn trunc_div(a: int, b: int) -> int {
    if a >= 0 {
        a / b
    } else {
        -((-a) / b)
    }
}

/// `"<n> <unit>[s] ago"`, singular only for exactly one.
pub open spec fn count_phrase(n: int, unit: Seq<char>) -> Seq<char> {
    int_text(n) + " "@ + unit + (if n == 1 { ""@ } else { "s"@ }) + " ago"@
}

/// The label for an age of `secs` seconds: whole minutes below an hour, whole
/// hours below a day, whole days below a week, whole weeks after that.
pub open spec fn age_label(secs: int) -> Seq<char> {
    let mins = trunc_div(secs, 60);
    let hours = trunc_div(secs, 3600);
    let days = trunc_div(secs, 86400);
    if days < 1 {
        if hours < 1 {
            count_phrase(mins, "minute"@)
        } else {
            count_phrase(hours, "hour"@)
        }
    } else if days < 7 {
        count_phrase(days, "day"@)
    } else {
        count_phrase(days / 7, "week"@)
    }
}

/// Appends `"<n> <unit>[s] ago"` for a count of magnitude `n`, negative when `neg`.
fn push_phrase(out: &mut String, neg: bool, n: u64, unit: &str)
    ensures
        final(out)@ == old(out)@ + count_phrase(if neg { -(n as int) } else { n as int }, unit@),
{
    let ghost v: int = if neg { -(n as int) } else { n as int };
    if neg && n > 0 {
        out.append("-");
    }
    push_decimal(out, n);
    proof {
        if neg && n > 0 {
            assert(int_text(v) =~= "-"@ + decimal(n as nat)) by {
                reveal_strlit("-");
            }
        } else {
            assert(int_text(v) == decimal(n as nat));
        }
    }
    out.append(" ");
    out.append(unit);
    if neg || n != 1 {
        out.append("s");
    }
    proof {
        reveal_strlit("");
    }
    out.append(" ago");
    proof {
        assert(final(out)@ =~= old(out)@ + count_phrase(v, unit@));
    }
}

/// The label for something last touched at `then`, seen at `now` (both in
/// seconds since the epoch).
pub fn relative_time(now: i64, then: i64) -> (r: String)
    ensures
        r@ == age_label(now - then),
{
    let neg = now < then;
    let mag: u64 = if neg {
        (then as i128 - now as i128) as u64
    } else {
        (now as i128 - then as i128) as u64
    };
    let ghost secs: int = now - then;
    let mins = mag / 60;
    let hours = mag / 3600;
    let days = mag / 86400;
    proof {
        assert(trunc_div(secs, 60) == if neg { -(mins as int) } else { mins as int });
        assert(trunc_div(secs, 3600) == if neg { -(hours as int) } else { hours as int });
        assert(trunc_div(secs, 86400) == if neg { -(days as int) } else { days as int });
    }
    let mut out = String::new();
    if neg || days < 1 {
        if neg || hours < 1 {
            push_phrase(&mut out, neg, mins, "minute");
        } else {
            push_phrase(&mut out, neg, hours, "hour");
        }
    } else if days < 7 {
        push_phrase(&mut out, neg, days, "day");
    } else {
        push_phrase(&mut out, neg, days / 7, "week");
    }
    proof {
        assert(out@ =~= age_label(secs));
    }
    out
}

} // verus!
