//! "N ago" text for panel update times.

use vstd::prelude::*;
use crate::text::{cat, decimal, u64_to_string};

verus! {

/// How long before `now` the epoch-millisecond time `ts` was, in one coarse
/// unit rounded down (`s`, `m`, `h` or `d`); under a second is `just now`,
/// a time in the future counts as now, and `ts <= 0` means never updated.
pub open spec fn spec_ago(now: i64, ts: i64) -> Option<Seq<char>> {
    if ts <= 0 {
        None
    } else {
        let age: int = if now - ts > 0 {
            now - ts
        } else {
            0
        };
        if age < 1000 {
            Some("just now"@)
        } else {
            let secs = age / 1000;
            if secs < 60 {
                Some(decimal(secs as nat) + "s ago"@)
            } else if secs < 3600 {
                Some(decimal((secs / 60) as nat) + "m ago"@)
            } else if secs < 86400 {
                Some(decimal((secs / 3600) as nat) + "h ago"@)
            } else {
                Some(decimal((secs / 86400) as nat) + "d ago"@)
            }
        }
    }
}

pub fn ago(now: i64, ts: i64) -> (r: Option<String>)
    ensures
        r.is_some() == spec_ago(now, ts).is_some(),
        r matches Some(t) ==> spec_ago(now, ts) == Some(t@),
{
    if ts <= 0 {
        return None;
    }
    let diff: i128 = now as i128 - ts as i128;
    let age: u64 = if diff > 0 {
        diff as u64
    } else {
        0
    };
    proof {
        reveal_strlit("just now");
        reveal_strlit("s ago");
        reveal_strlit("m ago");
        reveal_strlit("h ago");
        reveal_strlit("d ago");
    }
    if age < 1000 {
        return Some("just now".to_owned());
    }
    let secs = age / 1000;
    let (value, unit) = if secs < 60 {
        (secs, "s ago")
    } else if secs < 3600 {
        (secs / 60, "m ago")
    } else if secs < 86400 {
        (secs / 3600, "h ago")
    } else {
        (secs / 86400, "d ago")
    };
    let mut out = u64_to_string(value);
    cat(&mut out, unit);
    Some(out)
}

} // verus!
