//! What the store holds and hands back: reading and fetch-log rows, how a
//! logged value arrived, query limits, and the ordering of merged results.
//! Timestamps are epoch milliseconds.

use vstd::prelude::*;
use crate::num::Num;
use crate::text::{contains, seq_contains, str_eq};

verus! {

broadcast use vstd::seq_lib::group_to_multiset_ensures;

/// A request without a `limit` gets this many history rows.
pub const DEFAULT_HISTORY_LIMIT: i64 = 1000;

/// No history request returns more rows than this.
pub const MAX_HISTORY_LIMIT: i64 = 10_000;

/// No log request returns more rows than this.
pub const MAX_LOGS_LIMIT: i64 = 10_000;

/// One stored reading.
#[derive(Debug, Clone)]
pub struct ReadingRow {
    pub source: String,
    pub value: String,
    /// The value, trimmed, read as a double, when it reads as one.
    pub number: Option<Num>,
    pub unit: Option<String>,
    pub ts_ms: i64,
    pub ts: String,
}

/// How a fetch-log row's value arrived.
#[derive(Debug, Clone, Copy, PartialEq, Eq, Structural)]
pub enum Origin {
    /// Gathered by a scheduled or forced fetch; also what rows stored
    /// before the origin was recorded read back as.
    Poll,
    /// Pushed over HTTP.
    Push,
}

pub open spec fn origin_name(o: Origin) -> Seq<char> {
    match o {
        Origin::Poll => "poll"@,
        Origin::Push => "push"@,
    }
}

impl Origin {
    pub fn as_str(self) -> (r: &'static str)
        ensures
            r@ == origin_name(self),
    {
        match self {
            Origin::Poll => "poll",
            Origin::Push => "push",
        }
    }

    /// Lenient read of a stored origin: only `push` means a push; anything
    /// else reads as a poll.
    pub fn from_db(s: &str) -> (r: Origin)
        ensures
            r == (if s@ == "push"@ {
                Origin::Push
            } else {
                Origin::Poll
            }),
    {
        proof {
            reveal_strlit("push");
        }
        if str_eq(s, "push") {
            Origin::Push
        } else {
            Origin::Poll
        }
    }

    /// `poll`, the origin of rows that predate it.
    pub fn default_origin() -> (r: Origin)
        ensures
            r == Origin::Poll,
    {
        Origin::Poll
    }
}

/// One fetch attempt as logged: a successful attempt carries no error.
#[derive(Debug, Clone)]
pub struct LogRow {
    pub source: String,
    pub ts_ms: i64,
    pub ts: String,
    pub duration_ms: i64,
    pub error: Option<String>,
    pub value: Option<String>,
    /// Filled from configuration where the row is presented.
    pub unit: Option<String>,
    pub origin: Origin,
}

impl LogRow {
    /// A copy of this row.
    pub fn clone_row(&self) -> (r: LogRow)
        ensures
            r == *self,
    {
        LogRow {
            source: self.source.clone(),
            ts_ms: self.ts_ms,
            ts: self.ts.clone(),
            duration_ms: self.duration_ms,
            error: match &self.error {
                Some(e) => Some(e.clone()),
                None => None,
            },
            value: match &self.value {
                Some(v) => Some(v.clone()),
                None => None,
            },
            unit: match &self.unit {
                Some(u) => Some(u.clone()),
                None => None,
            },
            origin: self.origin,
        }
    }
}

/// One recorded health transition.
#[derive(Debug, Clone)]
pub struct HealthEventRow {
    pub source: String,
    pub ts_ms: i64,
    pub ts: String,
    pub status: String,
}

pub open spec fn clamp(v: int, lo: int, hi: int) -> int {
    if v < lo {
        lo
    } else if v > hi {
        hi
    } else {
        v
    }
}

/// The row count a history request is served with: the requested limit,
/// or the default, kept within `1..=MAX_HISTORY_LIMIT`.
pub fn history_limit(limit: Option<i64>) -> (r: i64)
    ensures
        r == clamp(
            match limit {
                Some(l) => l as int,
                None => DEFAULT_HISTORY_LIMIT as int,
            },
            1,
            MAX_HISTORY_LIMIT as int,
        ),
{
    let l = match limit {
        Some(l) => l,
        None => DEFAULT_HISTORY_LIMIT,
    };
    if l < 1 {
        1
    } else if l > MAX_HISTORY_LIMIT {
        MAX_HISTORY_LIMIT
    } else {
        l
    }
}

/// The row count a log request is served with: the requested limit kept
/// within `1..=MAX_LOGS_LIMIT` (a negative limit would otherwise mean no
/// limit at all).
pub fn logs_limit(limit: i64) -> (r: i64)
    ensures
        r == clamp(limit as int, 1, MAX_LOGS_LIMIT as int),
{
    if limit < 1 {
        1
    } else if limit > MAX_LOGS_LIMIT {
        MAX_LOGS_LIMIT
    } else {
        limit
    }
}

/// Whether a store error's full text reports another process holding the
/// database file (or a read racing a write), so opening should be retried.
pub fn is_lock_conflict(message: &str) -> (r: bool)
    ensures
        r == (seq_contains(message@, "Conflicting lock"@) || seq_contains(
            message@,
            "Could not read enough bytes"@,
        )),
{
    contains(message, "Conflicting lock") || contains(message, "Could not read enough bytes")
}

/// What a caught panic carried: a string literal, an owned string, or
/// anything else.
pub enum PanicPayload<'a> {
    Str(&'a str),
    Owned(&'a String),
    Other,
}

/// Best-effort text for a caught panic.
pub fn panic_message<'a>(payload: &PanicPayload<'a>) -> (r: &'a str)
    ensures
        r@ == (match payload {
            PanicPayload::Str(s) => s@,
            PanicPayload::Owned(s) => s@,
            PanicPayload::Other => "<non-string panic payload>"@,
        }),
{
    match payload {
        PanicPayload::Str(s) => s,
        PanicPayload::Owned(s) => s.as_str(),
        PanicPayload::Other => "<non-string panic payload>",
    }
}

/// Rows ordered newest first.
pub open spec fn newest_first(rows: Seq<LogRow>) -> bool {
    forall|i: int, j: int| 0 <= i <= j < rows.len() ==> rows[i].ts_ms >= rows[j].ts_ms
}

/// Rows sharing a timestamp keep the order they arrived in: `pos` maps each
/// output position to the input position it came from.
pub open spec fn stable_for(rows: Seq<LogRow>, out: Seq<LogRow>, pos: Seq<int>) -> bool {
    &&& pos.len() == out.len()
    &&& forall|k: int| 0 <= k < out.len() ==> 0 <= #[trigger] pos[k] < rows.len() && out[k] == rows[pos[k]]
    &&& forall|k: int, m: int|
        0 <= k < m < out.len() ==> #[trigger] pos[k] != #[trigger] pos[m] && (out[k].ts_ms
            == out[m].ts_ms ==> pos[k] < pos[m])
}

/// Orders rows newest first; rows sharing a timestamp keep their order.
pub fn sort_newest_first(rows: Vec<LogRow>) -> (out: Vec<LogRow>)
    ensures
        newest_first(out@),
        out@.to_multiset() == rows@.to_multiset(),
        exists|pos: Seq<int>| stable_for(rows@, out@, pos),
{
    let mut out: Vec<LogRow> = Vec::new();
    let ghost mut pos: Seq<int> = Seq::empty();
    let ghost mut i: int = 0;
    for row in it: rows
        invariant
            it.seq() == rows@,
            i == it.index(),
            out@.len() == i,
            newest_first(out@),
            out@.to_multiset() == rows@.take(i as int).to_multiset(),
            pos.len() == out@.len(),
            forall|k: int| 0 <= k < out@.len() ==> 0 <= #[trigger] pos[k] < i && out@[k] == rows@[pos[k]],
            forall|k: int, m: int|
                0 <= k < m < out@.len() ==> #[trigger] pos[k] != #[trigger] pos[m] && (out@[k].ts_ms
                    == out@[m].ts_ms ==> pos[k] < pos[m]),
    {
        assert(rows@[i] == row);
        // Insert after every row at least as new, so equal timestamps keep
        // arrival order.
        let mut at: usize = 0;
        while at < out.len() && out[at].ts_ms >= row.ts_ms
            invariant
                at <= out@.len(),
                forall|k: int| 0 <= k < at ==> (#[trigger] out@[k]).ts_ms >= row.ts_ms,
            decreases out.len() - at,
        {
            at = at + 1;
        }
        proof {
            assert forall|k: int| at <= k < out@.len() implies (#[trigger] out@[k]).ts_ms < row.ts_ms by {
                assert(out@[at as int].ts_ms < row.ts_ms);
                assert(out@[at as int].ts_ms >= out@[k].ts_ms);
            }
        }
        let ghost before = out@;
        let ghost pbefore = pos;
        out.insert(at, row);
        proof {
            pos = pbefore.insert(at as int, i);
            assert(rows@.take(i + 1) =~= rows@.take(i).push(row));
            assert(out@ =~= before.insert(at as int, row));
            assert forall|k: int, m: int| 0 <= k <= m < out@.len() implies out@[k].ts_ms
                >= out@[m].ts_ms by {
                if k < at && m < at {
                    assert(out@[k] == before[k] && out@[m] == before[m]);
                } else if k < at && m > at {
                    assert(out@[k] == before[k] && out@[m] == before[m - 1]);
                } else if k > at {
                    assert(out@[k] == before[k - 1] && out@[m] == before[m - 1]);
                } else if k == at && m > at {
                    assert(out@[m] == before[m - 1]);
                } else if k < at && m == at {
                    assert(out@[k] == before[k]);
                }
            }
            assert forall|k: int| 0 <= k < out@.len() implies 0 <= #[trigger] pos[k] < i + 1
                && out@[k] == rows@[pos[k]] by {
                if k < at {
                    assert(pos[k] == pbefore[k]);
                } else if k > at {
                    assert(pos[k] == pbefore[k - 1]);
                }
            }
            assert forall|k: int, m: int| 0 <= k < m < out@.len() implies #[trigger] pos[k]
                != #[trigger] pos[m] && (out@[k].ts_ms == out@[m].ts_ms ==> pos[k] < pos[m]) by {
                if k < at && m < at {
                    assert(pos[k] == pbefore[k] && pos[m] == pbefore[m]);
                } else if k < at && m > at {
                    assert(pos[k] == pbefore[k] && pos[m] == pbefore[m - 1]);
                } else if k > at {
                    assert(pos[k] == pbefore[k - 1] && pos[m] == pbefore[m - 1]);
                } else if k == at {
                    assert(pos[m] == pbefore[m - 1]);
                    assert(out@[m] == before[m - 1]);
                } else {
                    assert(pos[k] == pbefore[k]);
                }
            }
        }
        proof {
            i = i + 1;
        }
    }
    proof {
        assert(rows@.take(i as int) =~= rows@);
        assert(stable_for(rows@, out@, pos));
    }
    out
}

/// Keeps the first `n` rows.
pub open spec fn take_upto(rows: Seq<LogRow>, n: int) -> Seq<LogRow> {
    if n < rows.len() {
        rows.take(n)
    } else {
        rows
    }
}

/// Merges per-source log rows into the newest `limit` across all of them
/// (the limit clamped as `logs_limit` does), newest first.
pub fn merge_newest_first(rows: Vec<LogRow>, limit: i64) -> (out: Vec<LogRow>)
    ensures
        exists|sorted: Seq<LogRow>|
            newest_first(sorted) && sorted.to_multiset() == rows@.to_multiset() && out@ == take_upto(
                sorted,
                clamp(limit as int, 1, MAX_LOGS_LIMIT as int),
            ),
{
    let n = logs_limit(limit);
    let mut sorted = sort_newest_first(rows);
    let ghost s = sorted@;
    sorted.truncate(n as usize);
    assert(sorted@ == take_upto(s, n as int));
    sorted
}

} // verus!
