//! Source health: derived from recent fetch attempts and the age of the
//! last success.

use vstd::prelude::*;
use crate::config::Config;
use crate::config::source::{
    SourceCfg, Threshold, find_source, find_source_index, src_cron, src_effective_interval,
    src_thresholds,
};
use crate::db::LogRow;
use crate::text::str_eq;

verus! {

/// Live health of one source.
#[derive(Debug, Clone, Copy, PartialEq, Eq, Structural)]
pub enum Health {
    Healthy,
    Failing,
    Stale,
}

/// The lowercase name a health status is shown and stored as.
pub open spec fn health_name(h: Health) -> Seq<char> {
    match h {
        Health::Healthy => "healthy"@,
        Health::Failing => "failing"@,
        Health::Stale => "stale"@,
    }
}

impl Health {
    pub fn as_str(self) -> (r: &'static str)
        ensures
            r@ == health_name(self),
    {
        match self {
            Health::Healthy => "healthy",
            Health::Failing => "failing",
            Health::Stale => "stale",
        }
    }
}

/// One source's derived health.
#[derive(Debug, Clone)]
pub struct SourceHealth {
    pub source: String,
    pub status: Health,
    pub consecutive_failures: u32,
    pub last_success_ts: Option<String>,
    /// The bands to color with: a live override when one was pushed this
    /// session, else the source's declared bands.
    pub thresholds: Vec<Threshold>,
}

/// Whether a source whose last success is `age` milliseconds old (`None`:
/// never) is stale. A cron source has no fixed period, so it is stale only
/// until its first success; a stream or ingest source is stale after one
/// silent expected interval; any other source (or an unknown one, judged by
/// `fallback` nanoseconds) once it has missed its second expected run.
pub open spec fn spec_is_stale(age: Option<int>, source: Option<SourceCfg>, fallback: u128) -> bool {
    match source {
        Some(s) => if src_cron(s).is_some() {
            age.is_none()
        } else if s is Stream || s is Ingest {
            match age {
                None => true,
                Some(a) => a * 1_000_000 > src_effective_interval(s),
            }
        } else {
            match age {
                None => true,
                Some(a) => a * 1_000_000 > 2 * src_effective_interval(s),
            }
        },
        None => match age {
            None => true,
            Some(a) => a * 1_000_000 > 2 * fallback,
        },
    }
}

/// `age * per_ms > limit`, for an age in milliseconds.
fn older_than(age: i128, per_ms: u128, limit: u128) -> (r: bool)
    requires
        per_ms > 0,
    ensures
        r == (age * per_ms > limit),
{
    if age <= 0 {
        proof {
            assert(age * per_ms <= 0) by (nonlinear_arith)
                requires
                    age <= 0,
                    per_ms > 0,
            ;
        }
        return false;
    }
    let a = age as u128;
    match a.checked_mul(per_ms) {
        Some(p) => p > limit,
        None => true,
    }
}

pub fn is_stale(last_ok_age: Option<i128>, source: Option<&SourceCfg>, fallback_interval: u128) -> (r: bool)
    ensures
        r == spec_is_stale(
            match last_ok_age {
                Some(a) => Some(a as int),
                None => None,
            },
            match source {
                Some(s) => Some(*s),
                None => None,
            },
            fallback_interval,
        ),
{
    match source {
        Some(s) => {
            if s.cron().is_some() {
                return last_ok_age.is_none();
            }
            if s.is_stream() || s.is_ingest() {
                return match last_ok_age {
                    None => true,
                    Some(a) => older_than(a, 1_000_000, s.effective_interval()),
                };
            }
            match last_ok_age {
                None => true,
                Some(a) => older_than(a, 500_000, s.effective_interval()),
            }
        },
        None => match last_ok_age {
            None => true,
            Some(a) => older_than(a, 500_000, fallback_interval),
        },
    }
}

/// How many of `recent` (newest first) failed before the newest success.
pub open spec fn leading_failures(recent: Seq<LogRow>) -> nat
    decreases recent.len(),
{
    if recent.len() == 0 || recent[0].error.is_none() {
        0
    } else {
        1 + leading_failures(recent.drop_first())
    }
}

/// The health of `source` given its newest fetch attempts (`recent`, newest
/// first), its last success, and `now` (epoch milliseconds).
pub open spec fn spec_status(
    cfg: Config,
    source: Seq<char>,
    recent: Seq<LogRow>,
    last_success: Option<LogRow>,
    now: i64,
) -> Health {
    if leading_failures(recent) >= cfg.failure_threshold {
        Health::Failing
    } else if spec_is_stale(
        match last_success {
            Some(l) => Some(now - l.ts_ms),
            None => None,
        },
        find_source(cfg.sources@, source),
        cfg.interval,
    ) {
        Health::Stale
    } else {
        Health::Healthy
    }
}

/// The rows of `rows` that belong to `source`, in their order.
pub open spec fn rows_of(rows: Seq<LogRow>, source: Seq<char>) -> Seq<LogRow> {
    rows.filter(|r: LogRow| r.source@ == source)
}

/// At most the first `n` rows of `s`.
pub open spec fn at_most(s: Seq<LogRow>, n: nat) -> Seq<LogRow> {
    if s.len() <= n {
        s
    } else {
        s.take(n as int)
    }
}

/// The first row of `s` without an error.
pub open spec fn first_success(s: Seq<LogRow>) -> Option<LogRow>
    decreases s.len(),
{
    if s.len() == 0 {
        None
    } else if s[0].error.is_none() {
        Some(s[0])
    } else {
        first_success(s.drop_first())
    }
}

proof fn lemma_rows_of_step(rows: Seq<LogRow>, source: Seq<char>, i: int)
    requires
        0 <= i < rows.len(),
    ensures
        rows_of(rows.subrange(0, i + 1), source) == if rows[i].source@ == source {
            rows_of(rows.subrange(0, i), source).push(rows[i])
        } else {
            rows_of(rows.subrange(0, i), source)
        },
{
    let p = rows.subrange(0, i + 1);
    assert(p.drop_last() =~= rows.subrange(0, i));
    assert(p.last() == rows[i]);
    reveal_with_fuel(Seq::filter, 1);
}

/// One source's newest fetch attempts out of a batch that holds several
/// sources' attempts, newest first: the first `limit` rows of that source,
/// in their order.
pub fn recent_for(rows: &[LogRow], source: &str, limit: usize) -> (r: Vec<LogRow>)
    ensures
        r@ == at_most(rows_of(rows@, source@), limit as nat),
{
    let mut out: Vec<LogRow> = Vec::new();
    let mut i: usize = 0;
    assert(rows@.subrange(0, 0) =~= Seq::<LogRow>::empty());
    assert(rows_of(Seq::<LogRow>::empty(), source@) =~= Seq::<LogRow>::empty());
    while i < rows.len()
        invariant
            i <= rows@.len(),
            out@ == at_most(rows_of(rows@.subrange(0, i as int), source@), limit as nat),
        decreases rows.len() - i,
    {
        proof {
            lemma_rows_of_step(rows@, source@, i as int);
        }
        let ghost before = rows_of(rows@.subrange(0, i as int), source@);
        if str_eq(rows[i].source.as_str(), source) {
            let ghost after = before.push(rows@[i as int]);
            if out.len() < limit {
                out.push(rows[i].clone_row());
                assert(out@ =~= at_most(after, limit as nat));
            } else {
                assert(at_most(after, limit as nat) =~= at_most(before, limit as nat));
            }
        }
        i = i + 1;
    }
    assert(rows@.subrange(0, rows@.len() as int) =~= rows@);
    out
}

proof fn lemma_first_success_step(s: Seq<LogRow>, x: LogRow)
    ensures
        first_success(s.push(x)) == match first_success(s) {
            Some(f) => Some(f),
            None => if x.error.is_none() {
                Some(x)
            } else {
                None
            },
        },
    decreases s.len(),
{
    if s.len() > 0 {
        assert(s.push(x)[0] == s[0]);
        assert(s.push(x).drop_first() =~= s.drop_first().push(x));
        lemma_first_success_step(s.drop_first(), x);
    } else {
        assert(s.push(x)[0] == x);
        assert(s.push(x).drop_first() =~= Seq::<LogRow>::empty());
        assert(first_success(Seq::<LogRow>::empty()) is None);
    }
}

/// One source's last success out of a batch that holds several sources'
/// attempts, newest first: that source's first row without an error.
pub fn last_success_for(rows: &[LogRow], source: &str) -> (r: Option<LogRow>)
    ensures
        r == first_success(rows_of(rows@, source@)),
{
    let mut i: usize = 0;
    assert(rows@.subrange(0, 0) =~= Seq::<LogRow>::empty());
    assert(rows_of(Seq::<LogRow>::empty(), source@) =~= Seq::<LogRow>::empty());
    while i < rows.len()
        invariant
            i <= rows@.len(),
            first_success(rows_of(rows@.subrange(0, i as int), source@)) is None,
        decreases rows.len() - i,
    {
        proof {
            lemma_rows_of_step(rows@, source@, i as int);
        }
        let ghost before = rows_of(rows@.subrange(0, i as int), source@);
        if str_eq(rows[i].source.as_str(), source) {
            proof {
                lemma_first_success_step(before, rows@[i as int]);
            }
            if rows[i].error.is_none() {
                let found = rows[i].clone_row();
                proof {
                    lemma_rows_prefix_first_success(rows@, source@, i as int + 1);
                }
                return Some(found);
            }
        }
        i = i + 1;
    }
    assert(rows@.subrange(0, rows@.len() as int) =~= rows@);
    None
}

/// Once a prefix of the batch holds a success of the source, the whole
/// batch's first success of that source is the prefix's.
proof fn lemma_rows_prefix_first_success(rows: Seq<LogRow>, source: Seq<char>, n: int)
    requires
        0 <= n <= rows.len(),
        first_success(rows_of(rows.subrange(0, n), source)) is Some,
    ensures
        first_success(rows_of(rows, source)) == first_success(rows_of(rows.subrange(0, n), source)),
    decreases rows.len() - n,
{
    if n < rows.len() {
        lemma_rows_of_step(rows, source, n);
        let before = rows_of(rows.subrange(0, n), source);
        lemma_first_success_step(before, rows[n]);
        lemma_rows_prefix_first_success(rows, source, n + 1);
    } else {
        assert(rows.subrange(0, n) =~= rows);
    }
}

fn count_leading_failures(recent: &[LogRow]) -> (r: u32)
    requires
        recent@.len() <= u32::MAX,
    ensures
        r == leading_failures(recent@),
{
    let mut i: usize = 0;
    assert(recent@.skip(0) =~= recent@);
    while i < recent.len() && recent[i].error.is_some()
        invariant
            i <= recent@.len() <= u32::MAX,
            leading_failures(recent@) == i + leading_failures(recent@.skip(i as int)),
            forall|k: int| 0 <= k < i ==> (#[trigger] recent@[k]).error.is_some(),
        decreases recent.len() - i,
    {
        assert(recent@.skip(i as int).drop_first() =~= recent@.skip(i + 1));
        i = i + 1;
    }
    proof {
        if i < recent@.len() {
            assert(recent@.skip(i as int)[0] == recent@[i as int]);
        } else {
            assert(recent@.skip(i as int).len() == 0);
        }
    }
    i as u32
}

fn copy_bands(v: &[Threshold]) -> (r: Vec<Threshold>)
    ensures
        r@ == v@,
{
    let mut out: Vec<Threshold> = Vec::new();
    let mut i: usize = 0;
    while i < v.len()
        invariant
            i <= v@.len(),
            out@ == v@.subrange(0, i as int),
        decreases v.len() - i,
    {
        out.push(v[i]);
        i = i + 1;
    }
    out
}

/// Derives one source's health from already-fetched inputs: its newest
/// fetch attempts (newest first), its last success, the current time
/// (epoch milliseconds) and any live band override.
pub fn assemble(
    cfg: &Config,
    source: &str,
    recent: &[LogRow],
    last_success: Option<&LogRow>,
    now_ms: i64,
    session_bands: Option<Vec<Threshold>>,
) -> (h: SourceHealth)
    requires
        recent@.len() <= u32::MAX,
    ensures
        h.source@ == source@,
        h.consecutive_failures == leading_failures(recent@),
        leading_failures(recent@) >= cfg.failure_threshold ==> h.status == Health::Failing,
        h.status == spec_status(
            *cfg,
            source@,
            recent@,
            match last_success {
                Some(l) => Some(*l),
                None => None,
            },
            now_ms,
        ),
        h.last_success_ts.is_some() == last_success.is_some(),
        last_success matches Some(l) ==> h.last_success_ts->0@ == l.ts@,
        h.thresholds@ == (match session_bands {
            Some(b) => b@,
            None => match find_source(cfg.sources@, source@) {
                Some(s) => src_thresholds(s),
                None => Seq::empty(),
            },
        }),
{
    let failures = count_leading_failures(recent);
    let age: Option<i128> = match last_success {
        Some(l) => Some(now_ms as i128 - l.ts_ms as i128),
        None => None,
    };
    let source_cfg: Option<&SourceCfg> = match find_source_index(&cfg.sources, source) {
        Some(i) => Some(&cfg.sources[i]),
        None => None,
    };
    let status = if failures >= cfg.failure_threshold {
        Health::Failing
    } else if is_stale(age, source_cfg, cfg.interval) {
        Health::Stale
    } else {
        Health::Healthy
    };
    let thresholds = match session_bands {
        Some(b) => b,
        None => match source_cfg {
            Some(s) => copy_bands(s.thresholds()),
            None => Vec::new(),
        },
    };
    SourceHealth {
        source: source.to_owned(),
        status,
        consecutive_failures: failures,
        last_success_ts: match last_success {
            Some(l) => Some(l.ts.clone()),
            None => None,
        },
        thresholds,
    }
}

} // verus!
