//! What the collector decides: which sources it drives and can force-poll,
//! when each one runs next, and which outcome answers a poll.

use vstd::prelude::*;
use crate::config::Config;
use crate::config::source::{
    find_source, find_source_index, src_is_composite, SourceCfg, children_of, composite_children, src_effective_interval,
    src_effective_retry_interval, src_name, src_parent,
};
use crate::db::LogRow;
use crate::source::{IngestItem, ParsedOutput, SourceKind, build, kind_view, spec_build};
use crate::outside::{cron_next_ms, cron_next_occurrence};
use crate::text::str_eq;

verus! {

/// Why a source cannot be force-polled: an ingest source receives data only
/// by push, a stream source is one continuously running process.
pub open spec fn spec_unpollable_reason(s: SourceCfg) -> Option<Seq<char>> {
    match s {
        SourceCfg::Ingest { .. } => Some("receives data via HTTP push, not by fetching"@),
        SourceCfg::Stream { .. } => Some("is collected continuously, not by fetching"@),
        _ => None,
    }
}

pub fn unpollable_reason(src: &SourceCfg) -> (r: Option<&'static str>)
    ensures
        r.is_some() == spec_unpollable_reason(*src).is_some(),
        r matches Some(t) ==> spec_unpollable_reason(*src) == Some(t@),
{
    if src.is_ingest() {
        Some("receives data via HTTP push, not by fetching")
    } else if src.is_stream() {
        Some("is collected continuously, not by fetching")
    } else {
        None
    }
}

/// Sources the collector runs a task for: every one but ingest sources
/// (pushed to) and composite children (fetched through their root).
pub open spec fn is_collectible(s: SourceCfg) -> bool {
    !(s is Ingest) && !(s is Child)
}

/// Indices of the sources the collector runs a task for, in order.
pub fn collectible(cfg: &Config) -> (r: Vec<usize>)
    ensures
        forall|k: int| 0 <= k < r@.len() ==> (#[trigger] r@[k]) < cfg.sources@.len(),
        forall|k: int, m: int| 0 <= k < m < r@.len() ==> #[trigger] r@[k] < #[trigger] r@[m],
        forall|i: int|
            0 <= i < cfg.sources@.len() ==> (is_collectible(#[trigger] cfg.sources@[i]) <==> r@.contains(
                i as usize,
            )),
{
    let mut out: Vec<usize> = Vec::new();
    let mut i: usize = 0;
    while i < cfg.sources.len()
        invariant
            i <= cfg.sources@.len(),
            forall|k: int| 0 <= k < out@.len() ==> (#[trigger] out@[k]) < i,
            forall|k: int, m: int| 0 <= k < m < out@.len() ==> #[trigger] out@[k] < #[trigger] out@[m],
            forall|j: int|
                0 <= j < i ==> (is_collectible(#[trigger] cfg.sources@[j]) <==> out@.contains(
                    j as usize,
                )),
        decreases cfg.sources.len() - i,
    {
        let s = &cfg.sources[i];
        let ghost before = out@;
        if !s.is_ingest() && !s.is_child() {
            out.push(i);
            proof {
                assert(out@[before.len() as int] == i);
                assert forall|j: int| 0 <= j < i + 1 implies (is_collectible(
                    #[trigger] cfg.sources@[j],
                ) <==> out@.contains(j as usize)) by {
                    if j < i {
                        if before.contains(j as usize) {
                            let k = choose|k: int| 0 <= k < before.len() && before[k] == j as usize;
                            assert(out@[k] == j as usize);
                        }
                        if out@.contains(j as usize) {
                            let k = choose|k: int| 0 <= k < out@.len() && out@[k] == j as usize;
                            if k == before.len() {
                            } else {
                                assert(before[k] == j as usize);
                            }
                        }
                    }
                }
            }
        } else {
            proof {
                assert(!out@.contains(i));
            }
        }
        i = i + 1;
    }
    out
}

/// One fetch attempt's result as reported to whoever asked for it.
#[derive(Debug, Clone)]
pub struct PollOutcome {
    pub source: String,
    pub success: bool,
    /// The stored value, on success.
    pub value: Option<String>,
    /// The stored reading's timestamp, on success.
    pub ts: Option<String>,
    /// Why the attempt failed, on failure.
    pub error: Option<String>,
}

pub open spec fn opt_str_view(o: Option<String>) -> Option<Seq<char>> {
    match o {
        Some(s) => Some(s@),
        None => None,
    }
}

impl PollOutcome {
    /// A stored reading.
    pub fn stored(source: &str, parsed: &ParsedOutput) -> (r: PollOutcome)
        ensures
            r.source@ == source@,
            r.success,
            opt_str_view(r.value) == Some(parsed.value@),
            opt_str_view(r.ts) == Some(parsed.ts@),
            r.error.is_none(),
    {
        PollOutcome {
            source: source.to_owned(),
            success: true,
            value: Some(parsed.value.clone()),
            ts: Some(parsed.ts.clone()),
            error: None,
        }
    }

    /// A failed attempt, and why.
    pub fn failed(source: &str, error: String) -> (r: PollOutcome)
        ensures
            r.source@ == source@,
            !r.success,
            r.value.is_none(),
            r.ts.is_none(),
            opt_str_view(r.error) == Some(error@),
    {
        PollOutcome { source: source.to_owned(), success: false, value: None, ts: None, error: Some(error) }
    }

    /// A composite root whose command ran and whose output parsed: the root
    /// itself stores no reading.
    pub fn composite_root_ok(source: &str) -> (r: PollOutcome)
        ensures
            r.source@ == source@,
            r.success,
            r.value.is_none(),
            r.ts.is_none(),
            r.error.is_none(),
    {
        PollOutcome { source: source.to_owned(), success: true, value: None, ts: None, error: None }
    }
}

/// Where a force-poll for a name is delivered: the collector task of the
/// source named `task`.
#[derive(Debug, Clone)]
pub struct ControlRoute {
    pub name: String,
    pub task: String,
}

/// The routes one collectible source contributes: none for a stream (it
/// has no fetch to ask for), else its own name and every composite child's
/// name, all to its own task.
pub open spec fn routes_of(cfg: Config, s: SourceCfg) -> Seq<(Seq<char>, Seq<char>)> {
    if s is Stream {
        Seq::empty()
    } else {
        seq![(src_name(s), src_name(s))] + children_of(cfg.sources@, src_name(s)).map_values(
            |c: SourceCfg| (src_name(c), src_name(s)),
        )
    }
}

pub open spec fn routes_view(v: Seq<ControlRoute>) -> Seq<(Seq<char>, Seq<char>)> {
    v.map_values(|r: ControlRoute| (r.name@, r.task@))
}

/// The control wiring for the collectible sources `srcs` (in order): the
/// first one whose fetch cannot be built refuses the whole wiring.
pub open spec fn spec_routes(cfg: Config, srcs: Seq<SourceCfg>) -> Result<Seq<(Seq<char>, Seq<char>)>, Seq<char>>
    decreases srcs.len(),
{
    if srcs.len() == 0 {
        Ok(Seq::empty())
    } else {
        match spec_routes(cfg, srcs.drop_last()) {
            Err(e) => Err(e),
            Ok(r) => match spec_build(srcs.last()) {
                Err(e) => Err(e),
                Ok(_) => Ok(r + routes_of(cfg, srcs.last())),
            },
        }
    }
}

/// The collectible sources, in order.
pub open spec fn collectible_sources(srcs: Seq<SourceCfg>) -> Seq<SourceCfg> {
    srcs.filter(|s: SourceCfg| is_collectible(s))
}

/// Which collector task each pollable name is delivered to.
pub fn control_routes(cfg: &Config) -> (r: Result<Vec<ControlRoute>, String>)
    ensures
        match (r, spec_routes(*cfg, collectible_sources(cfg.sources@))) {
            (Ok(v), Ok(w)) => routes_view(v@) == w,
            (Err(e), Err(t)) => e@ == t,
            _ => false,
        },
{
    let mut out: Vec<ControlRoute> = Vec::new();
    let mut i: usize = 0;
    proof {
        reveal(Seq::filter);
        assert(cfg.sources@.take(0) =~= Seq::<SourceCfg>::empty());
        assert(collectible_sources(cfg.sources@.take(0)) =~= Seq::<SourceCfg>::empty());
        assert(routes_view(out@) =~= Seq::<(Seq<char>, Seq<char>)>::empty());
    }
    while i < cfg.sources.len()
        invariant
            i <= cfg.sources@.len(),
            spec_routes(*cfg, collectible_sources(cfg.sources@.take(i as int))) == Ok::<
                Seq<(Seq<char>, Seq<char>)>,
                Seq<char>,
            >(routes_view(out@)),
        decreases cfg.sources.len() - i,
    {
        proof {
            reveal(Seq::filter);
            assert(cfg.sources@.take(i + 1).drop_last() =~= cfg.sources@.take(i as int));
        }
        let s = &cfg.sources[i];
        let ghost pre_col = collectible_sources(cfg.sources@.take(i as int));
        proof {
            assert(pre_col.push(*s).drop_last() =~= pre_col);
            assert(pre_col.push(*s).last() == *s);
        }
        if !s.is_ingest() && !s.is_child() {
            let kind = build(s);
            match kind {
                Err(e) => {
                    proof {
                        assert(collectible_sources(cfg.sources@.take(i + 1)) =~= collectible_sources(
                            cfg.sources@.take(i as int),
                        ).push(*s));
                        lemma_routes_error_sticks(*cfg, cfg.sources@, i as int + 1);
                    }
                    return Err(e);
                },
                Ok(SourceKind::Stream { .. }) => {
                    proof {
                        assert(collectible_sources(cfg.sources@.take(i + 1)) =~= collectible_sources(
                            cfg.sources@.take(i as int),
                        ).push(*s));
                        assert(routes_view(out@) + Seq::<(Seq<char>, Seq<char>)>::empty() =~= routes_view(out@));
                    }
                },
                Ok(_) => {
                    let ghost before = routes_view(out@);
                    out.push(ControlRoute { name: s.name().to_owned(), task: s.name().to_owned() });
                    let kids = composite_children(cfg, s.name());
                    let mut k: usize = 0;
                    while k < kids.len()
                        invariant
                            k <= kids@.len(),
                            crate::config::source::derefs(kids@) == children_of(cfg.sources@, src_name(*s)),
                            routes_view(out@) == before + seq![(src_name(*s), src_name(*s))]
                                + crate::config::source::derefs(kids@).take(k as int).map_values(
                                |c: SourceCfg| (src_name(c), src_name(*s)),
                            ),
                        decreases kids.len() - k,
                    {
                        let ghost pre = routes_view(out@);
                        out.push(ControlRoute { name: kids[k].name().to_owned(), task: s.name().to_owned() });
                        proof {
                            let d = crate::config::source::derefs(kids@);
                            assert(d[k as int] == *kids@[k as int]);
                            assert(d.take(k + 1).map_values(|c: SourceCfg| (src_name(c), src_name(*s)))
                                =~= d.take(k as int).map_values(
                                |c: SourceCfg| (src_name(c), src_name(*s)),
                            ).push((src_name(d[k as int]), src_name(*s))));
                            assert(routes_view(out@) =~= pre.push((src_name(d[k as int]), src_name(*s))));
                        }
                        k = k + 1;
                    }
                    proof {
                        let d = crate::config::source::derefs(kids@);
                        assert(d.take(k as int) =~= d);
                        assert(collectible_sources(cfg.sources@.take(i + 1)) =~= collectible_sources(
                            cfg.sources@.take(i as int),
                        ).push(*s));
                        assert(routes_view(out@) =~= before + routes_of(*cfg, *s));
                    }
                },
            }
        } else {
            proof {
                assert(collectible_sources(cfg.sources@.take(i + 1)) =~= collectible_sources(
                    cfg.sources@.take(i as int),
                ));
            }
        }
        i = i + 1;
    }
    assert(cfg.sources@.take(i as int) =~= cfg.sources@);
    Ok(out)
}

proof fn lemma_routes_error_sticks(cfg: Config, srcs: Seq<SourceCfg>, i: int)
    requires
        0 <= i <= srcs.len(),
        spec_routes(cfg, collectible_sources(srcs.take(i))) is Err,
    ensures
        spec_routes(cfg, collectible_sources(srcs)) == spec_routes(cfg, collectible_sources(srcs.take(i))),
    decreases srcs.len() - i,
{
    if i < srcs.len() {
        reveal(Seq::filter);
        assert(srcs.take(i + 1).drop_last() =~= srcs.take(i));
        if is_collectible(srcs[i]) {
            assert(collectible_sources(srcs.take(i + 1)) =~= collectible_sources(srcs.take(i)).push(srcs[i]));
            assert(collectible_sources(srcs.take(i + 1)).drop_last() =~= collectible_sources(srcs.take(i)));
        } else {
            assert(collectible_sources(srcs.take(i + 1)) =~= collectible_sources(srcs.take(i)));
        }
        lemma_routes_error_sticks(cfg, srcs, i + 1);
    } else {
        assert(srcs.take(i) =~= srcs);
    }
}

/// How long after start an interval-scheduled source first runs, given its
/// last attempt (any outcome) and `now` (epoch milliseconds): at once when
/// it never ran or is overdue, else once the rest of its window passes —
/// `interval` after a success, `retry` after a failure (nanoseconds),
/// saturating at the largest wait.
pub open spec fn spec_first_delay(last: Option<LogRow>, now: i64, interval: u128, retry: u128) -> int {
    match last {
        None => 0,
        Some(l) => {
            let age = (now - l.ts_ms) * 1_000_000;
            let wait: int = if l.error.is_none() {
                interval as int
            } else {
                retry as int
            };
            if age >= wait {
                0
            } else if wait - age > u128::MAX {
                u128::MAX as int
            } else {
                wait - age
            }
        },
    }
}

pub fn first_tick_delay(last: Option<&LogRow>, now_ms: i64, interval: u128, retry: u128) -> (r: u128)
    ensures
        r == spec_first_delay(
            match last {
                Some(l) => Some(*l),
                None => None,
            },
            now_ms,
            interval,
            retry,
        ),
{
    let l = match last {
        None => {
            return 0;
        },
        Some(l) => l,
    };
    let wait: u128 = if l.error.is_none() {
        interval
    } else {
        retry
    };
    let age_ms: i128 = now_ms as i128 - l.ts_ms as i128;
    if age_ms >= 0 {
        let age: u128 = (age_ms as u128) * 1_000_000;
        if age >= wait {
            0
        } else {
            wait - age
        }
    } else {
        let behind: u128 = ((0 - age_ms) as u128) * 1_000_000;
        match wait.checked_add(behind) {
            Some(d) => d,
            None => u128::MAX,
        }
    }
}

/// The next wait after an attempt: `retry` after a failed fetch, the
/// interval otherwise.
pub fn advance_wait(retry: bool, interval: u128, retry_interval: u128) -> (r: u128)
    ensures
        r == (if retry {
            retry_interval
        } else {
            interval
        }),
{
    if retry {
        retry_interval
    } else {
        interval
    }
}

/// One minute, the wait when a cron schedule has no next occurrence.
pub const CRON_FALLBACK_NANOS: u128 = 60_000_000_000;

/// The wait until a cron schedule's next occurrence (epoch milliseconds),
/// in nanoseconds, or a minute when there is none or it is already past.
pub open spec fn spec_cron_delay(next_ms: Option<int>, now_ms: int) -> int {
    match next_ms {
        Some(n) => if n >= now_ms {
            (n - now_ms) * 1_000_000
        } else {
            CRON_FALLBACK_NANOS as int
        },
        None => CRON_FALLBACK_NANOS as int,
    }
}

pub fn cron_delay(next_ms: Option<i64>, now_ms: i64) -> (r: u128)
    ensures
        r == spec_cron_delay(
            match next_ms {
                Some(n) => Some(n as int),
                None => None,
            },
            now_ms as int,
        ),
{
    match next_ms {
        Some(n) => if n >= now_ms {
            ((n as i128 - now_ms as i128) as u128) * 1_000_000
        } else {
            CRON_FALLBACK_NANOS
        },
        None => CRON_FALLBACK_NANOS,
    }
}

/// How long a cron-scheduled source waits at `now_ms` (epoch
/// milliseconds): until the expression's next occurrence after that
/// instant, or a minute when it has none.
pub fn next_cron_delay(expr: &str, now_ms: i64) -> (r: u128)
    ensures
        r == spec_cron_delay(cron_next_ms(expr@, now_ms as int), now_ms as int),
{
    cron_delay(cron_next_occurrence(expr, now_ms), now_ms)
}

/// The outcome a poll of `requested` gets from one run of a composite
/// family rooted at `root`: the root's own outcome when it was asked for,
/// else the first child outcome under that name, else a failure.
pub open spec fn spec_pick(requested: Seq<char>, root: Seq<char>, root_ok: PollOutcome, children: Seq<PollOutcome>) -> Option<PollOutcome> {
    if requested == root {
        Some(root_ok)
    } else if exists|i: int| 0 <= i < children.len() && (#[trigger] children[i]).source@ == requested {
        Some(children[choose|i: int| 0 <= i < children.len() && (#[trigger] children[i]).source@ == requested && forall|j: int| 0 <= j < i ==> children[j].source@ != requested])
    } else {
        None
    }
}

pub fn pick_outcome(requested: &str, root: &str, root_ok: PollOutcome, children: Vec<PollOutcome>) -> (r: PollOutcome)
    ensures
        match spec_pick(requested@, root@, root_ok, children@) {
            Some(o) => r == o,
            None => r.source@ == requested@ && !r.success && r.value.is_none() && r.ts.is_none()
                && opt_str_view(r.error) == Some("not a declared child of this composite"@),
        },
{
    if str_eq(requested, root) {
        return root_ok;
    }
    let mut i: usize = 0;
    while i < children.len()
        invariant
            i <= children@.len(),
            requested@ != root@,
            forall|j: int| 0 <= j < i ==> children@[j].source@ != requested@,
        decreases children.len() - i,
    {
        if str_eq(children[i].source.as_str(), requested) {
            proof {
                let c = choose|k: int| 0 <= k < children@.len() && (#[trigger] children@[k]).source@ == requested@ && forall|j: int| 0 <= j < k ==> children@[j].source@ != requested@;
                assert(children@[i as int].source@ == requested@);
                if c < i {
                    assert(children@[c].source@ != requested@);
                }
                if i < c {
                    assert(children@[i as int].source@ != requested@);
                }
            }
            return children[i].clone_outcome();
        }
        i = i + 1;
    }
    proof {
        reveal_strlit("not a declared child of this composite");
    }
    PollOutcome::failed(requested, "not a declared child of this composite".to_owned())
}

/// How a forced poll of one source runs when no collector task holds it: a
/// composite child through its root (found at that index, or missing), a
/// composite root by its own fan-out, anything else by its own fetch.
#[derive(Debug, Clone)]
pub enum PollPlan {
    ThroughRoot(usize),
    MissingRoot(String),
    Composite,
    Own,
}

pub fn poll_plan(cfg: &Config, src: &SourceCfg) -> (r: PollPlan)
    ensures
        match src_parent(*src) {
            Some(p) => match find_source(cfg.sources@, p) {
                Some(root) => r matches PollPlan::ThroughRoot(i) && i < cfg.sources@.len()
                    && cfg.sources@[i as int] == root,
                None => r matches PollPlan::MissingRoot(m) && m@ == "composite root `"@ + p
                    + "` not found"@,
            },
            None => if src_is_composite(*src) {
                r is Composite
            } else {
                r is Own
            },
        },
{
    proof {
        reveal_strlit("composite root `");
        reveal_strlit("` not found");
    }
    match src.parent() {
        Some(p) => match find_source_index(&cfg.sources, p) {
            Some(i) => PollPlan::ThroughRoot(i),
            None => {
                let mut m = "composite root `".to_owned();
                crate::text::cat(&mut m, p);
                crate::text::cat(&mut m, "` not found");
                PollPlan::MissingRoot(m)
            },
        },
        None => if src.is_composite() {
            PollPlan::Composite
        } else {
            PollPlan::Own
        },
    }
}

/// The first outcome among `children` for the source named `name`.
pub open spec fn first_named(children: Seq<PollOutcome>, name: Seq<char>) -> Option<PollOutcome> {
    if exists|i: int| 0 <= i < children.len() && (#[trigger] children[i]).source@ == name {
        Some(children[choose|i: int| 0 <= i < children.len() && (#[trigger] children[i]).source@ == name && forall|j: int| 0 <= j < i ==> children[j].source@ != name])
    } else {
        None
    }
}

/// A child's own outcome from its root's fan-out, or a failure when the
/// fan-out holds none for it.
pub fn child_outcome(requested: &str, children: Vec<PollOutcome>) -> (r: PollOutcome)
    ensures
        match first_named(children@, requested@) {
            Some(o) => r == o,
            None => r.source@ == requested@ && !r.success && r.value.is_none() && r.ts.is_none()
                && opt_str_view(r.error) == Some("child missing from composite result"@),
        },
{
    let mut i: usize = 0;
    while i < children.len()
        invariant
            i <= children@.len(),
            forall|j: int| 0 <= j < i ==> children@[j].source@ != requested@,
        decreases children.len() - i,
    {
        if str_eq(children[i].source.as_str(), requested) {
            proof {
                let c = choose|k: int| 0 <= k < children@.len() && (#[trigger] children@[k]).source@ == requested@ && forall|j: int| 0 <= j < k ==> children@[j].source@ != requested@;
                assert(children@[i as int].source@ == requested@);
                if c < i {
                    assert(children@[c].source@ != requested@);
                }
                if i < c {
                    assert(children@[i as int].source@ != requested@);
                }
            }
            return children[i].clone_outcome();
        }
        i = i + 1;
    }
    proof {
        reveal_strlit("child missing from composite result");
    }
    PollOutcome::failed(requested, "child missing from composite result".to_owned())
}

impl PollOutcome {
    /// A copy of this outcome.
    pub fn clone_outcome(&self) -> (r: PollOutcome)
        ensures
            r == *self,
    {
        PollOutcome {
            source: self.source.clone(),
            success: self.success,
            value: match &self.value {
                Some(v) => Some(v.clone()),
                None => None,
            },
            ts: match &self.ts {
                Some(v) => Some(v.clone()),
                None => None,
            },
            error: match &self.error {
                Some(v) => Some(v.clone()),
                None => None,
            },
        }
    }
}

/// What happened next while a stream source runs: its process could not be
/// started, it printed a line, its output ended, reading it failed, a
/// shutdown was asked for, or it exited (successfully or with a status) or
/// could not be waited for.
#[derive(Debug, Clone)]
pub enum StreamEvent {
    SpawnFailed(String),
    Line(String),
    OutputEnded,
    ReadFailed(String),
    ShutdownRequested,
    Exited { success: bool, status: String },
    WaitFailed(String),
}

/// What the stream run does about it: ingest the line, wait for the
/// process to exit, log a failure and then wait for the exit, end the run
/// by logging its outcome (`None`: a success), or stop the process at once
/// without logging anything.
#[derive(Debug, Clone)]
pub enum StreamAction {
    Ingest(String),
    AwaitExit,
    FailThenAwaitExit(String),
    Finish(Option<String>),
    Stop,
}

/// Whether `a` answers `event`: each line becomes a reading, the end of the
/// output waits for the exit, a read error is logged before waiting for the
/// exit, a spawn or wait error or a failed exit ends the run with that
/// failure, a clean exit ends it with a success, and a shutdown stops the
/// process without logging.
pub open spec fn stream_step_is(event: StreamEvent, a: StreamAction) -> bool {
    match event {
        StreamEvent::SpawnFailed(e) => a matches StreamAction::Finish(Some(m)) && m@ == "stream spawn: "@ + e@,
        StreamEvent::Line(t) => a matches StreamAction::Ingest(l) && l@ == t@,
        StreamEvent::OutputEnded => a is AwaitExit,
        StreamEvent::ReadFailed(e) => a matches StreamAction::FailThenAwaitExit(m) && m@ == "stream read: "@ + e@,
        StreamEvent::ShutdownRequested => a is Stop,
        StreamEvent::Exited { success, status } => if success {
            a matches StreamAction::Finish(m) && m.is_none()
        } else {
            a matches StreamAction::Finish(Some(m)) && m@ == "stream exited: "@ + status@
        },
        StreamEvent::WaitFailed(e) => a matches StreamAction::Finish(Some(m)) && m@ == "stream wait: "@ + e@,
    }
}

fn prefixed(prefix: &str, rest: &str) -> (r: String)
    ensures
        r@ == prefix@ + rest@,
{
    let mut m = prefix.to_owned();
    crate::text::cat(&mut m, rest);
    m
}

/// The stream run's decision for one event.
pub fn stream_step(event: StreamEvent) -> (r: StreamAction)
    ensures
        stream_step_is(event, r),
{
    match event {
        StreamEvent::SpawnFailed(e) => StreamAction::Finish(Some(prefixed("stream spawn: ", e.as_str()))),
        StreamEvent::Line(t) => StreamAction::Ingest(t),
        StreamEvent::OutputEnded => StreamAction::AwaitExit,
        StreamEvent::ReadFailed(e) => StreamAction::FailThenAwaitExit(prefixed("stream read: ", e.as_str())),
        StreamEvent::ShutdownRequested => StreamAction::Stop,
        StreamEvent::Exited { success, status } => if success {
            StreamAction::Finish(None)
        } else {
            StreamAction::Finish(Some(prefixed("stream exited: ", status.as_str())))
        },
        StreamEvent::WaitFailed(e) => StreamAction::Finish(Some(prefixed("stream wait: ", e.as_str()))),
    }
}

/// How one run of a composite root's command went: it failed (and why),
/// it timed out (after the given, already formatted, duration), or it
/// printed output, read as a list of pushed items or refused (and why).
pub enum CompositeRun {
    CommandFailed(String),
    TimedOut(String),
    Output(Result<Vec<IngestItem>, String>),
}

/// A composite run that stores nothing: why the root failed, and what each
/// declared child is told.
#[derive(Debug, Clone)]
pub struct CompositeFailure {
    pub root: String,
    pub children: String,
}

pub open spec fn names_contain(names: Seq<String>, n: Seq<char>) -> bool {
    exists|i: int| 0 <= i < names.len() && (#[trigger] names[i])@ == n
}

/// Whether `k` is the first item naming no declared child.
pub open spec fn first_stranger(items: Seq<IngestItem>, names: Seq<String>, k: int) -> bool {
    &&& 0 <= k < items.len()
    &&& !names_contain(names, items[k].source@)
    &&& forall|j: int| 0 <= j < k ==> names_contain(names, (#[trigger] items[j]).source@)
}

/// Whether `found` is where `name`'s item is: the first item naming it, or
/// `None` when no item does.
pub open spec fn item_found(items: Seq<IngestItem>, name: Seq<char>, found: Option<usize>) -> bool {
    match found {
        Some(i) => i < items.len() && items[i as int].source@ == name && forall|j: int|
            0 <= j < i ==> (#[trigger] items[j]).source@ != name,
        None => forall|j: int| 0 <= j < items.len() ==> (#[trigger] items[j]).source@ != name,
    }
}

/// Whether `r` is the fan-out of a composite run over its declared
/// children: a failed or timed-out command, unreadable output, or an item
/// naming an unknown child fails the root and tells every child why;
/// otherwise each child is told where its item is (or that it has none).
pub open spec fn fanout_is(
    children: Seq<String>,
    run: CompositeRun,
    r: Result<Vec<Option<usize>>, CompositeFailure>,
) -> bool {
    match run {
        CompositeRun::CommandFailed(e) => r matches Err(f) && f.root@ == e@ && f.children@
            == "composite command failed"@,
        CompositeRun::TimedOut(d) => r matches Err(f) && f.root@ == "timed out after "@ + d@
            && f.children@ == "composite command timed out"@,
        CompositeRun::Output(Err(e)) => r matches Err(f) && f.root@
            == "composite output is not a JSON array of ingest items: "@ + e@ && f.children@
            == "composite output was malformed"@,
        CompositeRun::Output(Ok(items)) => if exists|k: int| first_stranger(items@, children, k) {
            r matches Err(f) && exists|k: int|
                first_stranger(items@, children, k) && f.root@ == "composite output names unknown child `"@
                    + items@[k].source@ + "`"@ && f.children@ == "a sibling entry failed validation"@
        } else {
            r matches Ok(v) && v@.len() == children.len() && forall|c: int|
                0 <= c < children.len() ==> item_found(items@, children[c]@, #[trigger] v@[c])
        },
    }
}

fn joined(a: &str, b: &str, c: &str) -> (r: String)
    ensures
        r@ == a@ + b@ + c@,
{
    let mut m = a.to_owned();
    crate::text::cat(&mut m, b);
    crate::text::cat(&mut m, c);
    m
}

fn is_declared(children: &[String], n: &str) -> (r: bool)
    ensures
        r == names_contain(children@, n@),
{
    let mut i: usize = 0;
    while i < children.len()
        invariant
            i <= children@.len(),
            forall|j: int| 0 <= j < i ==> (#[trigger] children@[j])@ != n@,
        decreases children.len() - i,
    {
        if str_eq(children[i].as_str(), n) {
            return true;
        }
        i = i + 1;
    }
    false
}

fn find_item(items: &Vec<IngestItem>, name: &str) -> (r: Option<usize>)
    ensures
        item_found(items@, name@, r),
{
    let mut i: usize = 0;
    while i < items.len()
        invariant
            i <= items@.len(),
            forall|j: int| 0 <= j < i ==> (#[trigger] items@[j]).source@ != name@,
        decreases items.len() - i,
    {
        if str_eq(items[i].source.as_str(), name) {
            return Some(i);
        }
        i = i + 1;
    }
    None
}

/// What one run of a composite root means for it and its declared
/// children (full names, in order).
pub fn composite_fanout(children: &[String], run: &CompositeRun) -> (r: Result<
    Vec<Option<usize>>,
    CompositeFailure,
>)
    ensures
        fanout_is(children@, *run, r),
{
    proof {
        reveal_strlit("composite command failed");
        reveal_strlit("timed out after ");
        reveal_strlit("composite command timed out");
        reveal_strlit("composite output is not a JSON array of ingest items: ");
        reveal_strlit("composite output was malformed");
        reveal_strlit("composite output names unknown child `");
        reveal_strlit("`");
        reveal_strlit("a sibling entry failed validation");
    }
    match run {
        CompositeRun::CommandFailed(e) => Err(
            CompositeFailure {
                root: e.as_str().to_owned(),
                children: "composite command failed".to_owned(),
            },
        ),
        CompositeRun::TimedOut(d) => Err(
            CompositeFailure {
                root: prefixed("timed out after ", d.as_str()),
                children: "composite command timed out".to_owned(),
            },
        ),
        CompositeRun::Output(Err(e)) => Err(
            CompositeFailure {
                root: prefixed("composite output is not a JSON array of ingest items: ", e.as_str()),
                children: "composite output was malformed".to_owned(),
            },
        ),
        CompositeRun::Output(Ok(items)) => {
            let mut k: usize = 0;
            while k < items.len()
                invariant
                    *run == CompositeRun::Output(Ok::<Vec<IngestItem>, String>(*items)),
                    k <= items@.len(),
                    forall|j: int| 0 <= j < k ==> names_contain(children@, (#[trigger] items@[j]).source@),
                decreases items.len() - k,
            {
                if !is_declared(children, items[k].source.as_str()) {
                    let f = CompositeFailure {
                        root: joined(
                            "composite output names unknown child `",
                            items[k].source.as_str(),
                            "`",
                        ),
                        children: "a sibling entry failed validation".to_owned(),
                    };
                    assert(first_stranger(items@, children@, k as int) && f.root@
                        == "composite output names unknown child `"@ + items@[k as int].source@ + "`"@);
                    return Err(f);
                }
                k = k + 1;
            }
            assert(!exists|k: int| first_stranger(items@, children@, k));
            let mut out: Vec<Option<usize>> = Vec::new();
            let mut c: usize = 0;
            while c < children.len()
                invariant
                    *run == CompositeRun::Output(Ok::<Vec<IngestItem>, String>(*items)),
                    !exists|k: int| first_stranger(items@, children@, k),
                    c <= children@.len(),
                    out@.len() == c,
                    forall|m: int| 0 <= m < c ==> item_found(items@, children@[m]@, #[trigger] out@[m]),
                decreases children.len() - c,
            {
                out.push(find_item(items, children[c].as_str()));
                c = c + 1;
            }
            Ok(out)
        },
    }
}

} // verus!
