//! What the HTTP API decides before touching storage: reading the logs
//! query string, and whether a poll or theme request can be served.

use vstd::prelude::*;
use crate::config::Config;
use crate::config::source::{find_source, find_source_index, src_effective_value_type, src_name};
use crate::num::Num;
use crate::source::{IngestItem, ParsedOutput, resolve_ingest_item, spec_ingest_item};
use crate::int_parse::{IntErrorKind, int_error_text, parse_i64, spec_parse_i64};
use crate::outside::{decode_query_pairs, pairs_view, urlencoded_pairs};
use crate::text::{cat, str_eq};

verus! {

/// `GET /api/logs`'s query: an optional row limit and any number of
/// source names.
#[derive(Debug, Clone)]
pub struct LogsQuery {
    pub limit: Option<i64>,
    pub source: Vec<String>,
}

/// Reading pairs from index `i` on, after `limit` and `sources`: a `limit`
/// replaces the limit (the last one wins), each `source` is appended, any
/// other key is ignored; a `limit` that is not an `i64` is refused.
pub open spec fn logs_query_from(
    pairs: Seq<(Seq<char>, Seq<char>)>,
    i: int,
    limit: Option<int>,
    sources: Seq<Seq<char>>,
) -> Result<(Option<int>, Seq<Seq<char>>), Seq<char>>
    decreases pairs.len() - i,
{
    if i < 0 || i >= pairs.len() {
        Ok((limit, sources))
    } else {
        let (k, v) = pairs[i];
        if k == "limit"@ {
            match spec_parse_i64(v) {
                Ok(n) => logs_query_from(pairs, i + 1, Some(n), sources),
                Err(e) => Err("invalid `limit` `"@ + v + "`: "@ + int_error_text(e)),
            }
        } else if k == "source"@ {
            logs_query_from(pairs, i + 1, limit, sources.push(v))
        } else {
            logs_query_from(pairs, i + 1, limit, sources)
        }
    }
}

/// The whole query string read as `LogsQuery`.
pub open spec fn spec_logs_query(query: Seq<char>) -> Result<(Option<int>, Seq<Seq<char>>), Seq<char>> {
    match urlencoded_pairs(query) {
        Err(e) => Err("invalid query: "@ + e),
        Ok(pairs) => logs_query_from(pairs, 0, None, Seq::empty()),
    }
}

pub open spec fn strings_view(v: Seq<String>) -> Seq<Seq<char>> {
    v.map_values(|s: String| s@)
}

impl LogsQuery {
    pub fn parse(query: &str) -> (r: Result<LogsQuery, String>)
        ensures
            match (r, spec_logs_query(query@)) {
                (Ok(q), Ok((l, s))) => (match q.limit {
                    Some(n) => l == Some(n as int),
                    None => l.is_none(),
                }) && strings_view(q.source@) == s,
                (Err(e), Err(t)) => e@ == t,
                _ => false,
            },
    {
        proof {
            reveal_strlit("limit");
            reveal_strlit("source");
            reveal_strlit("invalid query: ");
            reveal_strlit("invalid `limit` `");
            reveal_strlit("`: ");
        }
        let pairs = match decode_query_pairs(query) {
            Ok(p) => p,
            Err(e) => {
                let mut m = "invalid query: ".to_owned();
                cat(&mut m, e.as_str());
                return Err(m);
            },
        };
        let ghost pv = pairs_view(pairs@);
        assert(strings_view(Seq::<String>::empty()) =~= Seq::<Seq<char>>::empty());
        let mut limit: Option<i64> = None;
        let mut source: Vec<String> = Vec::new();
        let mut i: usize = 0;
        while i < pairs.len()
            invariant
                i <= pairs@.len(),
                pv == pairs_view(pairs@),
                spec_logs_query(query@) == logs_query_from(pv, 0, None, Seq::empty()),
                logs_query_from(
                    pv,
                    i as int,
                    match limit {
                        Some(n) => Some(n as int),
                        None => None,
                    },
                    strings_view(source@),
                ) == logs_query_from(pv, 0, None, Seq::empty()),
            decreases pairs.len() - i,
        {
            let key = pairs[i].0.as_str();
            let value = pairs[i].1.as_str();
            assert(pv[i as int] == (key@, value@));
            if str_eq(key, "limit") {
                match parse_i64(value) {
                    Ok(n) => {
                        limit = Some(n);
                    },
                    Err(k) => {
                        assert(logs_query_from(
                            pv,
                            i as int,
                            match limit {
                                Some(n) => Some(n as int),
                                None => None,
                            },
                            strings_view(source@),
                        ) == Err::<(Option<int>, Seq<Seq<char>>), Seq<char>>(
                            "invalid `limit` `"@ + value@ + "`: "@ + int_error_text(k),
                        ));
                        let mut m = "invalid `limit` `".to_owned();
                        cat(&mut m, value);
                        cat(&mut m, "`: ");
                        cat(&mut m, k.message());
                        return Err(m);
                    },
                }
            } else if str_eq(key, "source") {
                let ghost before = source@;
                source.push(value.to_owned());
                assert(strings_view(source@) =~= strings_view(before).push(value@));
            }
            i = i + 1;
        }
        Ok(LogsQuery { limit, source })
    }
}

/// How a force-poll request for a source name is answered before any
/// collector is asked.
#[derive(Debug, Clone)]
pub enum PollCheck {
    /// No such source (404).
    Unknown(String),
    /// The source has nothing to fetch (400).
    Unpollable(String),
    /// Ask the collector of the source at this index.
    Pollable(usize),
}

pub fn check_poll_request(cfg: &Config, source: &str) -> (r: PollCheck)
    ensures
        find_source(cfg.sources@, source@).is_none() <==> r is Unknown,
        r matches PollCheck::Unknown(m) ==> m@ == "unknown source `"@ + source@ + "`"@,
        r matches PollCheck::Unpollable(m) ==> ({
            let s = find_source(cfg.sources@, source@)->0;
            crate::collector::spec_unpollable_reason(s) matches Some(why) && m@ == "source `"@
                + source@ + "` "@ + why
        }),
        r matches PollCheck::Pollable(i) ==> i < cfg.sources@.len() && find_source(
            cfg.sources@,
            source@,
        ) == Some(cfg.sources@[i as int]) && crate::collector::spec_unpollable_reason(
            cfg.sources@[i as int],
        ).is_none(),
{
    proof {
        reveal_strlit("unknown source `");
        reveal_strlit("`");
        reveal_strlit("source `");
        reveal_strlit("` ");
    }
    match find_source_index(&cfg.sources, source) {
        None => {
            let mut m = "unknown source `".to_owned();
            cat(&mut m, source);
            cat(&mut m, "`");
            PollCheck::Unknown(m)
        },
        Some(i) => match crate::collector::unpollable_reason(&cfg.sources[i]) {
            Some(why) => {
                let mut m = "source `".to_owned();
                cat(&mut m, source);
                cat(&mut m, "` ");
                cat(&mut m, why);
                PollCheck::Unpollable(m)
            },
            None => PollCheck::Pollable(i),
        },
    }
}

/// Whether a theme chosen in the browser can be stored: only `dark` and
/// `light` are themes.
pub fn theme_ok(theme: &str) -> (r: bool)
    ensures
        r == (theme@ == "dark"@ || theme@ == "light"@),
{
    str_eq(theme, "dark") || str_eq(theme, "light")
}

/// The cookie that keeps the browser's explicit light/dark choice.
pub const THEME_COOKIE: &'static str = "bd_theme";

/// The class a page's root element gets from the theme cookie's value:
/// `dark` or `light` when that is the stored choice, else empty (the
/// browser's own preference decides).
pub fn theme_class(cookie: Option<&str>) -> (r: &'static str)
    ensures
        r@ == (match cookie {
            Some(c) => if c@ == "dark"@ {
                "dark"@
            } else if c@ == "light"@ {
                "light"@
            } else {
                Seq::<char>::empty()
            },
            None => Seq::<char>::empty(),
        }),
{
    proof {
        reveal_strlit("dark");
        reveal_strlit("light");
        reveal_strlit("");
    }
    match cookie {
        Some(c) => if str_eq(c, "dark") {
            "dark"
        } else if str_eq(c, "light") {
            "light"
        } else {
            ""
        },
        None => "",
    }
}

/// How a pushed item is answered: no such source (404), refused with the
/// reason (400), or accepted as a reading for the source at this index.
#[derive(Debug)]
pub enum IngestCheck {
    Unknown(String),
    Refused(String),
    Accepted(usize, ParsedOutput),
}

/// Checks a pushed item against the configuration (`arrival`: when it
/// arrived; `number`: its value, trimmed, read as a double): the source must
/// be declared, and the item must pass the checks for that source's value
/// type.
pub fn check_ingest(cfg: &Config, item: &IngestItem, arrival: (i64, String), number: Option<Num>) -> (r: IngestCheck)
    ensures
        find_source(cfg.sources@, item.source@).is_none() <==> r is Unknown,
        r matches IngestCheck::Unknown(m) ==> m@ == "unknown source `"@ + item.source@ + "`"@,
        find_source(cfg.sources@, item.source@) matches Some(s) ==> match (
            r,
            spec_ingest_item(
                *item,
                (arrival.0 as int, arrival.1@),
                src_effective_value_type(s),
                number,
            ),
        ) {
            (IngestCheck::Refused(m), Err(t)) => m@ == t,
            (IngestCheck::Accepted(i, p), Ok((v, t))) => {
                &&& i < cfg.sources@.len() && cfg.sources@[i as int] == s
                &&& p.value@ == v && p.ts_ms as int == t.0 && p.ts@ == t.1
                &&& match (p.threshold, item.thresholds) {
                    (Some(a), Some(b)) => a@ == b@,
                    (None, None) => true,
                    _ => false,
                }
            },
            _ => false,
        },
{
    proof {
        reveal_strlit("unknown source `");
        reveal_strlit("`");
    }
    match find_source_index(&cfg.sources, item.source.as_str()) {
        None => {
            let mut m = "unknown source `".to_owned();
            cat(&mut m, item.source.as_str());
            cat(&mut m, "`");
            IngestCheck::Unknown(m)
        },
        Some(i) => match resolve_ingest_item(item, arrival, cfg.sources[i].effective_value_type(), number) {
            Ok(p) => IngestCheck::Accepted(i, p),
            Err(e) => IngestCheck::Refused(e),
        },
    }
}

} // verus!
