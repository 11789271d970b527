//! Trusted boundary: the few calls into outside crates and std functions
//! that vstd gives no specification. Each item states only what the called
//! function's source or documentation shows.

use vstd::prelude::*;
use pulldown_cmark::{Event, Options, Parser, Tag};
use pulldown_cmark::html::push_html;
use crate::web::markdown::{MdEvent, MdView, md_view, md_views, render_safe, view_at};

verus! {

/// What `humantime::parse_duration` yields for a text, as whole nanoseconds
/// (`None` when it rejects the text).
pub uninterp spec fn humantime_nanos(text: Seq<char>) -> Option<u128>;

/// The most ASCII digits a text handed to `humantime::parse_duration` may
/// hold. Its spans add up to less than `(10^11 + 11) * 31_557_600` seconds
/// (a year is its largest unit), far below `u64::MAX`, so its last
/// second/nanosecond carry (`Duration::new`, which panics when the seconds
/// overflow) cannot overflow.
pub const HUMANTIME_MAX_DIGITS: usize = 11;

/// Calls `humantime::parse_duration` on a text of at most
/// `HUMANTIME_MAX_DIGITS` digits. Claimed: the result is a function of the
/// text alone, named by `humantime_nanos`. Nothing is claimed about which
/// texts it accepts.
#[verifier::external_body]
pub(crate) fn parse_humantime(text: &str) -> (r: Option<u128>)
    requires
        crate::text::digit_count(text@) <= HUMANTIME_MAX_DIGITS,
    ensures
        r == humantime_nanos(text@),
{
    humantime::parse_duration(text).ok().map(|d| d.as_nanos())
}

/// Calls `String::push`. Claimed, as std documents it: the character is
/// appended at the end and nothing else changes.
#[verifier::external_body]
pub(crate) fn push_char(s: &mut String, c: char)
    ensures
        final(s)@ == old(s)@.push(c),
{
    s.push(c);
}

/// `croner::Cron`, a parsed cron schedule; opaque here.
#[verifier::external_type_specification]
#[verifier::external_body]
pub struct ExCron(croner::Cron);

/// What parsing a cron expression with `croner` reports: `None` when it
/// parses, else the text of its error.
pub uninterp spec fn cron_parse_error(expr: Seq<char>) -> Option<Seq<char>>;

/// Calls `<croner::Cron as FromStr>::from_str`. Claimed: whether it parses,
/// and the text of its error, are functions of the expression alone, named
/// by `cron_parse_error`.
#[verifier::external_body]
pub(crate) fn parse_cron(expr: &str) -> (r: Result<croner::Cron, String>)
    ensures
        r.is_ok() == cron_parse_error(expr@).is_none(),
        r matches Err(t) ==> cron_parse_error(expr@) == Some(t@),
{
    expr.parse::<croner::Cron>().map_err(|e| e.to_string())
}

/// Calls `croner::Cron::find_next_occurrence` from the current time
/// (inclusive). The answer depends on the clock, so nothing is claimed.
#[verifier::external_body]
pub(crate) fn cron_has_future(cron: &croner::Cron) -> bool {
    cron.find_next_occurrence(&chrono::Utc::now(), true).is_ok()
}

/// The next occurrence (epoch milliseconds) of a cron expression strictly
/// after the instant `now_ms`, in UTC, as `croner` finds it; `None` when the
/// expression does not parse or has no such occurrence.
pub uninterp spec fn cron_next_ms(expr: Seq<char>, now_ms: int) -> Option<int>;

/// Parses the expression as a `croner::Cron` and calls its
/// `find_next_occurrence` from the instant `now_ms` (exclusive). Claimed:
/// the result is a function of the expression and the instant alone, named
/// by `cron_next_ms`.
#[verifier::external_body]
pub(crate) fn cron_next_occurrence(expr: &str, now_ms: i64) -> (r: Option<i64>)
    ensures
        match (r, cron_next_ms(expr@, now_ms as int)) {
            (Some(a), Some(b)) => a as int == b,
            (None, None) => true,
            _ => false,
        },
{
    let cron = expr.parse::<croner::Cron>().ok()?;
    let now = chrono::DateTime::from_timestamp_millis(now_ms)?;
    cron.find_next_occurrence(&now, false).ok().map(|t| t.timestamp_millis())
}

/// What `serde_urlencoded::from_str` yields for a query string read as
/// `(key, value)` pairs: the decoded pairs in order, or its error's text.
pub uninterp spec fn urlencoded_pairs(query: Seq<char>) -> Result<Seq<(Seq<char>, Seq<char>)>, Seq<char>>;

pub open spec fn pairs_view(v: Seq<(String, String)>) -> Seq<(Seq<char>, Seq<char>)> {
    v.map_values(|p: (String, String)| (p.0@, p.1@))
}

/// Calls `serde_urlencoded::from_str` for a list of string pairs. Claimed:
/// the outcome is a function of the query text alone, named by
/// `urlencoded_pairs`.
#[verifier::external_body]
pub(crate) fn decode_query_pairs(query: &str) -> (r: Result<Vec<(String, String)>, String>)
    ensures
        match (r, urlencoded_pairs(query@)) {
            (Ok(v), Ok(p)) => pairs_view(v@) == p,
            (Err(e), Err(t)) => e@ == t,
            _ => false,
        },
{
    serde_urlencoded::from_str::<Vec<(String, String)>>(query).map_err(|e| e.to_string())
}

/// What `chrono::DateTime::from_timestamp` gives for whole seconds and
/// nanoseconds since the epoch, read back as epoch milliseconds
/// (`timestamp_millis`) and RFC 3339 text (`to_rfc3339`); `None` when it is
/// out of range.
pub uninterp spec fn utc_from_timestamp(secs: int, nanos: int) -> Option<(int, Seq<char>)>;

/// Calls `chrono::DateTime::from_timestamp`, then reads the instant back as
/// epoch milliseconds and RFC 3339 text. Claimed: the result is a function
/// of the two arguments alone, named by `utc_from_timestamp`; and an
/// instant that exists reads back as `secs * 1000` plus the whole
/// milliseconds in `nanos` (`timestamp` gives `secs` back, and
/// `timestamp_subsec_millis` is `nanos / 1_000_000`).
#[verifier::external_body]
pub(crate) fn utc_instant(secs: i64, nanos: u32) -> (r: Option<(i64, String)>)
    ensures
        match (r, utc_from_timestamp(secs as int, nanos as int)) {
            (Some(x), Some(y)) => x.0 as int == y.0 && x.1@ == y.1,
            (None, None) => true,
            _ => false,
        },
        r matches Some(x) ==> x.0 as int == secs * 1000 + nanos / 1_000_000,
{
    chrono::DateTime::from_timestamp(secs, nanos).map(|d| (d.timestamp_millis(), d.to_rfc3339()))
}

/// What `chrono::DateTime::parse_from_rfc3339` gives for a text, read back
/// as epoch milliseconds and RFC 3339 text; `None` when it does not parse.
pub uninterp spec fn rfc3339_instant(text: Seq<char>) -> Option<(int, Seq<char>)>;

/// Calls `chrono::DateTime::parse_from_rfc3339`, then reads the instant
/// back as epoch milliseconds and RFC 3339 text. Claimed: the result is a
/// function of the text alone, named by `rfc3339_instant`.
#[verifier::external_body]
pub(crate) fn parse_rfc3339(text: &str) -> (r: Option<(i64, String)>)
    ensures
        match (r, rfc3339_instant(text@)) {
            (Some(x), Some(y)) => x.0 as int == y.0 && x.1@ == y.1,
            (None, None) => true,
            _ => false,
        },
{
    chrono::DateTime::parse_from_rfc3339(text).ok().map(|d| (d.timestamp_millis(), d.to_rfc3339()))
}

/// The events `pulldown_cmark::Parser::new_ext` (tables enabled) yields for
/// a text, read as plain values: HTML blocks and inline HTML as their raw
/// text, link and image starts by their destination, every other event by
/// its position.
pub uninterp spec fn markdown_parse(text: Seq<char>) -> Seq<MdView>;

/// What `pulldown_cmark::html::push_html` writes for the events of a text
/// (tables enabled) with the given events in their place: raw HTML as an
/// HTML event, text as a text event, a destination as the same link or
/// image start at that position with that destination, and any other
/// event as the parsed event at that position.
pub uninterp spec fn markdown_render(text: Seq<char>, events: Seq<MdView>) -> Seq<char>;

/// Calls `pulldown_cmark::Parser::new_ext` with tables enabled and reads
/// each event. Claimed: the events are a function of the text, named by
/// `markdown_parse`, and an event that stands for a parsed event stands for
/// the one at its own position.
#[verifier::external_body]
pub(crate) fn markdown_events(text: &str) -> (r: Vec<MdEvent>)
    ensures
        md_views(r@) == markdown_parse(text@),
        forall|i: int| 0 <= i < r@.len() ==> (view_at(md_view(#[trigger] r@[i])) matches Some(j) ==> j == i),
{
    Parser::new_ext(text, Options::ENABLE_TABLES).enumerate().map(|(at, e)| match e {
        Event::Html(h) | Event::InlineHtml(h) => MdEvent::RawHtml(h.to_string()),
        Event::Start(Tag::Link { dest_url, .. }) | Event::Start(Tag::Image { dest_url, .. }) =>
            MdEvent::Dest { at, dest: dest_url.to_string() },
        _ => MdEvent::Other(at),
    }).collect()
}

/// Parses the text again with `pulldown_cmark::Parser::new_ext` (tables
/// enabled) and calls `pulldown_cmark::html::push_html` on the given events
/// turned back into `pulldown_cmark` events (raw HTML as an HTML event,
/// text as a text event, a destination into the parsed link or image start
/// at its position, any other event as the parsed event at its position).
/// Claimed: the HTML is a function of the text and the events, named by
/// `markdown_render`. Callers may only hand it events that are safe to
/// render, each standing for a parsed event of the text.
#[verifier::external_body]
pub(crate) fn markdown_html(text: &str, events: Vec<MdEvent>) -> (r: String)
    requires
        forall|i: int| 0 <= i < events@.len() ==> render_safe(#[trigger] events@[i]),
        forall|i: int| 0 <= i < events@.len() ==> (view_at(md_view(#[trigger] events@[i])) matches Some(j)
            ==> 0 <= j < markdown_parse(text@).len()),
    ensures
        r@ == markdown_render(text@, md_views(events@)),
{
    let source: Vec<Event> = Parser::new_ext(text, Options::ENABLE_TABLES).collect();
    let out = events.into_iter().map(|e| match e {
        MdEvent::RawHtml(h) => Event::Html(h.into()),
        MdEvent::Text(t) => Event::Text(t.into()),
        MdEvent::Other(at) => source[at].clone(),
        MdEvent::Dest { at, dest } => {
            let mut start = source[at].clone();
            if let Event::Start(Tag::Link { dest_url, .. } | Tag::Image { dest_url, .. }) = &mut start { *dest_url = dest.into(); }
            start
        },
    });
    let mut html = String::new();
    push_html(&mut html, out);
    html
}

} // verus!
