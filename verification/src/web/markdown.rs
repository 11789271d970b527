//! Markdown rendered to HTML for the web dashboard: raw HTML in the text
//! is shown as text, and only relative references and the allowlisted
//! schemes stay live as link and image destinations.

use vstd::prelude::*;
use crate::outside::{markdown_events, markdown_html, markdown_parse, markdown_render};
use crate::text::{chars_of, is_ascii_alnum, string_of};

verus! {

/// Tab, line feed and carriage return: the browser drops these anywhere in
/// a URL.
pub open spec fn is_url_stripped(c: char) -> bool {
    c == '\t' || c == '\n' || c == '\r'
}

/// Keeps every character the browser does not drop.
pub open spec fn url_kept() -> spec_fn(char) -> bool {
    |c: char| !is_url_stripped(c)
}

/// Drops leading characters up to and including space (C0 controls and
/// space).
pub open spec fn skip_controls(s: Seq<char>) -> Seq<char>
    decreases s.len(),
{
    if s.len() > 0 && s[0] <= ' ' {
        skip_controls(s.drop_first())
    } else {
        s
    }
}

/// A URL as the browser sees it when reading its scheme: tab, LF and CR
/// removed everywhere, then leading controls and spaces skipped.
pub open spec fn spec_browser_normalized(url: Seq<char>) -> Seq<char> {
    skip_controls(url.filter(url_kept()))
}

/// A character that can continue a URL scheme.
pub open spec fn is_scheme_char(c: char) -> bool {
    is_ascii_alnum(c) || c == '+' || c == '-' || c == '.'
}

pub open spec fn ascii_lower(c: char) -> char {
    if 'A' <= c && c <= 'Z' {
        (((c as u32) + 32) as u8) as char
    } else {
        c
    }
}

/// The index of the first character of `s` that cannot be part of a
/// scheme, if any.
pub open spec fn first_non_scheme(s: Seq<char>) -> Option<int> {
    if exists|i: int| 0 <= i < s.len() && !is_scheme_char(s[i]) {
        Some(
            choose|i: int|
                0 <= i < s.len() && !is_scheme_char(s[i]) && forall|j: int|
                    0 <= j < i ==> is_scheme_char(#[trigger] s[j]),
        )
    } else {
        None
    }
}

/// Whether `url` may stay a live link or image destination: it has no
/// scheme (no `:` ends its leading run of scheme characters), or its scheme
/// is, ignoring ASCII case, `http`, `https` or `mailto`; judged on the
/// browser-normalized form.
pub open spec fn spec_is_safe_url(url: Seq<char>) -> bool {
    let n = spec_browser_normalized(url);
    match first_non_scheme(n) {
        Some(i) => if n[i] == ':' {
            let scheme = n.take(i).map_values(|c: char| ascii_lower(c));
            scheme == "http"@ || scheme == "https"@ || scheme == "mailto"@
        } else {
            true
        },
        None => true,
    }
}

fn normalized_chars(url: &str) -> (r: Vec<char>)
    ensures
        r@ == spec_browser_normalized(url@),
{
    let v = chars_of(url);
    let mut kept: Vec<char> = Vec::new();
    let mut i: usize = 0;
    while i < v.len()
        invariant
            i <= v@.len(),
            v@ == url@,
            kept@ == v@.take(i as int).filter(url_kept()),
        decreases v.len() - i,
    {
        proof {
            assert(v@.take(i + 1).drop_last() =~= v@.take(i as int));
            reveal(Seq::filter);
        }
        let c = v[i];
        if !(c == '\t' || c == '\n' || c == '\r') {
            kept.push(c);
        }
        i = i + 1;
    }
    assert(v@.take(i as int) =~= url@);
    let ghost f = kept@;
    let mut lo: usize = 0;
    assert(f.skip(0) =~= f);
    while lo < kept.len() && kept[lo] <= ' '
        invariant
            lo <= kept@.len(),
            f == kept@,
            skip_controls(f.skip(lo as int)) == skip_controls(f),
        decreases kept.len() - lo,
    {
        assert(f.skip(lo as int).drop_first() =~= f.skip(lo + 1));
        lo = lo + 1;
    }
    let mut out: Vec<char> = Vec::new();
    let mut k: usize = lo;
    while k < kept.len()
        invariant
            lo <= k <= kept@.len(),
            out@ == kept@.subrange(lo as int, k as int),
        decreases kept.len() - k,
    {
        out.push(kept[k]);
        k = k + 1;
    }
    assert(out@ =~= f.skip(lo as int));
    out
}

/// `url` as the browser sees it when reading its scheme.
pub fn browser_normalized(url: &str) -> (r: String)
    ensures
        r@ == spec_browser_normalized(url@),
{
    let v = normalized_chars(url);
    string_of(&v, 0, v.len())
}

fn lower(c: char) -> (r: char)
    ensures
        r == ascii_lower(c),
{
    if 'A' <= c && c <= 'Z' {
        (((c as u32) + 32) as u8) as char
    } else {
        c
    }
}

fn scheme_is(n: &Vec<char>, end: usize, want: &str) -> (r: bool)
    requires
        end <= n@.len(),
    ensures
        r == (n@.take(end as int).map_values(|c: char| ascii_lower(c)) == want@),
{
    let w = chars_of(want);
    let ghost low = n@.take(end as int).map_values(|c: char| ascii_lower(c));
    if w.len() != end {
        assert(low.len() != want@.len());
        return false;
    }
    let mut i: usize = 0;
    while i < end
        invariant
            i <= end <= n@.len(),
            w@ == want@,
            w@.len() == end,
            low == n@.take(end as int).map_values(|c: char| ascii_lower(c)),
            forall|j: int| 0 <= j < i ==> low[j] == w@[j],
        decreases end - i,
    {
        if lower(n[i]) != w[i] {
            assert(low[i as int] != w@[i as int]);
            return false;
        }
        i = i + 1;
    }
    assert(low =~= want@);
    true
}

/// Whether `url` may stay a live link or image destination.
pub fn is_safe_url(url: &str) -> (r: bool)
    ensures
        r == spec_is_safe_url(url@),
{
    let n = normalized_chars(url);
    let mut i: usize = 0;
    while i < n.len() && (is_ascii_alnum_char(n[i]) || n[i] == '+' || n[i] == '-' || n[i] == '.')
        invariant
            i <= n@.len(),
            forall|j: int| 0 <= j < i ==> is_scheme_char(#[trigger] n@[j]),
        decreases n.len() - i,
    {
        i = i + 1;
    }
    proof {
        if i < n@.len() {
            let c = choose|k: int|
                0 <= k < n@.len() && !is_scheme_char(n@[k]) && forall|j: int|
                    0 <= j < k ==> is_scheme_char(#[trigger] n@[j]);
            assert(0 <= c < n@.len() && !is_scheme_char(n@[c]));
            if c < i {
                assert(is_scheme_char(n@[c]));
            }
            if i < c {
                assert(is_scheme_char(n@[i as int]));
            }
            assert(first_non_scheme(n@) == Some(i as int));
        } else {
            assert(first_non_scheme(n@).is_none());
        }
    }
    if i < n.len() && n[i] == ':' {
        proof {
            reveal_strlit("http");
            reveal_strlit("https");
            reveal_strlit("mailto");
        }
        scheme_is(&n, i, "http") || scheme_is(&n, i, "https") || scheme_is(&n, i, "mailto")
    } else {
        true
    }
}

fn is_ascii_alnum_char(c: char) -> (r: bool)
    ensures
        r == is_ascii_alnum(c),
{
    ('a' <= c && c <= 'z') || ('A' <= c && c <= 'Z') || ('0' <= c && c <= '9')
}

/// One markdown event as rendering reads it, with the position (`at`) of
/// the parsed event it stands for: raw HTML (a block line or an inline
/// tag), literal text, the start of a link or an image with its
/// destination, or any other event, carried through unread.
#[derive(Debug)]
pub enum MdEvent {
    RawHtml(String),
    Text(String),
    Dest { at: usize, dest: String },
    Other(usize),
}

/// An event as plain values.
pub ghost enum MdView {
    RawHtml(Seq<char>),
    Text(Seq<char>),
    Dest(int, Seq<char>),
    Other(int),
}

pub open spec fn md_view(e: MdEvent) -> MdView {
    match e {
        MdEvent::RawHtml(h) => MdView::RawHtml(h@),
        MdEvent::Text(t) => MdView::Text(t@),
        MdEvent::Dest { at, dest } => MdView::Dest(at as int, dest@),
        MdEvent::Other(at) => MdView::Other(at as int),
    }
}

pub open spec fn md_views(s: Seq<MdEvent>) -> Seq<MdView> {
    s.map_values(|e: MdEvent| md_view(e))
}

/// The parsed event an event stands for, when it names one.
pub open spec fn view_at(v: MdView) -> Option<int> {
    match v {
        MdView::Dest(at, _) => Some(at),
        MdView::Other(at) => Some(at),
        _ => None,
    }
}

/// An event made safe to render: raw HTML becomes the same text, a link or
/// image destination that is not safe becomes empty, and everything else
/// is kept.
pub open spec fn view_neutralized(v: MdView) -> MdView {
    match v {
        MdView::RawHtml(h) => MdView::Text(h),
        MdView::Dest(at, d) => if spec_is_safe_url(d) {
            v
        } else {
            MdView::Dest(at, Seq::empty())
        },
        _ => v,
    }
}

/// The events of a markdown text, each made safe to render.
pub open spec fn safe_markdown(text: Seq<char>) -> Seq<MdView> {
    markdown_parse(text).map_values(|v: MdView| view_neutralized(v))
}

/// Whether an event is safe to render: no raw HTML, and every link or
/// image destination is safe.
pub open spec fn render_safe(e: MdEvent) -> bool {
    match e {
        MdEvent::RawHtml(_) => false,
        MdEvent::Dest { dest, .. } => spec_is_safe_url(dest@),
        _ => true,
    }
}

/// One event made safe to render.
pub fn neutralize(e: MdEvent) -> (r: MdEvent)
    ensures
        md_view(r) == view_neutralized(md_view(e)),
        render_safe(r),
{
    proof {
        lemma_empty_url_is_safe();
    }
    match e {
        MdEvent::RawHtml(h) => MdEvent::Text(h),
        MdEvent::Dest { at, dest } => if is_safe_url(dest.as_str()) {
            MdEvent::Dest { at, dest }
        } else {
            MdEvent::Dest { at, dest: String::new() }
        },
        other => other,
    }
}

/// The empty destination (a relative reference to the page itself) is
/// safe.
pub proof fn lemma_empty_url_is_safe()
    ensures
        spec_is_safe_url(Seq::<char>::empty()),
{
    let e = Seq::<char>::empty();
    assert(e.filter(url_kept()) =~= e) by {
        e.lemma_filter_len(url_kept());
    }
    assert(spec_browser_normalized(e) =~= e);
    assert(first_non_scheme(e).is_none());
}

/// Every event made safe to render, in order: the events rendering writes
/// never hold raw HTML or an unsafe destination.
pub fn neutralize_all(events: Vec<MdEvent>) -> (r: Vec<MdEvent>)
    ensures
        md_views(r@) == md_views(events@).map_values(|v: MdView| view_neutralized(v)),
        forall|i: int| 0 <= i < r@.len() ==> render_safe(#[trigger] r@[i]),
{
    let ghost orig = events@;
    let mut src = events;
    let mut rest: Vec<MdEvent> = Vec::new();
    while src.len() > 0
        invariant
            src@.len() + rest@.len() == orig.len(),
            forall|k: int| 0 <= k < src@.len() ==> src@[k] == orig[k],
            forall|k: int| 0 <= k < rest@.len() ==> rest@[k] == orig[orig.len() - 1 - k],
        decreases src.len(),
    {
        let e = src.pop().unwrap();
        rest.push(e);
    }
    let mut out: Vec<MdEvent> = Vec::new();
    while rest.len() > 0
        invariant
            out@.len() + rest@.len() == orig.len(),
            forall|k: int| 0 <= k < rest@.len() ==> rest@[k] == orig[orig.len() - 1 - k],
            forall|i: int|
                0 <= i < out@.len() ==> md_view(#[trigger] out@[i]) == view_neutralized(md_view(orig[i])),
            forall|i: int| 0 <= i < out@.len() ==> render_safe(#[trigger] out@[i]),
        decreases rest.len(),
    {
        let e = rest.pop().unwrap();
        out.push(neutralize(e));
    }
    assert(md_views(out@) =~= md_views(orig).map_values(|v: MdView| view_neutralized(v)));
    out
}

/// Markdown (with tables) rendered to HTML, made safe first: raw HTML in
/// the text is escaped and shown as text, and a link or image whose
/// destination is not safe gets an empty one. The renderer is only ever
/// handed events that are safe to render.
pub fn render_markdown(value: &str) -> (r: String)
    ensures
        r@ == markdown_render(value@, safe_markdown(value@)),
{
    let events = markdown_events(value);
    let safe = neutralize_all(events);
    proof {
        assert(md_views(safe@) =~= safe_markdown(value@));
        assert forall|i: int| 0 <= i < safe@.len() implies #[trigger] view_at(md_view(safe@[i])) matches Some(j)
            ==> 0 <= j < markdown_parse(value@).len() by {
            assert(md_views(safe@)[i] == md_view(safe@[i]));
            assert(view_at(markdown_parse(value@)[i]) matches Some(j) ==> j == i);
        }
    }
    markdown_html(value, safe)
}

} // verus!
