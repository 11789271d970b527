//! The collection pipeline's own logic: which fetch a source has, how a
//! command's output becomes a reading (plain text or a structured JSON
//! row), how a pushed item is checked, and how a value converts to the
//! source's declared type.

use vstd::prelude::*;
use crate::config::source::{Level, SourceCfg, Threshold, ValueType, src_command, src_kind, src_name};
use crate::config::source::SourceType;
use crate::int_parse::{parse_i64, spec_parse_i64};
use crate::num::{Num, num_is_finite};
use crate::outside::{rfc3339_instant, parse_rfc3339, utc_from_timestamp, utc_instant};
use crate::text::{cat, str_eq, trim, trim_spec};

verus! {

/// What a source fetches with: a command run per tick, a command whose
/// output lines stream in, or nothing (pushed over HTTP).
#[derive(Debug, Clone)]
pub enum SourceKind {
    Query { command: String },
    Stream { command: String },
    Ingest,
}

/// The fetch of a source, or why it has none: a query or stream source
/// needs a command, and a composite child fetches only through its root.
pub open spec fn spec_build(s: SourceCfg) -> Result<(int, Seq<char>), Seq<char>> {
    match s {
        SourceCfg::Query { name, command, .. } => if command@.len() == 0 {
            Err("query source `"@ + name@ + "` requires `command`"@)
        } else {
            Ok((0, command@))
        },
        SourceCfg::Stream { name, command, .. } => if command@.len() == 0 {
            Err("stream source `"@ + name@ + "` requires `command`"@)
        } else {
            Ok((1, command@))
        },
        SourceCfg::Ingest { .. } => Ok((2, Seq::empty())),
        SourceCfg::Child { name, .. } => Err(
            "source `"@ + name@ + "` is a composite child and has no fetch of its own"@,
        ),
    }
}

pub open spec fn kind_view(k: SourceKind) -> (int, Seq<char>) {
    match k {
        SourceKind::Query { command } => (0, command@),
        SourceKind::Stream { command } => (1, command@),
        SourceKind::Ingest => (2, Seq::empty()),
    }
}

pub fn build(cfg: &SourceCfg) -> (r: Result<SourceKind, String>)
    ensures
        match (r, spec_build(*cfg)) {
            (Ok(k), Ok(v)) => kind_view(k) == v,
            (Err(e), Err(t)) => e@ == t,
            _ => false,
        },
{
    proof {
        reveal_strlit("query source `");
        reveal_strlit("stream source `");
        reveal_strlit("` requires `command`");
        reveal_strlit("source `");
        reveal_strlit("` is a composite child and has no fetch of its own");
    }
    match cfg {
        SourceCfg::Query { name, command, .. } => {
            if command.as_str().is_empty() {
                let mut m = "query source `".to_owned();
                cat(&mut m, name.as_str());
                cat(&mut m, "` requires `command`");
                return Err(m);
            }
            Ok(SourceKind::Query { command: command.clone() })
        },
        SourceCfg::Stream { name, command, .. } => {
            if command.as_str().is_empty() {
                let mut m = "stream source `".to_owned();
                cat(&mut m, name.as_str());
                cat(&mut m, "` requires `command`");
                return Err(m);
            }
            Ok(SourceKind::Stream { command: command.clone() })
        },
        SourceCfg::Ingest { .. } => Ok(SourceKind::Ingest),
        SourceCfg::Child { name, .. } => {
            let mut m = "source `".to_owned();
            cat(&mut m, name.as_str());
            cat(&mut m, "` is a composite child and has no fetch of its own");
            Err(m)
        },
    }
}

/// The typed forms stored beside a value: an integer, a double, or JSON
/// text; at most one is present.
pub type Typed = (Option<i64>, Option<Num>, Option<String>);

/// Converting a value to a source's declared type (`number`: the trimmed
/// value read as a double, when it reads as one): `string` stores nothing
/// extra, `bigint` must read as an `i64`, `double` as a double, `json`
/// stores the trimmed text (checked by the store itself).
pub open spec fn spec_convert(value: Seq<char>, number: Option<Num>, vt: ValueType) -> Result<
    (Option<int>, Option<Num>, Option<Seq<char>>),
    Seq<char>,
> {
    match vt {
        ValueType::String => Ok((None, None, None)),
        ValueType::Bigint => match spec_parse_i64(trim_spec(value)) {
            Ok(n) => Ok((Some(n), None, None)),
            Err(_) => Err("value `"@ + value + "` does not convert to bigint"@),
        },
        ValueType::Double => match number {
            Some(n) => Ok((None, Some(n), None)),
            None => Err("value `"@ + value + "` does not convert to double"@),
        },
        ValueType::Json => Ok((None, None, Some(trim_spec(value)))),
    }
}

pub open spec fn typed_view(t: Typed) -> (Option<int>, Option<Num>, Option<Seq<char>>) {
    (
        match t.0 {
            Some(n) => Some(n as int),
            None => None,
        },
        t.1,
        match t.2 {
            Some(s) => Some(s@),
            None => None,
        },
    )
}

pub fn convert_value_type(value: &str, number: Option<Num>, value_type: ValueType) -> (r: Result<
    Typed,
    String,
>)
    ensures
        match (r, spec_convert(value@, number, value_type)) {
            (Ok(t), Ok(v)) => typed_view(t) == v,
            (Err(e), Err(t)) => e@ == t,
            _ => false,
        },
{
    proof {
        reveal_strlit("value `");
        reveal_strlit("` does not convert to bigint");
        reveal_strlit("` does not convert to double");
    }
    match value_type {
        ValueType::String => Ok((None, None, None)),
        ValueType::Bigint => {
            let t = trim(value);
            match parse_i64(t.as_str()) {
                Ok(n) => Ok((Some(n), None, None)),
                Err(_) => {
                    let mut m = "value `".to_owned();
                    cat(&mut m, value);
                    cat(&mut m, "` does not convert to bigint");
                    Err(m)
                },
            }
        },
        ValueType::Double => match number {
            Some(n) => Ok((None, Some(n), None)),
            None => {
                let mut m = "value `".to_owned();
                cat(&mut m, value);
                cat(&mut m, "` does not convert to double");
                Err(m)
            },
        },
        ValueType::Json => Ok((None, None, Some(trim(value)))),
    }
}

/// A JSON value as the pipeline reads it. A number carries its double and,
/// when finite, that double as epoch seconds split into whole seconds
/// (rounded down, saturating) and nanoseconds.
#[derive(Debug)]
pub enum Json {
    Null,
    Bool(bool),
    Number { value: Num, epoch: Option<(i64, u32)> },
    Str(String),
    Array(Vec<Json>),
    Object(Vec<(String, Json)>),
}

/// The value under `key` in an object's pairs (keys are unique).
pub open spec fn obj_get(obj: Seq<(String, Json)>, key: Seq<char>) -> Option<Json>
    decreases obj.len(),
{
    if obj.len() == 0 {
        None
    } else if obj[0].0@ == key {
        Some(obj[0].1)
    } else {
        obj_get(obj.drop_first(), key)
    }
}

fn get<'a>(obj: &'a [(String, Json)], key: &str) -> (r: Option<&'a Json>)
    ensures
        r.is_none() == obj_get(obj@, key@).is_none(),
        r matches Some(v) ==> obj_get(obj@, key@) == Some(*v),
{
    let mut i: usize = 0;
    assert(obj@.skip(0) =~= obj@);
    while i < obj.len()
        invariant
            i <= obj@.len(),
            obj_get(obj@.skip(i as int), key@) == obj_get(obj@, key@),
        decreases obj.len() - i,
    {
        assert(obj@.skip(i as int).drop_first() =~= obj@.skip(i + 1));
        assert(obj@.skip(i as int)[0] == obj@[i as int]);
        if str_eq(obj[i].0.as_str(), key) {
            return Some(&obj[i].1);
        }
        i = i + 1;
    }
    None
}

pub open spec fn level_named(s: Seq<char>) -> Option<Level> {
    if s == "green"@ {
        Some(Level::Green)
    } else if s == "yellow"@ {
        Some(Level::Yellow)
    } else if s == "red"@ {
        Some(Level::Red)
    } else {
        None
    }
}

/// One band read from JSON: an object with a numeric `bound` and a `level`
/// of `green`, `yellow` or `red` (other keys ignored).
pub open spec fn threshold_from_json(v: Json) -> Option<Threshold> {
    match v {
        Json::Object(o) => match (obj_get(o@, "bound"@), obj_get(o@, "level"@)) {
            (Some(Json::Number { value, .. }), Some(Json::Str(l))) => match level_named(l@) {
                Some(level) => Some(Threshold { bound: value, level }),
                None => None,
            },
            _ => None,
        },
        _ => None,
    }
}

/// A band list read from JSON: an array whose every item is a band.
pub open spec fn thresholds_from_json(v: Json) -> Option<Seq<Threshold>> {
    match v {
        Json::Array(items) => if forall|i: int|
            0 <= i < items@.len() ==> threshold_from_json(#[trigger] items@[i]).is_some() {
            Some(items@.map_values(|j: Json| threshold_from_json(j)->0))
        } else {
            None
        },
        _ => None,
    }
}

fn level_of(s: &str) -> (r: Option<Level>)
    ensures
        r == level_named(s@),
{
    proof {
        reveal_strlit("green");
        reveal_strlit("yellow");
        reveal_strlit("red");
    }
    if str_eq(s, "green") {
        Some(Level::Green)
    } else if str_eq(s, "yellow") {
        Some(Level::Yellow)
    } else if str_eq(s, "red") {
        Some(Level::Red)
    } else {
        None
    }
}

fn threshold_of(v: &Json) -> (r: Option<Threshold>)
    ensures
        r == threshold_from_json(*v),
{
    proof {
        reveal_strlit("bound");
        reveal_strlit("level");
    }
    match v {
        Json::Object(o) => match (get(o.as_slice(), "bound"), get(o.as_slice(), "level")) {
            (Some(Json::Number { value, .. }), Some(Json::Str(l))) => match level_of(l.as_str()) {
                Some(level) => Some(Threshold { bound: *value, level }),
                None => None,
            },
            _ => None,
        },
        _ => None,
    }
}

/// Reads a band list from JSON.
pub fn thresholds_of(v: &Json) -> (r: Option<Vec<Threshold>>)
    ensures
        match (r, thresholds_from_json(*v)) {
            (Some(b), Some(t)) => b@ == t,
            (None, None) => true,
            _ => false,
        },
{
    match v {
        Json::Array(items) => {
            let mut out: Vec<Threshold> = Vec::new();
            let mut i: usize = 0;
            while i < items.len()
                invariant
                    i <= items@.len(),
                    *v == Json::Array(*items),
                    out@.len() == i,
                    forall|k: int|
                        0 <= k < i ==> threshold_from_json(#[trigger] items@[k]) == Some(out@[k]),
                decreases items.len() - i,
            {
                match threshold_of(&items[i]) {
                    Some(t) => out.push(t),
                    None => {
                        assert(threshold_from_json(items@[i as int]).is_none());
                        return None;
                    },
                }
                i = i + 1;
            }
            assert(out@ =~= items@.map_values(|j: Json| threshold_from_json(j)->0));
            Some(out)
        },
        _ => None,
    }
}

/// A row's replacement bands, when usable: a band list whose every bound
/// is finite and that is not a lone band.
pub open spec fn row_bands(v: Json) -> Option<Seq<Threshold>> {
    match thresholds_from_json(v) {
        Some(b) => if (exists|i: int| 0 <= i < b.len() && !num_is_finite(#[trigger] b[i].bound))
            || b.len() == 1 {
            None
        } else {
            Some(b)
        },
        None => None,
    }
}

fn convert_row_thresholds(v: &Json) -> (r: Option<Vec<Threshold>>)
    ensures
        match (r, row_bands(*v)) {
            (Some(b), Some(t)) => b@ == t,
            (None, None) => true,
            _ => false,
        },
{
    let bands = match thresholds_of(v) {
        Some(b) => b,
        None => {
            return None;
        },
    };
    let mut i: usize = 0;
    while i < bands.len()
        invariant
            i <= bands@.len(),
            thresholds_from_json(*v) == Some(bands@),
            forall|k: int| 0 <= k < i ==> num_is_finite(#[trigger] bands@[k].bound),
        decreases bands.len() - i,
    {
        if !bands[i].bound.is_finite() {
            assert(!num_is_finite(bands@[i as int].bound));
            return None;
        }
        i = i + 1;
    }
    if bands.len() == 1 {
        return None;
    }
    Some(bands)
}

/// A structured row's timestamp: epoch seconds (the number's finite split),
/// or RFC 3339 text.
#[derive(Debug, Clone)]
pub enum JsonlTs {
    Epoch(i64, u32),
    Text(String),
}

/// One structured output row: its reading, its usable timestamp, and its
/// usable replacement bands.
#[derive(Debug, Clone)]
pub struct JsonlRow {
    pub value: String,
    pub ts: Option<JsonlTs>,
    pub threshold: Option<Vec<Threshold>>,
}

pub open spec fn is_row_key(k: Seq<char>) -> bool {
    k == "value"@ || k == "ts"@ || k == "threshold"@
}

/// The first key of a row that is not one of its three fields.
pub open spec fn first_unknown_key(obj: Seq<(String, Json)>) -> Option<Seq<char>>
    decreases obj.len(),
{
    if obj.len() == 0 {
        None
    } else if !is_row_key(obj[0].0@) {
        Some(obj[0].0@)
    } else {
        first_unknown_key(obj.drop_first())
    }
}

/// Reading a structured row: an unknown key or a missing or non-string
/// `value` refuses the row; `ts` and `threshold` that cannot be used are
/// dropped instead.
pub open spec fn row_ok(source: Seq<char>, obj: Seq<(String, Json)>) -> Result<Seq<char>, Seq<char>> {
    match first_unknown_key(obj) {
        Some(k) => Err("source `"@ + source + "` jsonl row has unknown field `"@ + k + "`"@),
        None => match obj_get(obj, "value"@) {
            Some(Json::Str(v)) => Ok(v@),
            _ => Err("source `"@ + source + "` jsonl row is missing a string `value`"@),
        },
    }
}

pub open spec fn row_ts_matches(ts: Option<JsonlTs>, raw: Option<Json>) -> bool {
    match raw {
        Some(Json::Number { epoch: Some((s, n)), .. }) => ts == Some(JsonlTs::Epoch(s, n)),
        Some(Json::Str(t)) => ts matches Some(JsonlTs::Text(x)) && x@ == t@,
        _ => ts.is_none(),
    }
}

pub open spec fn row_threshold_matches(th: Option<Vec<Threshold>>, raw: Option<Json>) -> bool {
    match raw {
        None => th.is_none(),
        Some(Json::Null) => th.is_none(),
        Some(v) => match (th, row_bands(v)) {
            (Some(b), Some(t)) => b@ == t,
            (None, None) => true,
            _ => false,
        },
    }
}

fn check_keys(obj: &[(String, Json)]) -> (r: Option<&str>)
    ensures
        r.is_none() == first_unknown_key(obj@).is_none(),
        r matches Some(k) ==> first_unknown_key(obj@) == Some(k@),
{
    proof {
        reveal_strlit("value");
        reveal_strlit("ts");
        reveal_strlit("threshold");
    }
    let mut i: usize = 0;
    assert(obj@.skip(0) =~= obj@);
    while i < obj.len()
        invariant
            i <= obj@.len(),
            first_unknown_key(obj@.skip(i as int)) == first_unknown_key(obj@),
        decreases obj.len() - i,
    {
        assert(obj@.skip(i as int).drop_first() =~= obj@.skip(i + 1));
        assert(obj@.skip(i as int)[0] == obj@[i as int]);
        let k = obj[i].0.as_str();
        if !(str_eq(k, "value") || str_eq(k, "ts") || str_eq(k, "threshold")) {
            return Some(k);
        }
        i = i + 1;
    }
    None
}

/// Reads one structured output row of source `source`.
pub fn parse_jsonl_row(source: &str, obj: &[(String, Json)]) -> (r: Result<JsonlRow, String>)
    ensures
        match (r, row_ok(source@, obj@)) {
            (Ok(row), Ok(v)) => {
                &&& row.value@ == v
                &&& row_ts_matches(row.ts, obj_get(obj@, "ts"@))
                &&& row_threshold_matches(row.threshold, obj_get(obj@, "threshold"@))
            },
            (Err(e), Err(t)) => e@ == t,
            _ => false,
        },
{
    proof {
        reveal_strlit("source `");
        reveal_strlit("` jsonl row has unknown field `");
        reveal_strlit("`");
        reveal_strlit("` jsonl row is missing a string `value`");
        reveal_strlit("value");
        reveal_strlit("ts");
        reveal_strlit("threshold");
    }
    match check_keys(obj) {
        Some(k) => {
            let mut m = "source `".to_owned();
            cat(&mut m, source);
            cat(&mut m, "` jsonl row has unknown field `");
            cat(&mut m, k);
            cat(&mut m, "`");
            return Err(m);
        },
        None => {},
    }
    let value = match get(obj, "value") {
        Some(Json::Str(v)) => v.clone(),
        _ => {
            let mut m = "source `".to_owned();
            cat(&mut m, source);
            cat(&mut m, "` jsonl row is missing a string `value`");
            return Err(m);
        },
    };
    let ts = match get(obj, "ts") {
        Some(Json::Number { epoch: Some((s, n)), .. }) => Some(JsonlTs::Epoch(*s, *n)),
        Some(Json::Str(t)) => Some(JsonlTs::Text(t.clone())),
        _ => None,
    };
    let threshold = match get(obj, "threshold") {
        None => None,
        Some(Json::Null) => None,
        Some(v) => convert_row_thresholds(v),
    };
    Ok(JsonlRow { value, ts, threshold })
}

/// A reading as stored: value, time (epoch milliseconds and RFC 3339 text)
/// and any replacement bands.
#[derive(Debug, Clone)]
pub struct ParsedOutput {
    pub value: String,
    pub ts_ms: i64,
    pub ts: String,
    pub threshold: Option<Vec<Threshold>>,
}

/// A row timestamp resolved: epoch seconds through `utc_from_timestamp`,
/// text through `rfc3339_instant`, each falling back to `fallback` when it
/// does not resolve.
pub open spec fn spec_resolve(ts: JsonlTs, fallback: (int, Seq<char>)) -> (int, Seq<char>) {
    match ts {
        JsonlTs::Epoch(s, n) => match utc_from_timestamp(s as int, n as int) {
            Some(x) => x,
            None => fallback,
        },
        JsonlTs::Text(t) => match rfc3339_instant(t@) {
            Some(x) => x,
            None => fallback,
        },
    }
}

impl JsonlTs {
    /// Resolves to `(epoch milliseconds, RFC 3339 text)`, falling back to
    /// `fallback` (the arrival time) when it does not resolve.
    pub fn resolve(&self, fallback: (i64, String)) -> (r: (i64, String))
        ensures
            (r.0 as int, r.1@) == spec_resolve(*self, (fallback.0 as int, fallback.1@)),
            *self matches JsonlTs::Epoch(s, n) ==> (utc_from_timestamp(s as int, n as int) is Some
                ==> r.0 as int == s * 1000 + n / 1_000_000),
    {
        match self {
            JsonlTs::Epoch(s, n) => match utc_instant(*s, *n) {
                Some(x) => x,
                None => fallback,
            },
            JsonlTs::Text(t) => match parse_rfc3339(t.as_str()) {
                Some(x) => x,
                None => fallback,
            },
        }
    }
}

/// A command's output as a reading. The trimmed output is a structured row
/// when it is a JSON object with a `value` key (`json` is the trimmed
/// output read as JSON, `None` when it is not JSON); anything else is
/// stored as the trimmed text at `arrival`.
pub open spec fn output_is_row(json: Option<Json>) -> bool {
    json matches Some(Json::Object(o)) && obj_get(o@, "value"@).is_some()
}

pub fn parse_output(source: &str, output: &str, json: Option<Json>, arrival: (i64, String)) -> (r: Result<
    ParsedOutput,
    String,
>)
    ensures
        !output_is_row(json) ==> (r matches Ok(p) && p.value@ == trim_spec(output@) && p.ts_ms
            == arrival.0 && p.ts@ == arrival.1@ && p.threshold.is_none()),
        output_is_row(json) ==> (json matches Some(Json::Object(o)) && match (
            r,
            row_ok(source@, o@),
        ) {
            (Ok(p), Ok(v)) => {
                &&& p.value@ == v
                &&& (match obj_get(o@, "ts"@) {
                    Some(Json::Number { epoch: Some((s, n)), .. }) => (p.ts_ms as int, p.ts@)
                        == spec_resolve(JsonlTs::Epoch(s, n), (arrival.0 as int, arrival.1@)),
                    Some(Json::Str(t)) => (p.ts_ms as int, p.ts@) == spec_resolve(
                        JsonlTs::Text(t),
                        (arrival.0 as int, arrival.1@),
                    ),
                    _ => p.ts_ms == arrival.0 && p.ts@ == arrival.1@,
                })
                &&& row_threshold_matches(p.threshold, obj_get(o@, "threshold"@))
            },
            (Err(e), Err(t)) => e@ == t,
            _ => false,
        }),
{
    proof {
        reveal_strlit("value");
    }
    let is_row = match &json {
        Some(Json::Object(o)) => get(o.as_slice(), "value").is_some(),
        _ => false,
    };
    if !is_row {
        return Ok(ParsedOutput { value: trim(output), ts_ms: arrival.0, ts: arrival.1, threshold: None });
    }
    match &json {
        Some(Json::Object(o)) => {
            let row = parse_jsonl_row(source, o.as_slice())?;
            let (ts_ms, ts) = match &row.ts {
                Some(t) => t.resolve(arrival),
                None => arrival,
            };
            Ok(ParsedOutput { value: row.value, ts_ms, ts, threshold: row.threshold })
        },
        _ => Ok(ParsedOutput { value: trim(output), ts_ms: arrival.0, ts: arrival.1, threshold: None }),
    }
}

/// A pushed item's value: a JSON string as it is, or any other JSON value
/// as its compact JSON text.
#[derive(Debug, Clone)]
pub enum IngestValue {
    Text(String),
    Other(String),
}

/// One pushed item: its source, value, optional timestamp and optional
/// replacement bands.
#[derive(Debug)]
pub struct IngestItem {
    pub source: String,
    pub value: IngestValue,
    pub ts: Option<Json>,
    pub thresholds: Option<Vec<Threshold>>,
}

pub open spec fn ingest_text(v: IngestValue) -> Seq<char> {
    match v {
        IngestValue::Text(t) => t@,
        IngestValue::Other(t) => t@,
    }
}

/// A pushed item's timestamp, strictly: absent or `null` means the arrival
/// time; a finite number is epoch seconds and must be in range; a string
/// must be RFC 3339; anything else is refused.
pub open spec fn spec_ingest_ts(raw: Option<Json>, arrival: (int, Seq<char>), source: Seq<char>) -> Result<
    (int, Seq<char>),
    Seq<char>,
> {
    match raw {
        None => Ok(arrival),
        Some(Json::Null) => Ok(arrival),
        Some(Json::Number { value, epoch }) => if !num_is_finite(value) {
            Err("ingest `ts` for `"@ + source + "` is not a finite number"@)
        } else {
            match epoch {
                Some((s, n)) => match utc_from_timestamp(s as int, n as int) {
                    Some(x) => Ok(x),
                    None => Err("ingest `ts` for `"@ + source + "` is out of range"@),
                },
                None => Err("ingest `ts` for `"@ + source + "` is out of range"@),
            }
        },
        Some(Json::Str(t)) => match rfc3339_instant(t@) {
            Some(x) => Ok(x),
            None => Err("ingest `ts` for `"@ + source + "` is not RFC 3339: `"@ + t@ + "`"@),
        },
        _ => Err("ingest `ts` for `"@ + source + "` must be epoch seconds or RFC 3339"@),
    }
}

pub fn resolve_ingest_ts(raw: Option<&Json>, arrival: (i64, String), source: &str) -> (r: Result<
    (i64, String),
    String,
>)
    ensures
        match (
            r,
            spec_ingest_ts(
                match raw {
                    Some(j) => Some(*j),
                    None => None,
                },
                (arrival.0 as int, arrival.1@),
                source@,
            ),
        ) {
            (Ok(x), Ok(y)) => x.0 as int == y.0 && x.1@ == y.1,
            (Err(e), Err(t)) => e@ == t,
            _ => false,
        },
{
    proof {
        reveal_strlit("ingest `ts` for `");
        reveal_strlit("` is not a finite number");
        reveal_strlit("` is out of range");
        reveal_strlit("` is not RFC 3339: `");
        reveal_strlit("`");
        reveal_strlit("` must be epoch seconds or RFC 3339");
    }
    let mut m = "ingest `ts` for `".to_owned();
    cat(&mut m, source);
    match raw {
        None => Ok(arrival),
        Some(Json::Null) => Ok(arrival),
        Some(Json::Number { value, epoch }) => {
            if !value.is_finite() {
                cat(&mut m, "` is not a finite number");
                return Err(m);
            }
            match epoch {
                Some((s, n)) => match utc_instant(*s, *n) {
                    Some(x) => Ok(x),
                    None => {
                        cat(&mut m, "` is out of range");
                        Err(m)
                    },
                },
                None => {
                    cat(&mut m, "` is out of range");
                    Err(m)
                },
            }
        },
        Some(Json::Str(t)) => match parse_rfc3339(t.as_str()) {
            Some(x) => Ok(x),
            None => {
                cat(&mut m, "` is not RFC 3339: `");
                cat(&mut m, t.as_str());
                cat(&mut m, "`");
                Err(m)
            },
        },
        Some(_) => {
            cat(&mut m, "` must be epoch seconds or RFC 3339");
            Err(m)
        },
    }
}

/// Checking a pushed item for a source of type `vt` (`number`: its value,
/// trimmed, read as a double): declared bands must not be a lone band, the
/// timestamp must resolve, and the value must convert.
pub open spec fn spec_ingest_item(
    item: IngestItem,
    arrival: (int, Seq<char>),
    vt: ValueType,
    number: Option<Num>,
) -> Result<(Seq<char>, (int, Seq<char>)), Seq<char>> {
    if item.thresholds matches Some(b) && b@.len() == 1 {
        Err(crate::config::error::src_msg(item.source@, " needs at least 2 thresholds to form bands"@))
    } else {
        match spec_ingest_ts(item.ts, arrival, item.source@) {
            Err(e) => Err(e),
            Ok(t) => match spec_convert(ingest_text(item.value), number, vt) {
                Err(e) => Err(e),
                Ok(_) => Ok((ingest_text(item.value), t)),
            },
        }
    }
}

fn copy_bands(v: &Vec<Threshold>) -> (r: Vec<Threshold>)
    ensures
        r@ == v@,
{
    let mut out: Vec<Threshold> = Vec::new();
    let mut i: usize = 0;
    while i < v.len()
        invariant
            i <= v@.len(),
            out@ == v@.subrange(0, i as int),
        decreases v.len() - i,
    {
        out.push(v[i]);
        i = i + 1;
    }
    out
}

/// Turns a pushed item into a storable reading, or says why it is refused.
pub fn resolve_ingest_item(item: &IngestItem, arrival: (i64, String), value_type: ValueType, number: Option<Num>) -> (r: Result<
    ParsedOutput,
    String,
>)
    ensures
        match (r, spec_ingest_item(*item, (arrival.0 as int, arrival.1@), value_type, number)) {
            (Ok(p), Ok((v, t))) => {
                &&& p.value@ == v
                &&& p.ts_ms as int == t.0 && p.ts@ == t.1
                &&& match (p.threshold, item.thresholds) {
                    (Some(a), Some(b)) => a@ == b@,
                    (None, None) => true,
                    _ => false,
                }
            },
            (Err(e), Err(t)) => e@ == t,
            _ => false,
        },
        r matches Ok(p) ==> (value_type == ValueType::Bigint ==> spec_parse_i64(trim_spec(p.value@)) is Ok),
        r matches Ok(p) ==> (value_type == ValueType::Double ==> number is Some),
{
    let value = match &item.value {
        IngestValue::Text(t) => t.clone(),
        IngestValue::Other(t) => t.clone(),
    };
    match &item.thresholds {
        Some(b) => match crate::config::source::validate_thresholds(item.source.as_str(), b.as_slice()) {
            Err(e) => {
                return Err(e.message());
            },
            Ok(()) => {},
        },
        None => {},
    }
    let ts_raw: Option<&Json> = match &item.ts {
        Some(j) => Some(j),
        None => None,
    };
    let (ts_ms, ts) = match resolve_ingest_ts(ts_raw, arrival, item.source.as_str()) {
        Ok(x) => x,
        Err(e) => {
            return Err(e);
        },
    };
    match convert_value_type(value.as_str(), number, value_type) {
        Err(e) => {
            return Err(e);
        },
        Ok(_) => {},
    }
    let threshold = match &item.thresholds {
        Some(b) => Some(copy_bands(b)),
        None => None,
    };
    Ok(ParsedOutput { value, ts_ms, ts, threshold })
}

} // verus!
