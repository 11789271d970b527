//! `BARDUCK_*` environment overrides of the top-level settings, and the
//! unsigned-integer syntax they are written in.

use vstd::prelude::*;
use crate::config::Config;
use crate::config::error::{ConfigError, bq, error_text};
use crate::config::layout::TuiWidth;
use crate::outside::{HUMANTIME_MAX_DIGITS, humantime_nanos, parse_humantime};
use crate::text::{chars_of, count_digits, digit_count, str_eq, trim, trim_spec};

verus! {

pub open spec fn is_digit(c: char) -> bool {
    '0' <= c && c <= '9'
}

pub open spec fn all_digits(s: Seq<char>) -> bool {
    forall|i: int| 0 <= i < s.len() ==> is_digit(#[trigger] s[i])
}

/// The number a string of decimal digits denotes.
pub open spec fn digits_value(s: Seq<char>) -> nat
    decreases s.len(),
{
    if s.len() == 0 {
        0
    } else {
        digits_value(s.drop_last()) * 10 + ((s.last() as nat) - 48) as nat
    }
}

/// What std's `FromStr` for an unsigned integer type with maximum `max`
/// gives for `s`: an optional `+`, then at least one ASCII digit, and a
/// value no larger than `max`.
pub open spec fn parse_unsigned(s: Seq<char>, max: nat) -> Option<nat> {
    let ds = if s.len() > 0 && s[0] == '+' {
        s.drop_first()
    } else {
        s
    };
    if ds.len() == 0 || !all_digits(ds) || digits_value(ds) > max {
        None
    } else {
        Some(digits_value(ds))
    }
}

proof fn lemma_digits_grow(s: Seq<char>)
    requires
        s.len() > 0,
        all_digits(s),
    ensures
        digits_value(s) >= digits_value(s.drop_last()),
{
}

/// Parses `s` as std parses an unsigned integer no larger than `max`.
fn parse_unsigned_upto(s: &str, max: u64) -> (r: Option<u64>)
    requires
        max >= 9,
    ensures
        r.is_some() == parse_unsigned(s@, max as nat).is_some(),
        r matches Some(n) ==> parse_unsigned(s@, max as nat) == Some(n as nat),
{
    let v = chars_of(s);
    let start: usize = if v.len() > 0 && v[0] == '+' {
        1
    } else {
        0
    };
    let ghost ds = if s@.len() > 0 && s@[0] == '+' {
        s@.drop_first()
    } else {
        s@
    };
    assert(ds =~= v@.subrange(start as int, v@.len() as int));
    if start >= v.len() {
        return None;
    }
    let mut acc: u64 = 0;
    let mut over = false;
    let mut i: usize = start;
    assert(v@.subrange(start as int, start as int) =~= Seq::<char>::empty());
    while i < v.len()
        invariant
            start <= i <= v@.len(),
            max >= 9,
            v@ == s@,
            ds == (if s@.len() > 0 && s@[0] == '+' {
                s@.drop_first()
            } else {
                s@
            }),
            ds == v@.subrange(start as int, v@.len() as int),
            all_digits(v@.subrange(start as int, i as int)),
            !over ==> acc == digits_value(v@.subrange(start as int, i as int)),
            !over ==> acc <= max,
            over ==> digits_value(v@.subrange(start as int, i as int)) > max,
        decreases v.len() - i,
    {
        let c = v[i];
        if !('0' <= c && c <= '9') {
            assert(ds[i - start] == c);
            assert(!is_digit(ds[i - start]));
            return None;
        }
        let ghost pre = v@.subrange(start as int, i as int);
        let ghost next = v@.subrange(start as int, i + 1);
        assert(next.drop_last() =~= pre);
        assert(next.last() == c);
        let d: u64 = (c as u64) - 48;
        assert(d <= 9);
        proof {
            lemma_digits_grow(next);
        }
        if !over {
            if acc > (max - d) / 10 {
                over = true;
                assert(acc * 10 + d > max) by (nonlinear_arith)
                    requires
                        acc > (max - d) / 10,
                        d <= max,
                ;
            } else {
                assert(acc * 10 + d <= max) by (nonlinear_arith)
                    requires
                        acc <= (max - d) / 10,
                        d <= max,
                ;
                acc = acc * 10 + d;
            }
        }
        i = i + 1;
    }
    assert(v@.subrange(start as int, i as int) =~= ds);
    if over {
        None
    } else {
        Some(acc)
    }
}

/// The value of the first `(name, value)` pair named `name`.
pub open spec fn env_lookup(vars: Seq<(String, String)>, name: Seq<char>) -> Option<Seq<char>>
    decreases vars.len(),
{
    if vars.len() == 0 {
        None
    } else if vars[0].0@ == name {
        Some(vars[0].1@)
    } else {
        env_lookup(vars.drop_first(), name)
    }
}

fn lookup<'a>(vars: &'a [(String, String)], name: &str) -> (r: Option<&'a str>)
    ensures
        r.is_some() == env_lookup(vars@, name@).is_some(),
        r matches Some(v) ==> env_lookup(vars@, name@) == Some(v@),
{
    let mut i: usize = 0;
    assert(vars@.skip(0) =~= vars@);
    while i < vars.len()
        invariant
            i <= vars@.len(),
            env_lookup(vars@.skip(i as int), name@) == env_lookup(vars@, name@),
        decreases vars.len() - i,
    {
        assert(vars@.skip(i as int)[0] == vars@[i as int]);
        assert(vars@.skip(i as int).drop_first() =~= vars@.skip(i + 1));
        if str_eq(vars[i].0.as_str(), name) {
            return Some(vars[i].1.as_str());
        }
        i = i + 1;
    }
    assert(vars@.skip(i as int) =~= Seq::<(String, String)>::empty());
    None
}

/// `BARDUCK_FAILURE_THRESHOLD` and the like: surrounding whitespace is
/// ignored.
pub open spec fn env_u32(v: Seq<char>) -> Option<nat> {
    parse_unsigned(trim_spec(v), u32::MAX as nat)
}

/// `BARDUCK_TUI_WIDTH`: exactly `auto` (`Some(None)`), or a column count.
pub open spec fn env_tui_width(v: Seq<char>) -> Option<Option<nat>> {
    if v == "auto"@ {
        Some(None)
    } else {
        match parse_unsigned(trim_spec(v), u16::MAX as nat) {
            Some(n) => Some(Some(n)),
            None => None,
        }
    }
}

/// Whether `w` is the width `v` denotes.
pub open spec fn tui_width_from(v: Seq<char>, w: TuiWidth) -> bool {
    match env_tui_width(v) {
        Some(None) => w matches TuiWidth::Named(s) && s@ == "auto"@,
        Some(Some(n)) => w == TuiWidth::Fixed(n as u16),
        None => false,
    }
}

/// Parses an unsigned 32-bit override value.
pub fn parse_env_u32(var: &str, v: &str) -> (r: Result<u32, ConfigError>)
    ensures
        r.is_ok() == env_u32(v@).is_some(),
        r matches Ok(n) ==> env_u32(v@) == Some(n as nat),
        r matches Err(e) ==> (e matches ConfigError::EnvInvalid { var: a, value: b } && a@ == var@
            && b@ == v@),
{
    let t = trim(v);
    match parse_unsigned_upto(t.as_str(), 4294967295u64) {
        Some(n) => Ok(n as u32),
        None => Err(ConfigError::EnvInvalid { var: var.to_owned(), value: v.to_owned() }),
    }
}

/// Parses a `BARDUCK_TUI_WIDTH` override value.
pub fn parse_env_tui_width(v: &str) -> (r: Result<TuiWidth, ConfigError>)
    ensures
        r.is_ok() == env_tui_width(v@).is_some(),
        r matches Ok(w) ==> tui_width_from(v@, w),
        r matches Err(e) ==> (e matches ConfigError::EnvInvalid { var: a, value: b } && a@
            == "BARDUCK_TUI_WIDTH"@ && b@ == v@),
{
    proof {
        reveal_strlit("auto");
        reveal_strlit("BARDUCK_TUI_WIDTH");
    }
    if str_eq(v, "auto") {
        return Ok(TuiWidth::Named("auto".to_owned()));
    }
    let t = trim(v);
    match parse_unsigned_upto(t.as_str(), 65535u64) {
        Some(n) => Ok(TuiWidth::Fixed(n as u16)),
        None => Err(
            ConfigError::EnvInvalid { var: "BARDUCK_TUI_WIDTH".to_owned(), value: v.to_owned() },
        ),
    }
}

/// A duration override's value: what humantime reads it as, for a text of
/// at most `HUMANTIME_MAX_DIGITS` digits; a longer one is refused.
pub open spec fn env_duration(v: Seq<char>) -> Option<u128> {
    if digit_count(v) <= HUMANTIME_MAX_DIGITS {
        humantime_nanos(v)
    } else {
        None
    }
}

fn parse_env_duration(var: &str, v: &str) -> (r: Result<u128, ConfigError>)
    ensures
        r.is_ok() == env_duration(v@).is_some(),
        r matches Ok(n) ==> env_duration(v@) == Some(n),
        r matches Err(e) ==> (e matches ConfigError::EnvInvalid { var: a, value: b } && a@ == var@
            && b@ == v@),
{
    if count_digits(v) > HUMANTIME_MAX_DIGITS {
        return Err(ConfigError::EnvInvalid { var: var.to_owned(), value: v.to_owned() });
    }
    match parse_humantime(v) {
        Some(n) => Ok(n),
        None => Err(ConfigError::EnvInvalid { var: var.to_owned(), value: v.to_owned() }),
    }
}

pub open spec fn env_error_text(var: Seq<char>, value: Seq<char>) -> Seq<char> {
    "environment variable "@ + bq(var) + " value "@ + bq(value) + " is invalid"@
}

/// Whether the override of `name`, if set, is valid under `ok`.
pub open spec fn stage_ok(
    vars: Seq<(String, String)>,
    name: Seq<char>,
    ok: spec_fn(Seq<char>) -> bool,
) -> bool {
    match env_lookup(vars, name) {
        Some(v) => ok(v),
        None => true,
    }
}

pub open spec fn duration_ok() -> spec_fn(Seq<char>) -> bool {
    |v: Seq<char>| env_duration(v).is_some()
}

pub open spec fn u32_ok() -> spec_fn(Seq<char>) -> bool {
    |v: Seq<char>| env_u32(v).is_some()
}

pub open spec fn tui_width_ok() -> spec_fn(Seq<char>) -> bool {
    |v: Seq<char>| env_tui_width(v).is_some()
}

/// The names of the checked overrides, in the order they are applied.
pub open spec fn stage_name(k: int) -> Seq<char> {
    if k == 0 {
        "BARDUCK_INTERVAL"@
    } else if k == 1 {
        "BARDUCK_FAILURE_THRESHOLD"@
    } else if k == 2 {
        "BARDUCK_STALE_AFTER"@
    } else if k == 3 {
        "BARDUCK_HISTORY_POINTS"@
    } else {
        "BARDUCK_TUI_WIDTH"@
    }
}

pub open spec fn stage_check(k: int) -> spec_fn(Seq<char>) -> bool {
    if k == 0 || k == 2 {
        duration_ok()
    } else if k == 1 || k == 3 {
        u32_ok()
    } else {
        tui_width_ok()
    }
}

/// Every checked override before stage `k` is unset or valid.
pub open spec fn stages_ok_before(vars: Seq<(String, String)>, k: int) -> bool {
    forall|j: int| 0 <= j < k ==> #[trigger] stage_ok(vars, stage_name(j), stage_check(j))
}

/// The first invalid override, as error text.
pub open spec fn env_problem(vars: Seq<(String, String)>) -> Option<Seq<char>> {
    if exists|k: int| 0 <= k < 5 && !stage_ok(vars, stage_name(k), stage_check(k)) {
        let k = choose|k: int|
            0 <= k < 5 && !stage_ok(vars, stage_name(k), stage_check(k)) && stages_ok_before(
                vars,
                k,
            );
        Some(env_error_text(stage_name(k), env_lookup(vars, stage_name(k))->0))
    } else {
        None
    }
}

/// The value a text override leaves a field with.
pub open spec fn text_after(vars: Seq<(String, String)>, name: Seq<char>, old: Seq<char>) -> Seq<
    char,
> {
    match env_lookup(vars, name) {
        Some(v) => v,
        None => old,
    }
}

/// Overrides top-level settings from `BARDUCK_<FIELD>` variables, given as
/// `(name, value)` pairs (the first pair with a name wins). They are applied
/// in order; an invalid value stops there with an error, the ones before it
/// applied.
pub fn apply_env_overrides_from(cfg: &mut Config, vars: &[(String, String)]) -> (r: Result<
    (),
    ConfigError,
>)
    ensures
        r.is_err() == env_problem(vars@).is_some(),
        r matches Err(e) ==> env_problem(vars@) == Some(error_text(e)),
        final(cfg).database_path@ == text_after(
            vars@,
            "BARDUCK_DATABASE_PATH"@,
            old(cfg).database_path@,
        ),
        final(cfg).listen@ == text_after(vars@, "BARDUCK_LISTEN"@, old(cfg).listen@),
        final(cfg).interval == (match env_lookup(vars@, stage_name(0)) {
            Some(v) if stages_ok_before(vars@, 1) => env_duration(v)->0,
            _ => old(cfg).interval,
        }),
        final(cfg).failure_threshold == (match env_lookup(vars@, stage_name(1)) {
            Some(v) if stages_ok_before(vars@, 2) => env_u32(v)->0 as u32,
            _ => old(cfg).failure_threshold,
        }),
        final(cfg).stale_after == (match env_lookup(vars@, stage_name(2)) {
            Some(v) if stages_ok_before(vars@, 3) => env_duration(v)->0,
            _ => old(cfg).stale_after,
        }),
        final(cfg).history_points == (match env_lookup(vars@, stage_name(3)) {
            Some(v) if stages_ok_before(vars@, 4) => env_u32(v)->0 as u32,
            _ => old(cfg).history_points,
        }),
        (match env_lookup(vars@, stage_name(4)) {
            Some(v) if stages_ok_before(vars@, 5) => tui_width_from(v, final(cfg).tui_width),
            _ => final(cfg).tui_width == old(cfg).tui_width,
        }),
        final(cfg).sources == old(cfg).sources,
        final(cfg).layouts == old(cfg).layouts,
        final(cfg).retention == old(cfg).retention,
        final(cfg).config_dir == old(cfg).config_dir,
{
    proof {
        reveal_strlit("BARDUCK_DATABASE_PATH");
        reveal_strlit("BARDUCK_LISTEN");
        reveal_strlit("BARDUCK_INTERVAL");
        reveal_strlit("BARDUCK_FAILURE_THRESHOLD");
        reveal_strlit("BARDUCK_STALE_AFTER");
        reveal_strlit("BARDUCK_HISTORY_POINTS");
        reveal_strlit("BARDUCK_TUI_WIDTH");
    }
    if let Some(v) = lookup(vars, "BARDUCK_DATABASE_PATH") {
        cfg.database_path = v.to_owned();
    }
    if let Some(v) = lookup(vars, "BARDUCK_LISTEN") {
        cfg.listen = v.to_owned();
    }
    assert(stages_ok_before(vars@, 0));
    if let Some(v) = lookup(vars, "BARDUCK_INTERVAL") {
        match parse_env_duration("BARDUCK_INTERVAL", v) {
            Ok(n) => {
                cfg.interval = n;
            },
            Err(e) => {
                proof {
                    lemma_first_bad(vars@, 0);
                }
                return Err(e);
            },
        }
    }
    assert(stage_ok(vars@, stage_name(0), stage_check(0)));
    assert(stages_ok_before(vars@, 1));
    if let Some(v) = lookup(vars, "BARDUCK_FAILURE_THRESHOLD") {
        match parse_env_u32("BARDUCK_FAILURE_THRESHOLD", v) {
            Ok(n) => {
                cfg.failure_threshold = n;
            },
            Err(e) => {
                proof {
                    lemma_first_bad(vars@, 1);
                }
                return Err(e);
            },
        }
    }
    assert(stage_ok(vars@, stage_name(1), stage_check(1)));
    assert(stages_ok_before(vars@, 2));
    if let Some(v) = lookup(vars, "BARDUCK_STALE_AFTER") {
        match parse_env_duration("BARDUCK_STALE_AFTER", v) {
            Ok(n) => {
                cfg.stale_after = n;
            },
            Err(e) => {
                proof {
                    lemma_first_bad(vars@, 2);
                }
                return Err(e);
            },
        }
    }
    assert(stage_ok(vars@, stage_name(2), stage_check(2)));
    assert(stages_ok_before(vars@, 3));
    if let Some(v) = lookup(vars, "BARDUCK_HISTORY_POINTS") {
        match parse_env_u32("BARDUCK_HISTORY_POINTS", v) {
            Ok(n) => {
                cfg.history_points = n;
            },
            Err(e) => {
                proof {
                    lemma_first_bad(vars@, 3);
                }
                return Err(e);
            },
        }
    }
    assert(stage_ok(vars@, stage_name(3), stage_check(3)));
    assert(stages_ok_before(vars@, 4));
    if let Some(v) = lookup(vars, "BARDUCK_TUI_WIDTH") {
        match parse_env_tui_width(v) {
            Ok(w) => {
                cfg.tui_width = w;
            },
            Err(e) => {
                proof {
                    lemma_first_bad(vars@, 4);
                }
                return Err(e);
            },
        }
    }
    assert(stage_ok(vars@, stage_name(4), stage_check(4)));
    assert(stages_ok_before(vars@, 5));
    proof {
        if exists|k: int| 0 <= k < 5 && !stage_ok(vars@, stage_name(k), stage_check(k)) {
            let k = choose|k: int| 0 <= k < 5 && !stage_ok(vars@, stage_name(k), stage_check(k));
            assert(stages_ok_before(vars@, 5));
            assert(stage_ok(vars@, stage_name(k), stage_check(k)));
        }
    }
    Ok(())
}

proof fn lemma_first_bad(vars: Seq<(String, String)>, k: int)
    requires
        0 <= k < 5,
        stages_ok_before(vars, k),
        !stage_ok(vars, stage_name(k), stage_check(k)),
    ensures
        env_problem(vars) == Some(env_error_text(stage_name(k), env_lookup(vars, stage_name(k))->0)),
        forall|m: int| k < m ==> !stages_ok_before(vars, m),
{
    let j = choose|j: int|
        0 <= j < 5 && !stage_ok(vars, stage_name(j), stage_check(j)) && stages_ok_before(vars, j);
    assert(0 <= j < 5 && !stage_ok(vars, stage_name(j), stage_check(j)) && stages_ok_before(
        vars,
        j,
    ));
    if j < k {
        assert(stage_ok(vars, stage_name(j), stage_check(j)));
    }
    if k < j {
        assert(stage_ok(vars, stage_name(k), stage_check(k)));
    }
    assert forall|m: int| k < m implies !stages_ok_before(vars, m) by {
        assert(!stage_ok(vars, stage_name(k), stage_check(k)));
    }
}

} // verus!
