//! Expanding composite `query` sources into addressable child sources.

use vstd::prelude::*;
use crate::config::Config;
use crate::config::error::{ConfigError, bad_name_tail, bq, composite_msg, error_text, src_msg};
use crate::config::source::{
    ChildDecl, SourceCfg, Threshold, opt_view, src_cron, src_effective_interval, src_name,
    src_timeout,
};
use crate::text::{all_name_chars, cat, is_name, str_eq};

verus! {

/// The full name of child `child` of the composite source `root`.
pub open spec fn child_full_name(root: Seq<char>, child: Seq<char>) -> Seq<char> {
    root + "::"@ + child
}

/// Whether `e` is the expanded entry for child `c` of the composite `root`:
/// the child's own display fields, the root's schedule and timeout.
pub open spec fn is_child_entry(e: SourceCfg, root: SourceCfg, c: ChildDecl) -> bool {
    match e {
        SourceCfg::Child {
            name,
            parent,
            title,
            unit,
            format,
            thresholds,
            history_points,
            show_history,
            show_in,
            value_type,
            effective_interval,
            cron,
            timeout,
        } => {
            &&& name@ == child_full_name(src_name(root), c.name@)
            &&& parent@ == src_name(root)
            &&& opt_view(title) == opt_view(c.title)
            &&& opt_view(unit) == opt_view(c.unit)
            &&& format == c.format
            &&& thresholds@ == c.thresholds@
            &&& history_points == c.history_points
            &&& show_history == c.show_history
            &&& show_in == c.show_in
            &&& value_type == c.value_type
            &&& effective_interval == src_effective_interval(root)
            &&& opt_view(cron) == src_cron(root)
            &&& timeout == src_timeout(root)
        },
        _ => false,
    }
}

/// The declared children of `s` when it is a `query` source with a
/// `children` list.
pub open spec fn declared_children(s: SourceCfg) -> Option<Seq<ChildDecl>> {
    match s {
        SourceCfg::Query { children: Some(cs), .. } => Some(cs@),
        _ => None,
    }
}

/// Every (root, child) pair that expansion produces an entry for, in order.
pub open spec fn expansion(srcs: Seq<SourceCfg>) -> Seq<(SourceCfg, ChildDecl)>
    decreases srcs.len(),
{
    if srcs.len() == 0 {
        Seq::empty()
    } else {
        let s = srcs[0];
        let here = match declared_children(s) {
            Some(cs) => cs.map_values(|c: ChildDecl| (s, c)),
            None => Seq::empty(),
        };
        here + expansion(srcs.drop_first())
    }
}

/// The name of the first source, from index `i` on, that is already a
/// child entry (children are only ever declared under a root).
pub open spec fn first_declared_child(srcs: Seq<SourceCfg>, i: int) -> Option<Seq<char>>
    decreases srcs.len() - i,
{
    if i < 0 || i >= srcs.len() {
        None
    } else if srcs[i] is Child {
        Some(src_name(srcs[i]))
    } else {
        first_declared_child(srcs, i + 1)
    }
}

/// The field a composite root must not declare, checked in order.
pub open spec fn root_field_problem(s: SourceCfg) -> Option<Seq<char>> {
    match s {
        SourceCfg::Query { unit, thresholds, value_type, format, show_history, .. } => if unit.is_some() {
            Some("unit"@)
        } else if thresholds@.len() > 0 {
            Some("thresholds"@)
        } else if value_type.is_some() {
            Some("value_type"@)
        } else if format.is_some() {
            Some("format"@)
        } else if show_history.is_some() {
            Some("show_history"@)
        } else {
            None
        },
        _ => None,
    }
}

/// Whether a child before index `j` has the same name as child `j`.
pub open spec fn child_repeats(cs: Seq<ChildDecl>, j: int) -> bool {
    exists|k: int| 0 <= k < j && (#[trigger] cs[k]).name@ == cs[j].name@
}

/// Scanning a root's children from index `j`: the first badly named or
/// repeated one.
pub open spec fn children_problem(root: Seq<char>, cs: Seq<ChildDecl>, j: int) -> Option<
    Seq<char>,
>
    decreases cs.len() - j,
{
    if j < 0 || j >= cs.len() {
        None
    } else if cs[j].name@.len() == 0 || !all_name_chars(cs[j].name@) {
        Some(composite_msg(root, " child "@ + bq(cs[j].name@) + bad_name_tail()))
    } else if child_repeats(cs, j) {
        Some(composite_msg(root, " has duplicate child "@ + bq(cs[j].name@)))
    } else {
        children_problem(root, cs, j + 1)
    }
}

/// The first rule the composite declaration of `s` breaks, if it is one.
pub open spec fn root_problem(s: SourceCfg) -> Option<Seq<char>> {
    match declared_children(s) {
        None => None,
        Some(cs) => if cs.len() == 0 {
            Some(composite_msg(src_name(s), " declares an empty `children` list"@))
        } else if root_field_problem(s).is_some() {
            Some(composite_msg(src_name(s), " must not declare "@ + bq(root_field_problem(s)->0)))
        } else {
            children_problem(src_name(s), cs, 0)
        },
    }
}

/// Scanning sources from index `i`: the first composite declaration that
/// breaks a rule.
pub open spec fn roots_problem(srcs: Seq<SourceCfg>, i: int) -> Option<Seq<char>>
    decreases srcs.len() - i,
{
    if i < 0 || i >= srcs.len() {
        None
    } else if root_problem(srcs[i]).is_some() {
        root_problem(srcs[i])
    } else {
        roots_problem(srcs, i + 1)
    }
}

/// Why expanding `srcs` is refused, as error text.
pub open spec fn expand_problem(srcs: Seq<SourceCfg>) -> Option<Seq<char>> {
    match first_declared_child(srcs, 0) {
        Some(n) => Some(
            src_msg(
                n,
                ": `child` is not a valid source `type` (children are declared under a parent's `children` list)"@,
            ),
        ),
        None => roots_problem(srcs, 0),
    }
}

fn clone_opt_string(o: &Option<String>) -> (r: Option<String>)
    ensures
        opt_view(r) == opt_view(*o),
{
    match o {
        Some(s) => Some(s.clone()),
        None => None,
    }
}

fn copy_thresholds(v: &Vec<Threshold>) -> (r: Vec<Threshold>)
    ensures
        r@ == v@,
{
    let mut out: Vec<Threshold> = Vec::new();
    let mut i: usize = 0;
    while i < v.len()
        invariant
            i <= v@.len(),
            out@ == v@.subrange(0, i as int),
        decreases v.len() - i,
    {
        out.push(v[i]);
        i = i + 1;
    }
    out
}

/// The expanded entry for child `c` of the composite `root`.
fn child_entry(root: &SourceCfg, c: &ChildDecl) -> (e: SourceCfg)
    ensures
        is_child_entry(e, *root, *c),
{
    let mut name = root.name().to_owned();
    proof {
        reveal_strlit("::");
    }
    cat(&mut name, "::");
    cat(&mut name, c.name.as_str());
    let cron = match root.cron() {
        Some(e) => Some(e.to_owned()),
        None => None,
    };
    SourceCfg::Child {
        name,
        parent: root.name().to_owned(),
        title: clone_opt_string(&c.title),
        unit: clone_opt_string(&c.unit),
        format: c.format,
        thresholds: copy_thresholds(&c.thresholds),
        history_points: c.history_points,
        show_history: c.show_history,
        show_in: c.show_in,
        value_type: c.value_type,
        effective_interval: root.effective_interval(),
        cron,
        timeout: root.timeout(),
    }
}

fn find_declared_child(srcs: &Vec<SourceCfg>) -> (r: Option<usize>)
    ensures
        r.is_some() == first_declared_child(srcs@, 0).is_some(),
        r matches Some(i) ==> i < srcs@.len() && first_declared_child(srcs@, 0) == Some(
            src_name(srcs@[i as int]),
        ),
{
    let mut i: usize = 0;
    while i < srcs.len()
        invariant
            i <= srcs@.len(),
            first_declared_child(srcs@, i as int) == first_declared_child(srcs@, 0),
        decreases srcs.len() - i,
    {
        if srcs[i].is_child() {
            return Some(i);
        }
        i = i + 1;
    }
    None
}

fn root_field_check(s: &SourceCfg) -> (r: Option<&'static str>)
    ensures
        r.is_some() == root_field_problem(*s).is_some(),
        r matches Some(f) ==> root_field_problem(*s) == Some(f@),
{
    proof {
        reveal_strlit("unit");
        reveal_strlit("thresholds");
        reveal_strlit("value_type");
        reveal_strlit("format");
        reveal_strlit("show_history");
    }
    match s {
        SourceCfg::Query { unit, thresholds, value_type, format, show_history, .. } => {
            if unit.is_some() {
                Some("unit")
            } else if thresholds.len() > 0 {
                Some("thresholds")
            } else if value_type.is_some() {
                Some("value_type")
            } else if format.is_some() {
                Some("format")
            } else if show_history.is_some() {
                Some("show_history")
            } else {
                None
            }
        },
        _ => None,
    }
}

fn repeats_earlier(cs: &Vec<ChildDecl>, j: usize) -> (r: bool)
    requires
        j < cs@.len(),
    ensures
        r == child_repeats(cs@, j as int),
{
    let mut k: usize = 0;
    while k < j
        invariant
            k <= j < cs@.len(),
            forall|m: int| 0 <= m < k ==> (#[trigger] cs@[m]).name@ != cs@[j as int].name@,
        decreases j - k,
    {
        if str_eq(cs[k].name.as_str(), cs[j].name.as_str()) {
            return true;
        }
        k = k + 1;
    }
    false
}

/// Checks one composite declaration and appends its expanded children.
fn expand_root(s: &SourceCfg, out: &mut Vec<SourceCfg>) -> (r: Result<(), ConfigError>)
    ensures
        r.is_err() == root_problem(*s).is_some(),
        r matches Err(e) ==> root_problem(*s) == Some(error_text(e)),
        r.is_ok() ==> ({
            let here = match declared_children(*s) {
                Some(cs) => cs.map_values(|c: ChildDecl| (*s, c)),
                None => Seq::empty(),
            };
            &&& final(out)@.len() == old(out)@.len() + here.len()
            &&& final(out)@.subrange(0, old(out)@.len() as int) == old(out)@
            &&& forall|k: int|
                0 <= k < here.len() ==> is_child_entry(
                    #[trigger] final(out)@[old(out)@.len() + k],
                    here[k].0,
                    here[k].1,
                )
        }),
{
    let children = match s {
        SourceCfg::Query { children: Some(cs), .. } => cs,
        _ => {
            return Ok(());
        },
    };
    let name = s.name();
    if children.len() == 0 {
        return Err(ConfigError::EmptyChildren(name.to_owned()));
    }
    match root_field_check(s) {
        Some(f) => {
            return Err(ConfigError::RootDeclares { name: name.to_owned(), field: f.to_owned() });
        },
        None => {},
    }
    let ghost cs = children@;
    let ghost start = out@.len();
    let mut j: usize = 0;
    while j < children.len()
        invariant
            j <= cs.len(),
            cs == children@,
            declared_children(*s) == Some(cs),
            name@ == src_name(*s),
            children_problem(name@, cs, j as int) == children_problem(name@, cs, 0),
            root_problem(*s) == children_problem(name@, cs, 0),
            start <= out@.len(),
            out@.len() == start + j,
            out@.subrange(0, start as int) == old(out)@,
            start == old(out)@.len(),
            forall|k: int| 0 <= k < j ==> is_child_entry(#[trigger] out@[start + k], *s, cs[k]),
        decreases children.len() - j,
    {
        let c = &children[j];
        if c.name.as_str().is_empty() || !is_name(c.name.as_str()) {
            return Err(ConfigError::BadChildName { name: name.to_owned(), child: c.name.clone() });
        }
        if repeats_earlier(children, j) {
            return Err(ConfigError::DuplicateChild { name: name.to_owned(), child: c.name.clone() });
        }
        let e = child_entry(s, c);
        let ghost before = out@;
        out.push(e);
        proof {
            assert(out@.subrange(0, start as int) =~= before.subrange(0, start as int));
            assert forall|k: int| 0 <= k < j + 1 implies is_child_entry(
                #[trigger] out@[start + k],
                *s,
                cs[k],
            ) by {
                if k < j {
                    assert(out@[start + k] == before[start + k]);
                }
            }
        }
        j = j + 1;
    }
    proof {
        let here = cs.map_values(|c: ChildDecl| (*s, c));
        assert forall|k: int| 0 <= k < here.len() implies is_child_entry(
            #[trigger] out@[start + k],
            here[k].0,
            here[k].1,
        ) by {
            assert(here[k] == (*s, cs[k]));
        }
    }
    Ok(())
}

proof fn lemma_expansion_step(srcs: Seq<SourceCfg>, i: int)
    requires
        0 <= i < srcs.len(),
    ensures
        expansion(srcs.subrange(i, srcs.len() as int)) == (match declared_children(srcs[i]) {
            Some(cs) => cs.map_values(|c: ChildDecl| (srcs[i], c)),
            None => Seq::empty(),
        }) + expansion(srcs.subrange(i + 1, srcs.len() as int)),
{
    let t = srcs.subrange(i, srcs.len() as int);
    assert(t[0] == srcs[i]);
    assert(t.drop_first() =~= srcs.subrange(i + 1, srcs.len() as int));
}

/// Expands every composite `query` source's declared children into child
/// entries appended to `sources`, after checking the composite
/// declarations; on a refusal nothing changes.
pub fn expand_composites(cfg: &mut Config) -> (r: Result<(), ConfigError>)
    ensures
        r.is_err() == expand_problem(old(cfg).sources@).is_some(),
        r matches Err(e) ==> expand_problem(old(cfg).sources@) == Some(error_text(e)),
        r.is_err() ==> *final(cfg) == *old(cfg),
        r.is_ok() ==> ({
            let ex = expansion(old(cfg).sources@);
            let n = old(cfg).sources@.len();
            &&& final(cfg).sources@.len() == n + ex.len()
            &&& final(cfg).sources@.subrange(0, n as int) == old(cfg).sources@
            &&& forall|k: int|
                0 <= k < ex.len() ==> is_child_entry(
                    #[trigger] final(cfg).sources@[n + k],
                    ex[k].0,
                    ex[k].1,
                )
        }),
        final(cfg).layouts == old(cfg).layouts,
        final(cfg).database_path == old(cfg).database_path,
        final(cfg).listen == old(cfg).listen,
        final(cfg).interval == old(cfg).interval,
        final(cfg).failure_threshold == old(cfg).failure_threshold,
        final(cfg).stale_after == old(cfg).stale_after,
        final(cfg).history_points == old(cfg).history_points,
        final(cfg).retention == old(cfg).retention,
        final(cfg).tui_width == old(cfg).tui_width,
        final(cfg).config_dir == old(cfg).config_dir,
{
    match find_declared_child(&cfg.sources) {
        Some(i) => {
            return Err(ConfigError::ChildTypeDeclared(cfg.sources[i].name().to_owned()));
        },
        None => {},
    }
    let ghost srcs = cfg.sources@;
    let mut expanded: Vec<SourceCfg> = Vec::new();
    let mut i: usize = 0;
    assert(srcs.subrange(0, srcs.len() as int) =~= srcs);
    while i < cfg.sources.len()
        invariant
            i <= srcs.len(),
            srcs == cfg.sources@,
            first_declared_child(srcs, 0).is_none(),
            roots_problem(srcs, i as int) == roots_problem(srcs, 0),
            expansion(srcs) == expansion(srcs.subrange(0, i as int)) + expansion(
                srcs.subrange(i as int, srcs.len() as int),
            ),
            expanded@.len() == expansion(srcs.subrange(0, i as int)).len(),
            forall|k: int|
                0 <= k < expanded@.len() ==> is_child_entry(
                    #[trigger] expanded@[k],
                    expansion(srcs)[k].0,
                    expansion(srcs)[k].1,
                ),
        decreases srcs.len() - i,
    {
        let ghost before = expanded@;
        let r = expand_root(&cfg.sources[i], &mut expanded);
        if r.is_err() {
            return r;
        }
        proof {
            lemma_expansion_step(srcs, i as int);
            let here = match declared_children(srcs[i as int]) {
                Some(cs) => cs.map_values(|c: ChildDecl| (srcs[i as int], c)),
                None => Seq::empty(),
            };
            let pre = expansion(srcs.subrange(0, i as int));
            let post = expansion(srcs.subrange(i as int + 1, srcs.len() as int));
            lemma_expansion_prefix(srcs, i as int);
            assert(expansion(srcs.subrange(0, i as int + 1)) == pre + here);
            assert(expansion(srcs) == (pre + here) + post) by {
                assert(pre + (here + post) =~= (pre + here) + post);
            }
            assert forall|k: int| 0 <= k < expanded@.len() implies is_child_entry(
                #[trigger] expanded@[k],
                expansion(srcs)[k].0,
                expansion(srcs)[k].1,
            ) by {
                if k < before.len() {
                    assert(expanded@[k] == expanded@.subrange(0, before.len() as int)[k]);
                } else {
                    assert(expansion(srcs)[k] == here[k - pre.len()]);
                    assert(expanded@[k] == expanded@[before.len() + (k - before.len())]);
                }
            }
        }
        i = i + 1;
    }
    proof {
        assert(srcs.subrange(0, srcs.len() as int) =~= srcs);
        assert(srcs.subrange(srcs.len() as int, srcs.len() as int) =~= Seq::<SourceCfg>::empty());
        assert(expansion(Seq::<SourceCfg>::empty()) =~= Seq::<(SourceCfg, ChildDecl)>::empty());
        assert(expansion(srcs) =~= expansion(srcs.subrange(0, srcs.len() as int)));
    }
    let ghost n = srcs.len();
    let ghost ex = expanded@;
    cfg.sources.append(&mut expanded);
    proof {
        assert(cfg.sources@.subrange(0, n as int) =~= srcs);
        assert forall|k: int| 0 <= k < ex.len() implies is_child_entry(
            #[trigger] cfg.sources@[n + k],
            expansion(srcs)[k].0,
            expansion(srcs)[k].1,
        ) by {
            assert(cfg.sources@[n + k] == ex[k]);
        }
    }
    Ok(())
}

proof fn lemma_expansion_prefix(srcs: Seq<SourceCfg>, i: int)
    requires
        0 <= i < srcs.len(),
    ensures
        expansion(srcs.subrange(0, i + 1)) == expansion(srcs.subrange(0, i)) + (match declared_children(srcs[i]) {
            Some(cs) => cs.map_values(|c: ChildDecl| (srcs[i], c)),
            None => Seq::empty(),
        }),
    decreases i,
{
    let here = match declared_children(srcs[i]) {
        Some(cs) => cs.map_values(|c: ChildDecl| (srcs[i], c)),
        None => Seq::empty(),
    };
    if i == 0 {
        let t = srcs.subrange(0, 1);
        assert(t.drop_first() =~= Seq::<SourceCfg>::empty());
        assert(srcs.subrange(0, 0) =~= Seq::<SourceCfg>::empty());
        assert(expansion(Seq::<SourceCfg>::empty()) =~= Seq::<(SourceCfg, ChildDecl)>::empty());
        assert(here + Seq::<(SourceCfg, ChildDecl)>::empty() =~= here);
        assert(Seq::<(SourceCfg, ChildDecl)>::empty() + here =~= here);
    } else {
        let a = srcs.subrange(0, i + 1);
        let b = srcs.subrange(1, srcs.len() as int);
        lemma_expansion_prefix(b, i - 1);
        assert(a.drop_first() =~= b.subrange(0, i));
        assert(srcs.subrange(0, i).drop_first() =~= b.subrange(0, i - 1));
        assert(b[i - 1] == srcs[i]);
        let h0 = match declared_children(srcs[0]) {
            Some(cs) => cs.map_values(|c: ChildDecl| (srcs[0], c)),
            None => Seq::empty(),
        };
        assert(a[0] == srcs[0]);
        assert(srcs.subrange(0, i)[0] == srcs[0]);
        assert(h0 + (expansion(b.subrange(0, i - 1)) + here) =~= (h0 + expansion(
            b.subrange(0, i - 1),
        )) + here);
    }
}

} // verus!
