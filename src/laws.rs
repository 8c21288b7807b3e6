//! Properties that hold across the renderer's operations.
use vstd::prelude::*;
use crate::config::Config;
use crate::layer::{
    close_effect, event_effect, event_line, new_span_effect, path_of, retrace, retrace_step,
    retrace_steps, span_unit, EventRecord, NewSpan, SpanData,
};
use crate::render::{
    block_text, each_line, tree_block, unit_text, wrap_marker, wraps, SpanMode,
    LINE_CLOSE, LINE_OPEN,
};
use crate::retrace::path_suffix;

verus! {

/// Once an event in a span has been printed, a further event in the same
/// span prints no banner of any span, only its own line, and changes
/// nothing else.
pub proof fn law_repeated_event_prints_only_its_line(
    cfg: Config,
    prefix: Seq<char>,
    spans: Map<u64, SpanData>,
    current: Option<u64>,
    first: EventRecord,
    second: EventRecord,
    time1: Seq<char>,
    stamp1: Seq<char>,
    time2: Seq<char>,
    stamp2: Seq<char>,
)
    requires
        first.span is Some,
        second.span == first.span,
    ensures
        ({
            let (o1, m1, c1) = event_effect(cfg, prefix, spans, current, first, time1, stamp1);
            let (o2, m2, c2) = event_effect(cfg, prefix, m1, c1, second, time2, stamp2);
            &&& o2 == event_line(cfg, prefix, m1, second, time2, stamp2)
            &&& m2 == m1
            &&& c2 == c1
        }),
{
    let (o1, m1, c1) = event_effect(cfg, prefix, spans, current, first, time1, stamp1);
    let (o2, m2, c2) = event_effect(cfg, prefix, m1, c1, second, time2, stamp2);
    assert(o2 =~= event_line(cfg, prefix, m1, second, time2, stamp2));
}

/// Going from the path `[r, a, b]` to the path `[r, a, c]` prints `c`
/// alone: it opens if it was never printed and is retraced otherwise.
pub proof fn law_sibling_paths_print_the_new_leaf(
    cfg: Config,
    prefix: Seq<char>,
    spans: Map<u64, SpanData>,
    r: u64,
    a: u64,
    b: u64,
    c: u64,
)
    requires
        b != c,
        spans.contains_key(c),
    ensures
        path_suffix(seq![r, a, b], seq![r, a, c]) == seq![c],
        retrace_steps(cfg, prefix, spans, seq![c], false).0 == span_unit(
            cfg,
            prefix,
            spans[c],
            if spans[c].written {
                SpanMode::Retrace { verbose: false }
            } else {
                SpanMode::Open { verbose: false }
            },
        ),
{
    let x = seq![r, a, b];
    let y = seq![r, a, c];
    assert(x.drop_first() =~= seq![a, b]);
    assert(y.drop_first() =~= seq![a, c]);
    assert(seq![a, b].drop_first() =~= seq![b]);
    assert(seq![a, c].drop_first() =~= seq![c]);
    assert(crate::retrace::common_prefix_len(seq![b], seq![c]) == 0);
    assert(seq![b][0] != seq![c][0]);
    assert(seq![a, b][0] == seq![a, c][0]);
    assert(crate::retrace::common_prefix_len(seq![a, b], seq![a, c]) == 1);
    assert(x[0] == y[0]);
    assert(crate::retrace::common_prefix_len(x, y) == 2);
    assert(y.skip(2) =~= seq![c]);
    assert(seq![c].drop_first() =~= Seq::<u64>::empty());
    let st = retrace_step(cfg, prefix, spans, c, false);
    assert(retrace_steps(cfg, prefix, st.1, Seq::<u64>::empty(), false).0 =~= Seq::<char>::empty());
    assert(retrace_steps(cfg, prefix, spans, seq![c], false).0 =~= st.0);
}

/// When the span to print is the span in focus, reconciling prints
/// nothing and changes nothing.
pub proof fn law_focused_span_reconciles_to_nothing(
    cfg: Config,
    prefix: Seq<char>,
    spans: Map<u64, SpanData>,
    id: u64,
    pre_open: bool,
)
    ensures
        retrace(cfg, prefix, spans, Some(id), id, pre_open) == (Seq::<char>::empty(), spans),
{
}

/// Moving the focus from a span to a sibling (two spans whose paths share
/// everything but the last span) prints the sibling alone: it opens if it
/// was never printed and is retraced otherwise, and it is marked printed;
/// nothing is printed for the common ancestors.
pub proof fn law_sibling_reconciliation(
    cfg: Config,
    prefix: Seq<char>,
    spans: Map<u64, SpanData>,
    base: Seq<u64>,
    x: u64,
    y: u64,
)
    requires
        x != y,
        path_of(spans, x) == base.push(x),
        path_of(spans, y) == base.push(y),
    ensures
        retrace(cfg, prefix, spans, Some(x), y, false) == (
            span_unit(
                cfg,
                prefix,
                spans[y],
                if spans[y].written {
                    SpanMode::Retrace { verbose: false }
                } else {
                    SpanMode::Open { verbose: false }
                },
            ),
            crate::layer::mark_written(spans, y),
        ),
{
    let px = base.push(x);
    let py = base.push(y);
    let n = base.len() as int;
    assert(px.take(n) =~= base);
    assert(py.take(n) =~= base);
    crate::retrace::lemma_common_prefix_skip(px, py, n);
    assert(px.skip(n) =~= seq![x]);
    assert(py.skip(n) =~= seq![y]);
    assert(seq![x][0] != seq![y][0]);
    assert(crate::retrace::common_prefix_len(seq![x], seq![y]) == 0);
    assert(path_suffix(px, py) =~= seq![y]);
    assert(spans.contains_key(y)) by {
        assert(path_of(spans, y).len() > 0);
    }
    assert(seq![y].drop_first() =~= Seq::<u64>::empty());
    let st = retrace_step(cfg, prefix, spans, y, false);
    let mode = if spans[y].written {
        SpanMode::Retrace { verbose: false }
    } else {
        SpanMode::Open { verbose: false }
    };
    assert(st.0 =~= span_unit(cfg, prefix, spans[y], mode));
    assert(st.1 == crate::layer::mark_written(spans, y));
    let rest = retrace_steps(cfg, prefix, st.1, Seq::<u64>::empty(), false);
    assert(rest.0 =~= Seq::<char>::empty());
    assert(rest.1 == st.1);
    let all = retrace_steps(cfg, prefix, spans, seq![y], false);
    assert(all.0 =~= st.0 + rest.0);
    assert(all.1 == rest.1);
    assert(Some(x) != Some(y));
    assert(retrace(cfg, prefix, spans, Some(x), y, false) == all);
}

/// What the reconciling steps leave of a span that is not among the spans
/// they print.
proof fn lemma_steps_keep_others(
    cfg: Config,
    prefix: Seq<char>,
    spans: Map<u64, SpanData>,
    ids: Seq<u64>,
    pre_open: bool,
    x: u64,
)
    requires
        !ids.contains(x),
    ensures
        retrace_steps(cfg, prefix, spans, ids, pre_open).1.contains_key(x) == spans.contains_key(x),
        spans.contains_key(x) ==> retrace_steps(cfg, prefix, spans, ids, pre_open).1[x] == spans[x],
    decreases ids.len(),
{
    if ids.len() > 0 {
        let m1 = retrace_step(cfg, prefix, spans, ids[0], pre_open).1;
        assert(ids[0] != x);
        assert(!ids.drop_first().contains(x)) by {
            if ids.drop_first().contains(x) {
                let k = choose|k: int| 0 <= k < ids.drop_first().len() && ids.drop_first()[k] == x;
                assert(ids[k + 1] == x);
            }
        }
        lemma_steps_keep_others(cfg, prefix, m1, ids.drop_first(), false, x);
    }
}

/// In deferred mode a span is silent until an event happens within it:
/// creating it prints nothing and records it as not printed; an event
/// elsewhere (in a span whose path does not hold it, or in no span) leaves
/// it not printed; and closing it while it is not printed prints nothing.
pub proof fn law_deferred_span_stays_silent(
    cfg: Config,
    prefix: Seq<char>,
    spans: Map<u64, SpanData>,
    current: Option<u64>,
    ns: NewSpan,
    ev: EventRecord,
    time: Seq<char>,
    stamp: Seq<char>,
    x: u64,
)
    requires
        cfg.deferred_spans,
    ensures
        new_span_effect(cfg, prefix, spans, current, ns).0 == Seq::<char>::empty(),
        !spans.contains_key(ns.id) ==> !new_span_effect(cfg, prefix, spans, current, ns).1[ns.id].written,
        spans.contains_key(x) && !spans[x].written && (ev.span is None || !path_of(
            spans,
            ev.span->0,
        ).contains(x)) ==> ({
            let m = event_effect(cfg, prefix, spans, current, ev, time, stamp).1;
            m.contains_key(x) && !m[x].written
        }),
        spans.contains_key(x) && !spans[x].written ==> close_effect(
            cfg,
            prefix,
            spans,
            current,
            x,
        ).0 == Seq::<char>::empty(),
{
    if spans.contains_key(x) && !spans[x].written && ev.span is Some && !path_of(
        spans,
        ev.span->0,
    ).contains(x) && ev.span != current {
        let n = ev.span->0;
        let old_path = match current {
            Some(p) => path_of(spans, p),
            None => Seq::empty(),
        };
        let new_path = path_of(spans, n);
        crate::retrace::lemma_common_prefix(old_path, new_path);
        let suffix = path_suffix(old_path, new_path);
        assert(!suffix.contains(x)) by {
            if suffix.contains(x) {
                let k = choose|k: int| 0 <= k < suffix.len() && suffix[k] == x;
                let j = k + crate::retrace::common_prefix_len(old_path, new_path);
                assert(new_path[j] == x);
            }
        }
        lemma_steps_keep_others(cfg, prefix, spans, suffix, false, x);
    }
}

/// A text made of whole lines: empty, or ending with a newline.
pub open spec fn whole_lines(s: Seq<char>) -> bool {
    s.len() == 0 || s.last() == '\n'
}

proof fn lemma_concat_whole(a: Seq<char>, b: Seq<char>)
    requires
        whole_lines(a),
        whole_lines(b),
    ensures
        whole_lines(a + b),
{
    if b.len() > 0 {
        assert((a + b).last() == b.last());
    } else {
        assert(a + b =~= a);
    }
}

proof fn lemma_each_line_whole(lines: Seq<Seq<char>>, lead: Seq<char>)
    ensures
        whole_lines(each_line(lines, lead)),
{
    if lines.len() > 0 {
        let s = each_line(lines.drop_last(), lead) + lead + lines.last() + seq!['\n'];
        assert(s.last() == '\n');
    }
}

/// Every unit is made of whole lines, wrap markers included.
pub proof fn law_unit_is_whole_lines(
    cfg: Config,
    content: Seq<char>,
    indent: int,
    prefix: Seq<char>,
    style: SpanMode,
)
    ensures
        whole_lines(unit_text(cfg, content, indent, prefix, style)),
{
    let w = cfg.wraparound as int;
    let block = if cfg.indent_lines {
        content.push('\n')
    } else {
        content
    };
    let body = block_text(block, indent % w, cfg.indent_amount as int, cfg.indent_lines, prefix, style);
    let lines = crate::text::lines_of(block);
    if cfg.indent_lines {
        let d = crate::render::drawn_depth(indent % w, style);
        let a = cfg.indent_amount as int;
        if lines.len() > 0 && d * a != 0 {
            let lead = prefix + crate::render::rep(' ', d * a - a);
            lemma_each_line_whole(
                lines.drop_first(),
                lead + crate::render::continuation(style) + seq![crate::render::LINE_VERT]
                    + crate::render::rep(' ', a),
            );
            let head = lead + crate::render::connector(style, a) + lines[0] + seq!['\n'];
            lemma_concat_whole(head, each_line(
                lines.drop_first(),
                lead + crate::render::continuation(style) + seq![crate::render::LINE_VERT]
                    + crate::render::rep(' ', a),
            ));
        } else if lines.len() > 0 {
            lemma_each_line_whole(lines, prefix + crate::render::root_glyph(style));
        }
    } else if lines.len() > 0 {
        let sp = (indent % w) * cfg.indent_amount;
        let head = prefix + seq![' '] + crate::render::rep(' ', sp) + lines[0] + seq!['\n'];
        lemma_each_line_whole(lines.drop_first(), prefix + seq![' '] + crate::render::rep(' ', sp + 2));
        lemma_concat_whole(head, each_line(lines.drop_first(), prefix + seq![' '] + crate::render::rep(' ', sp + 2)));
    }
    assert(whole_lines(body));
    let m1 = wrap_marker(cfg, indent, prefix, LINE_OPEN);
    let m2 = wrap_marker(cfg, indent, prefix, LINE_CLOSE);
    assert(m1.last() == '\n');
    assert(m2.last() == '\n');
    assert(whole_lines(Seq::<char>::empty()));
    let before = if wraps(cfg, indent) && (style is Close || style is PostClose) {
        m1
    } else {
        Seq::empty()
    };
    let after = if wraps(cfg, indent) && (style is PreOpen || style is Open) {
        m2
    } else {
        Seq::empty()
    };
    lemma_concat_whole(before, body);
    lemma_concat_whole(before + body, after);
}

proof fn lemma_span_unit_whole(cfg: Config, prefix: Seq<char>, d: SpanData, style: SpanMode)
    ensures
        whole_lines(span_unit(cfg, prefix, d, style)),
{
    law_unit_is_whole_lines(cfg, crate::layer::span_content(cfg, d, style), d.ancestors@.len() as int, prefix, style);
}

proof fn lemma_steps_whole(
    cfg: Config,
    prefix: Seq<char>,
    spans: Map<u64, SpanData>,
    ids: Seq<u64>,
    pre_open: bool,
)
    ensures
        whole_lines(retrace_steps(cfg, prefix, spans, ids, pre_open).0),
    decreases ids.len(),
{
    if ids.len() > 0 {
        let id = ids[0];
        let (o1, m1) = retrace_step(cfg, prefix, spans, id, pre_open);
        if spans.contains_key(id) {
            let d = spans[id];
            let m = crate::layer::mark_written(spans, id);
            let p = crate::layer::parent_of(d);
            let verbose = pre_open && p is Some && m.contains_key(p->0);
            let mode = if d.written {
                SpanMode::Retrace { verbose }
            } else {
                SpanMode::Open { verbose }
            };
            lemma_span_unit_whole(cfg, prefix, d, mode);
            if verbose {
                lemma_span_unit_whole(cfg, prefix, m[p->0], SpanMode::PreOpen);
                lemma_concat_whole(
                    span_unit(cfg, prefix, m[p->0], SpanMode::PreOpen),
                    span_unit(cfg, prefix, d, mode),
                );
            } else {
                assert(o1 =~= span_unit(cfg, prefix, d, mode));
            }
        }
        lemma_steps_whole(cfg, prefix, m1, ids.drop_first(), false);
        lemma_concat_whole(o1, retrace_steps(cfg, prefix, m1, ids.drop_first(), false).0);
    }
}

proof fn lemma_retrace_whole(
    cfg: Config,
    prefix: Seq<char>,
    spans: Map<u64, SpanData>,
    current: Option<u64>,
    id: u64,
    pre_open: bool,
)
    ensures
        whole_lines(retrace(cfg, prefix, spans, current, id, pre_open).0),
{
    let old_path = match current {
        Some(p) => path_of(spans, p),
        None => Seq::empty(),
    };
    lemma_steps_whole(cfg, prefix, spans, path_suffix(old_path, path_of(spans, id)), pre_open);
}

/// Every callback prints whole lines: its text is empty or ends with a
/// newline, so that texts written one after another never share a line.
pub proof fn law_output_is_whole_lines(
    cfg: Config,
    prefix: Seq<char>,
    spans: Map<u64, SpanData>,
    current: Option<u64>,
    ns: NewSpan,
    ev: EventRecord,
    time: Seq<char>,
    stamp: Seq<char>,
    id: u64,
)
    ensures
        whole_lines(new_span_effect(cfg, prefix, spans, current, ns).0),
        whole_lines(event_effect(cfg, prefix, spans, current, ev, time, stamp).0),
        whole_lines(close_effect(cfg, prefix, spans, current, id).0),
{
    let m = if spans.contains_key(ns.id) {
        spans
    } else {
        spans.insert(ns.id, crate::layer::new_span_data(cfg, ns))
    };
    lemma_retrace_whole(cfg, prefix, m, current, ns.id, cfg.verbose_entry);
    if !cfg.deferred_spans && !cfg.span_retrace {
        let me = m[ns.id];
        let p = crate::layer::parent_of(me);
        let mode = SpanMode::Open { verbose: cfg.verbose_entry };
        lemma_span_unit_whole(cfg, prefix, me, mode);
        if cfg.verbose_entry && p is Some && m.contains_key(p->0) {
            lemma_span_unit_whole(cfg, prefix, m[p->0], SpanMode::PreOpen);
            lemma_concat_whole(span_unit(cfg, prefix, m[p->0], SpanMode::PreOpen), span_unit(cfg, prefix, me, mode));
        } else {
            assert(Seq::<char>::empty() + span_unit(cfg, prefix, me, mode) =~= span_unit(cfg, prefix, me, mode));
        }
    }
    // The event.
    let reconcile = ev.span is Some && (cfg.span_retrace || cfg.deferred_spans);
    let (o1, m1) = if reconcile {
        retrace(cfg, prefix, spans, current, ev.span->0, false)
    } else {
        (Seq::empty(), spans)
    };
    if reconcile {
        lemma_retrace_whole(cfg, prefix, spans, current, ev.span->0, false);
    }
    let line = event_line(cfg, prefix, m1, ev, time, stamp);
    let depth = crate::layer::event_depth(cfg, m1, ev.span);
    if crate::render::fits(cfg, depth) {
        let shown = if ev.span is Some && m1.contains_key(ev.span->0) {
            Some(stamp)
        } else {
            None
        };
        law_unit_is_whole_lines(cfg, crate::layer::event_content(cfg, time, shown, ev), depth, prefix, SpanMode::Event);
    }
    lemma_concat_whole(o1, line);
    // The close.
    if spans.contains_key(id) {
        let d = spans[id];
        let rm = spans.remove(id);
        let o = span_unit(cfg, prefix, d, SpanMode::Close { verbose: cfg.verbose_exit });
        lemma_span_unit_whole(cfg, prefix, d, SpanMode::Close { verbose: cfg.verbose_exit });
        match crate::layer::parent_of(d) {
            Some(p) => {
                if cfg.verbose_exit && rm.contains_key(p) {
                    lemma_span_unit_whole(cfg, prefix, rm[p], SpanMode::PostClose);
                    lemma_concat_whole(o, span_unit(cfg, prefix, rm[p], SpanMode::PostClose));
                } else {
                    assert(o + Seq::<char>::empty() =~= o);
                }
            },
            None => {},
        }
    }
}

/// With the box-drawing tree, a unit at depth `d` is drawn at depth
/// `d % wraparound`; at the last level before the indentation wraps, one
/// marker line comes after an opening unit and one before a closing unit,
/// and elsewhere there is none.
pub proof fn law_wraparound(
    cfg: Config,
    content: Seq<char>,
    d: int,
    prefix: Seq<char>,
    style: SpanMode,
)
    requires
        cfg.wf(),
        cfg.indent_lines,
    ensures
        ({
            let w = cfg.wraparound as int;
            let body = tree_block(
                crate::text::lines_of(content.push('\n')),
                crate::render::drawn_depth(d % w, style),
                cfg.indent_amount as int,
                prefix,
                style,
            );
            let marker_open = wrap_marker(cfg, d, prefix, LINE_CLOSE);
            let marker_close = wrap_marker(cfg, d, prefix, LINE_OPEN);
            &&& style is Open || style is PreOpen ==> unit_text(cfg, content, d, prefix, style) == body
                + (if wraps(cfg, d) {
                marker_open
            } else {
                Seq::empty()
            })
            &&& style is Close || style is PostClose ==> unit_text(cfg, content, d, prefix, style) == (
            if wraps(cfg, d) {
                marker_close
            } else {
                Seq::empty()
            }) + body
            &&& !(style is Open || style is PreOpen || style is Close || style is PostClose)
                ==> unit_text(cfg, content, d, prefix, style) == body
            &&& (forall|i: int| 0 <= i < prefix.len() ==> prefix[i] != '\n') ==> {
                &&& forall|i: int|
                    0 <= i < marker_open.len() - 1 ==> marker_open[i] != '\n'
                &&& forall|i: int|
                    0 <= i < marker_close.len() - 1 ==> marker_close[i] != '\n'
            }
        }),
{
    let w = cfg.wraparound as int;
    let body = tree_block(
        crate::text::lines_of(content.push('\n')),
        crate::render::drawn_depth(d % w, style),
        cfg.indent_amount as int,
        prefix,
        style,
    );
    assert(body == block_text(content.push('\n'), d % w, cfg.indent_amount as int, true, prefix, style));
    assert(Seq::<char>::empty() + body + Seq::<char>::empty() =~= body);
    assert(Seq::<char>::empty() + body =~= body);
    assert(body + Seq::<char>::empty() =~= body);
}

} // verus!
