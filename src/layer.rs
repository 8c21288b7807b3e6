//! The state machine that decides, for each span creation, event and span
//! close, which units are printed.
use std::collections::HashMap;
use vstd::prelude::*;
use crate::config::{prefix_text, thread_name_view, Config, ThreadInfo};
use crate::fields::{fields_text, kv_views, kvs_text, push_fields, push_kvs};
use crate::render::{fits, mode_label, unit_text, write_span_mode, Buffers, SpanMode};
use crate::retrace::{path_difference, path_suffix};
use crate::style::{level_text, push_level, push_styled, styled_text, Hue, Level, Paint};
use crate::text::push_str;

verus! {

broadcast use vstd::std_specs::hash::group_hash_axioms;

/// What is kept of a live span.
pub struct SpanData {
    /// When the span was created, in nanoseconds on a monotonic clock.
    pub start: u64,
    /// The span's fields, in the order in which they were recorded, with
    /// their values already rendered.
    pub kvs: Vec<(String, String)>,
    /// Whether the span's banner has been printed.
    pub written: bool,
    /// The ids of the span's ancestors, root first.
    pub ancestors: Vec<u64>,
    pub name: String,
    pub target: String,
}

impl SpanData {
    /// The record of a new span; `written` tells whether its banner counts
    /// as printed already.
    pub fn new(span: NewSpan, written: bool) -> (r: Self)
        ensures
            r == (SpanData {
                start: span.start,
                kvs: span.fields,
                written,
                ancestors: span.ancestors,
                name: span.name,
                target: span.target,
            }),
    {
        SpanData {
            start: span.start,
            kvs: span.fields,
            written,
            ancestors: span.ancestors,
            name: span.name,
            target: span.target,
        }
    }
}

/// A span that has just been created.
pub struct NewSpan {
    pub id: u64,
    /// The ids of its ancestors, root first.
    pub ancestors: Vec<u64>,
    pub name: String,
    pub target: String,
    pub fields: Vec<(String, String)>,
    /// The creation time, in nanoseconds on a monotonic clock.
    pub start: u64,
}

/// An event, in the span that is current where it happened.
pub struct EventRecord {
    pub span: Option<u64>,
    pub level: Level,
    pub target: String,
    pub fields: Vec<(String, String)>,
}

/// The path of a live span: its ancestors and itself, root first; empty
/// for a span that is not (or no longer) known.
pub open spec fn path_of(spans: Map<u64, SpanData>, id: u64) -> Seq<u64> {
    if spans.contains_key(id) {
        spans[id].ancestors@.push(id)
    } else {
        Seq::empty()
    }
}

pub open spec fn parent_of(d: SpanData) -> Option<u64> {
    if d.ancestors@.len() > 0 {
        Some(d.ancestors@.last())
    } else {
        None
    }
}

/// Whether a span's name and fields are part of a unit of this mode.
pub open spec fn should_write(cfg: Config, style: SpanMode) -> bool {
    match style {
        SpanMode::Open { .. } | SpanMode::Event | SpanMode::Retrace { .. } | SpanMode::PostClose => true,
        SpanMode::PreOpen => cfg.verbose_entry,
        SpanMode::Close { verbose } => verbose,
    }
}

/// A span's target, name and fields.
pub open spec fn span_body(cfg: Config, d: SpanData) -> Seq<char> {
    let target = if cfg.targets {
        styled_text(cfg.ansi, Paint::Dimmed, d.target@) + "::"@
    } else {
        Seq::empty()
    };
    let open = if cfg.bracketed_fields {
        styled_text(cfg.ansi, Paint::Bold(Hue::Green), "{"@)
    } else {
        " "@
    };
    let close = if cfg.bracketed_fields {
        styled_text(cfg.ansi, Paint::Bold(Hue::Green), "}"@)
    } else {
        Seq::empty()
    };
    target + styled_text(cfg.ansi, Paint::Bold(Hue::Green), d.name@) + open + kvs_text(
        kv_views(d.kvs@),
    ) + close
}

/// The content of a span's unit before it is indented.
pub open spec fn span_content(cfg: Config, d: SpanData, style: SpanMode) -> Seq<char> {
    (if cfg.span_modes {
        mode_label(style) + ": "@
    } else {
        Seq::empty()
    }) + (if should_write(cfg, style) {
        span_body(cfg, d)
    } else {
        Seq::empty()
    })
}

/// The printed unit of a span, at the depth of the span.
pub open spec fn span_unit(cfg: Config, prefix: Seq<char>, d: SpanData, style: SpanMode) -> Seq<
    char,
> {
    let depth = d.ancestors@.len() as int;
    if fits(cfg, depth) {
        unit_text(cfg, span_content(cfg, d, style), depth, prefix, style)
    } else {
        Seq::empty()
    }
}

pub open spec fn mark_written(spans: Map<u64, SpanData>, id: u64) -> Map<u64, SpanData> {
    if spans.contains_key(id) {
        spans.insert(id, SpanData { written: true, ..spans[id] })
    } else {
        spans
    }
}

/// Printing one span of a reconciled path: it opens if it was never
/// printed and is retraced otherwise; with `pre_open`, its parent is shown
/// first. A span of which nothing is known (it was never recorded at its
/// creation) is skipped: it prints nothing and nothing changes; a parent of
/// which nothing is known is not shown.
pub open spec fn retrace_step(
    cfg: Config,
    prefix: Seq<char>,
    spans: Map<u64, SpanData>,
    id: u64,
    pre_open: bool,
) -> (Seq<char>, Map<u64, SpanData>) {
    if !spans.contains_key(id) {
        (Seq::empty(), spans)
    } else {
        let d = spans[id];
        let m = mark_written(spans, id);
        let p = parent_of(d);
        let verbose = pre_open && p is Some && m.contains_key(p->0);
        let pre = if verbose {
            span_unit(cfg, prefix, m[p->0], SpanMode::PreOpen)
        } else {
            Seq::empty()
        };
        let mode = if d.written {
            SpanMode::Retrace { verbose }
        } else {
            SpanMode::Open { verbose }
        };
        (pre + span_unit(cfg, prefix, d, mode), m)
    }
}

/// Printing the spans `ids` in order; only the first may show its parent.
pub open spec fn retrace_steps(
    cfg: Config,
    prefix: Seq<char>,
    spans: Map<u64, SpanData>,
    ids: Seq<u64>,
    pre_open: bool,
) -> (Seq<char>, Map<u64, SpanData>)
    decreases ids.len(),
{
    if ids.len() == 0 {
        (Seq::empty(), spans)
    } else {
        let (o1, m1) = retrace_step(cfg, prefix, spans, ids[0], pre_open);
        let (o2, m2) = retrace_steps(cfg, prefix, m1, ids.drop_first(), false);
        (o1 + o2, m2)
    }
}

/// Bringing span `id` into focus after `current`: the part of its path
/// below the common prefix with the path of `current` is printed.
pub open spec fn retrace(
    cfg: Config,
    prefix: Seq<char>,
    spans: Map<u64, SpanData>,
    current: Option<u64>,
    id: u64,
    pre_open: bool,
) -> (Seq<char>, Map<u64, SpanData>) {
    if current == Some(id) {
        (Seq::empty(), spans)
    } else {
        let old_path = match current {
            Some(p) => path_of(spans, p),
            None => Seq::empty(),
        };
        retrace_steps(cfg, prefix, spans, path_suffix(old_path, path_of(spans, id)), pre_open)
    }
}

/// The record kept for a new span.
pub open spec fn new_span_data(cfg: Config, ns: NewSpan) -> SpanData {
    SpanData {
        start: ns.start,
        kvs: ns.fields,
        written: !cfg.deferred_spans,
        ancestors: ns.ancestors,
        name: ns.name,
        target: ns.target,
    }
}

/// What a span creation prints, the spans known afterwards and the span in
/// focus afterwards.
pub open spec fn new_span_effect(
    cfg: Config,
    prefix: Seq<char>,
    spans: Map<u64, SpanData>,
    current: Option<u64>,
    ns: NewSpan,
) -> (Seq<char>, Map<u64, SpanData>, Option<u64>) {
    let m = if spans.contains_key(ns.id) {
        spans
    } else {
        spans.insert(ns.id, new_span_data(cfg, ns))
    };
    if cfg.deferred_spans {
        (Seq::empty(), m, current)
    } else if cfg.span_retrace {
        let (o, m2) = retrace(cfg, prefix, m, current, ns.id, cfg.verbose_entry);
        (o, m2, Some(ns.id))
    } else {
        let me = m[ns.id];
        let p = parent_of(me);
        let pre = if cfg.verbose_entry && p is Some && m.contains_key(p->0) {
            span_unit(cfg, prefix, m[p->0], SpanMode::PreOpen)
        } else {
            Seq::empty()
        };
        (
            pre + span_unit(cfg, prefix, me, SpanMode::Open { verbose: cfg.verbose_entry }),
            m,
            Some(ns.id),
        )
    }
}

/// The content of an event's line before it is indented: the time, the
/// time since its span started, the level, the target and the fields.
pub open spec fn event_content(
    cfg: Config,
    time: Seq<char>,
    stamp: Option<Seq<char>>,
    ev: EventRecord,
) -> Seq<char> {
    (if time.len() > 0 {
        time + " "@
    } else {
        Seq::empty()
    }) + (match stamp {
        Some(s) => s + " "@,
        None => Seq::empty(),
    }) + level_text(cfg.ansi, ev.level) + (if cfg.targets {
        " "@ + styled_text(cfg.ansi, Paint::Dimmed, ev.target@)
    } else {
        Seq::empty()
    }) + fields_text(kv_views(ev.fields@), false)
}

/// The depth of an event's line: one below its span in a box-drawing
/// tree, level with it under whitespace indentation.
pub open spec fn event_depth(cfg: Config, spans: Map<u64, SpanData>, span: Option<u64>) -> int {
    match span {
        Some(s) => if spans.contains_key(s) {
            spans[s].ancestors@.len() + (if cfg.indent_lines {
                1int
            } else {
                0int
            })
        } else {
            0
        },
        None => 0,
    }
}

/// The line of an event itself, drawn at the depth of its span.
pub open spec fn event_line(
    cfg: Config,
    prefix: Seq<char>,
    spans: Map<u64, SpanData>,
    ev: EventRecord,
    time: Seq<char>,
    stamp: Seq<char>,
) -> Seq<char> {
    let shown_stamp = if ev.span is Some && spans.contains_key(ev.span->0) {
        Some(stamp)
    } else {
        None
    };
    let depth = event_depth(cfg, spans, ev.span);
    if fits(cfg, depth) {
        unit_text(cfg, event_content(cfg, time, shown_stamp, ev), depth, prefix, SpanMode::Event)
    } else {
        Seq::empty()
    }
}

/// What an event prints, the spans known afterwards and the span in focus
/// afterwards. The reconciliation an event triggers never shows a parent
/// again before the path. `time` is the current time as the timer wrote it; `stamp`
/// the time since the event's span started, as the timer wrote it.
pub open spec fn event_effect(
    cfg: Config,
    prefix: Seq<char>,
    spans: Map<u64, SpanData>,
    current: Option<u64>,
    ev: EventRecord,
    time: Seq<char>,
    stamp: Seq<char>,
) -> (Seq<char>, Map<u64, SpanData>, Option<u64>) {
    let reconcile = ev.span is Some && (cfg.span_retrace || cfg.deferred_spans);
    let (o1, m1) = if reconcile {
        retrace(cfg, prefix, spans, current, ev.span->0, false)
    } else {
        (Seq::empty(), spans)
    };
    let c1 = if reconcile {
        ev.span
    } else {
        current
    };
    let unit = event_line(cfg, prefix, m1, ev, time, stamp);
    (o1 + unit, m1, c1)
}

/// What closing span `id` prints, the spans known afterwards and the span
/// in focus afterwards. A deferred span that was never printed closes
/// silently.
pub open spec fn close_effect(
    cfg: Config,
    prefix: Seq<char>,
    spans: Map<u64, SpanData>,
    current: Option<u64>,
    id: u64,
) -> (Seq<char>, Map<u64, SpanData>, Option<u64>) {
    if !spans.contains_key(id) {
        (Seq::empty(), spans, current)
    } else {
        let d = spans[id];
        let m = spans.remove(id);
        if cfg.deferred_spans && !d.written {
            (Seq::empty(), m, current)
        } else {
            let o1 = span_unit(cfg, prefix, d, SpanMode::Close { verbose: cfg.verbose_exit });
            match parent_of(d) {
                Some(p) => (
                    o1 + (if cfg.verbose_exit && m.contains_key(p) {
                        span_unit(cfg, prefix, m[p], SpanMode::PostClose)
                    } else {
                        Seq::empty()
                    }),
                    m,
                    Some(p),
                ),
                None => (o1, m, current),
            }
        }
    }
}

/// Whether a unit at depth `depth` can be drawn.
fn fits_exec(cfg: &Config, depth: usize) -> (r: bool)
    requires
        cfg.wf(),
    ensures
        r == fits(*cfg, depth as int),
{
    if depth == usize::MAX {
        return false;
    }
    let eff = depth % cfg.wraparound;
    let w = (eff as u128) + 2;
    let a = cfg.indent_amount as u128;
    proof {
        assert(w * a <= 0x1_0000_0000_0000_0001u128 * 0xffff_ffff_ffff_ffffu128) by (nonlinear_arith)
            requires
                w <= 0x1_0000_0000_0000_0001u128,
                a <= 0xffff_ffff_ffff_ffffu128,
                w >= 0,
                a >= 0,
        ;
    }
    w * a <= usize::MAX as u128
}

fn push_span_body(config: &Config, buf: &mut String, d: &SpanData)
    ensures
        final(buf)@ == old(buf)@ + span_body(*config, *d),
{
    let ghost s0 = buf@;
    if config.targets {
        push_styled(buf, config.ansi, Paint::Dimmed, d.target.as_str());
        push_str(buf, "::");
    }
    push_styled(buf, config.ansi, Paint::Bold(Hue::Green), d.name.as_str());
    if config.bracketed_fields {
        push_styled(buf, config.ansi, Paint::Bold(Hue::Green), "{");
    } else {
        push_str(buf, " ");
    }
    push_kvs(buf, &d.kvs);
    if config.bracketed_fields {
        push_styled(buf, config.ansi, Paint::Bold(Hue::Green), "}");
    }
    proof {
        assert(buf@ =~= s0 + span_body(*config, *d));
    }
}

/// Appends the content of a unit of span `d`.
fn compose_span(config: &Config, buf: &mut String, d: &SpanData, style: SpanMode)
    ensures
        final(buf)@ == old(buf)@ + span_content(*config, *d, style),
{
    let ghost s0 = buf@;
    if config.span_modes {
        write_span_mode(buf, style);
    }
    let should_write = match style {
        SpanMode::Open { .. } | SpanMode::Event | SpanMode::Retrace { .. } | SpanMode::PostClose => true,
        SpanMode::PreOpen => config.verbose_entry,
        SpanMode::Close { verbose } => verbose,
    };
    if should_write {
        push_span_body(config, buf, d);
    }
    proof {
        assert(buf@ =~= s0 + span_content(*config, *d, style));
    }
}

/// Prints one unit of span `d`: composes its content, indents it and moves
/// it to `out`.
fn write_span_info(
    config: &Config,
    bufs: &mut Buffers,
    d: &SpanData,
    style: SpanMode,
    prefix: &str,
    out: &mut String,
)
    requires
        config.wf(),
        old(bufs).current_buf@ == Seq::<char>::empty(),
        old(bufs).indent_buf@ == Seq::<char>::empty(),
    ensures
        final(out)@ == old(out)@ + span_unit(*config, prefix@, *d, style),
        final(bufs).current_buf@ == Seq::<char>::empty(),
        final(bufs).indent_buf@ == Seq::<char>::empty(),
        final(bufs).current_span == old(bufs).current_span,
{
    let depth = d.ancestors.len();
    if !fits_exec(config, depth) {
        return;
    }
    compose_span(config, &mut bufs.current_buf, d, style);
    bufs.indent_current(depth, config, prefix, style);
    bufs.flush_current_buf(out);
}

/// The view of an optional text.
pub open spec fn opt_view(t: Option<&str>) -> Option<Seq<char>> {
    match t {
        Some(s) => Some(s@),
        None => None,
    }
}

fn push_times(buf: &mut String, time: &str, stamp: Option<&str>)
    ensures
        final(buf)@ == old(buf)@ + (if time@.len() > 0 {
            time@ + " "@
        } else {
            Seq::empty()
        }) + (match opt_view(stamp) {
            Some(s) => s + " "@,
            None => Seq::empty(),
        }),
{
    let ghost s0 = buf@;
    // Something was written for the time: pad it with a blank.
    if !time.is_empty() {
        push_str(buf, time);
        push_str(buf, " ");
    }
    let ghost s1 = buf@;
    match stamp {
        Some(st) => {
            push_str(buf, st);
            push_str(buf, " ");
        },
        None => {},
    }
    proof {
        assert(s1 =~= s0 + (if time@.len() > 0 {
            time@ + " "@
        } else {
            Seq::empty()
        }));
    }
}

/// Appends the content of an event's line.
fn compose_event(
    config: &Config,
    buf: &mut String,
    event: &EventRecord,
    time: &str,
    stamp: Option<&str>,
)
    ensures
        final(buf)@ == old(buf)@ + event_content(*config, time@, opt_view(stamp), *event),
{
    let ghost s0 = buf@;
    push_times(buf, time, stamp);
    push_level(buf, config.ansi, event.level);
    if config.targets {
        push_str(buf, " ");
        push_styled(buf, config.ansi, Paint::Dimmed, event.target.as_str());
    }
    push_fields(buf, &event.fields);
    proof {
        assert(buf@ =~= s0 + event_content(*config, time@, opt_view(stamp), *event));
    }
}

/// The renderer: its options, its scratch space with the span in focus,
/// and what it keeps of each live span.
///
/// A span of which nothing is known (one whose creation was never handed
/// to the renderer) is not an error: every unit that would show it is
/// skipped, an event in it is drawn at the outermost level without the
/// time since its start, and closing it prints nothing. Logging carries on
/// rather than stopping the program.
pub struct Renderer {
    pub config: Config,
    pub bufs: Buffers,
    pub spans: HashMap<u64, SpanData>,
}

impl Renderer {
    pub open spec fn wf(&self) -> bool {
        &&& self.config.wf()
        &&& self.bufs.current_buf@ == Seq::<char>::empty()
        &&& self.bufs.indent_buf@ == Seq::<char>::empty()
    }

    pub fn new(config: Config) -> (r: Self)
        requires
            config.wf(),
        ensures
            r.wf(),
            r.config == config,
            r.spans@ == Map::<u64, SpanData>::empty(),
            r.bufs.current_span is None,
    {
        Renderer { config, bufs: Buffers::new(), spans: HashMap::new() }
    }

    /// The path of span `id`, as `path_of` describes it.
    fn path(&self, id: u64) -> (r: Vec<u64>)
        ensures
            r@ == path_of(self.spans@, id),
    {
        match self.spans.get(&id) {
            Some(d) => {
                let mut p = d.ancestors.clone();
                p.push(id);
                p
            },
            None => Vec::new(),
        }
    }
}

impl Renderer {
    /// Prints span `id` as one step of a reconciled path.
    fn retrace_one(&mut self, id: u64, pre_open: bool, prefix: &str, out: &mut String)
        requires
            old(self).wf(),
        ensures
            final(self).wf(),
            final(self).config == old(self).config,
            final(self).bufs.current_span == old(self).bufs.current_span,
            ({
                let r = retrace_step(old(self).config, prefix@, old(self).spans@, id, pre_open);
                final(out)@ == old(out)@ + r.0 && final(self).spans@ == r.1
            }),
    {
        let ghost m0 = self.spans@;
        match self.spans.remove(&id) {
            None => {
                proof {
                    assert(self.spans@ =~= m0);
                }
            },
            Some(d) => {
                let ghost d0 = d;
                let was_written = d.written;
                let mut d = d;
                d.written = true;
                let parent: Option<u64> = if d.ancestors.len() > 0 {
                    Some(d.ancestors[d.ancestors.len() - 1])
                } else {
                    None
                };
                self.spans.insert(id, d);
                proof {
                    assert(self.spans@ =~= mark_written(m0, id));
                }
                let mut verbose = false;
                if pre_open {
                    match parent {
                        Some(p) => match self.spans.get(&p) {
                            Some(pd) => {
                                verbose = true;
                                write_span_info(
                                    &self.config,
                                    &mut self.bufs,
                                    pd,
                                    SpanMode::PreOpen,
                                    prefix,
                                    out,
                                );
                            },
                            None => {},
                        },
                        None => {},
                    }
                }
                let mode = if was_written {
                    SpanMode::Retrace { verbose }
                } else {
                    SpanMode::Open { verbose }
                };
                match self.spans.get(&id) {
                    Some(dd) => {
                        proof {
                            assert(span_unit(self.config, prefix@, *dd, mode) == span_unit(
                                self.config,
                                prefix@,
                                d0,
                                mode,
                            ));
                        }
                        write_span_info(&self.config, &mut self.bufs, dd, mode, prefix, out);
                    },
                    None => {},
                }
            },
        }
    }

    /// Brings span `id` into focus, printing the part of its path that the
    /// span printed last does not share.
    pub fn write_retrace_span(&mut self, id: u64, pre_open: bool, prefix: &str, out: &mut String)
        requires
            old(self).wf(),
        ensures
            final(self).wf(),
            final(self).config == old(self).config,
            final(self).bufs.current_span == Some(id),
            ({
                let r = retrace(
                    old(self).config,
                    prefix@,
                    old(self).spans@,
                    old(self).bufs.current_span,
                    id,
                    pre_open,
                );
                final(out)@ == old(out)@ + r.0 && final(self).spans@ == r.1
            }),
    {
        let old_span = self.bufs.current_span;
        self.bufs.current_span = Some(id);
        let same = match old_span {
            Some(p) => p == id,
            None => false,
        };
        if same {
            return;
        }
        let old_path = match old_span {
            Some(p) => self.path(p),
            None => Vec::new(),
        };
        let new_path = self.path(id);
        let suffix = path_difference(&old_path, new_path);
        let ghost all = retrace_steps(self.config, prefix@, self.spans@, suffix@, pre_open);
        let ghost out0 = out@;
        let mut i: usize = 0;
        proof {
            assert(suffix@.skip(0) =~= suffix@);
        }
        while i < suffix.len()
            invariant
                self.wf(),
                self.config == old(self).config,
                self.bufs.current_span == Some(id),
                i <= suffix.len(),
                ({
                    let rest = retrace_steps(
                        self.config,
                        prefix@,
                        self.spans@,
                        suffix@.skip(i as int),
                        i == 0 && pre_open,
                    );
                    all.0 == out@.skip(out0.len() as int) + rest.0 && all.1 == rest.1
                        && out@.len() >= out0.len() && out@.take(out0.len() as int) == out0
                }),
            decreases suffix.len() - i,
        {
            let ghost before = out@;
            proof {
                assert(suffix@.skip(i as int).drop_first() =~= suffix@.skip(i + 1));
                assert(suffix@.skip(i as int)[0] == suffix@[i as int]);
            }
            self.retrace_one(suffix[i], i == 0 && pre_open, prefix, out);
            proof {
                assert(out@.skip(out0.len() as int) =~= before.skip(out0.len() as int) + out@.skip(
                    before.len() as int,
                ));
                assert(out@.take(out0.len() as int) =~= before.take(out0.len() as int));
            }
            i = i + 1;
        }
        proof {
            assert(suffix@.skip(i as int) =~= Seq::<u64>::empty());
            assert(out@ =~= out0 + all.0);
        }
    }

    /// A span was created: it is recorded and, unless spans are deferred,
    /// its banner is printed. Returns the text to write.
    pub fn on_new_span(&mut self, span: NewSpan, thread: &ThreadInfo) -> (out: String)
        requires
            old(self).wf(),
        ensures
            final(self).wf(),
            final(self).config == old(self).config,
            new_span_effect(
                old(self).config,
                prefix_text(old(self).config, thread.id@, thread_name_view(thread.name)),
                old(self).spans@,
                old(self).bufs.current_span,
                span,
            ) == (out@, final(self).spans@, final(self).bufs.current_span),
    {
        let prefix = self.config.prefix(thread);
        let mut out = String::new();
        let id = span.id;
        if !self.spans.contains_key(&id) {
            let d = SpanData::new(span, !self.config.deferred_spans);
            self.spans.insert(id, d);
        }
        // Deferred spans are printed along with the first event inside them.
        if self.config.deferred_spans {
            return out;
        }
        if self.config.span_retrace {
            let pre = self.config.verbose_entry;
            self.write_retrace_span(id, pre, prefix.as_str(), &mut out);
        } else {
            let parent: Option<u64> = match self.spans.get(&id) {
                Some(d) => if d.ancestors.len() > 0 {
                    Some(d.ancestors[d.ancestors.len() - 1])
                } else {
                    None
                },
                None => None,
            };
            if self.config.verbose_entry {
                match parent {
                    Some(p) => match self.spans.get(&p) {
                        Some(pd) => write_span_info(
                            &self.config,
                            &mut self.bufs,
                            pd,
                            SpanMode::PreOpen,
                            prefix.as_str(),
                            &mut out,
                        ),
                        None => {},
                    },
                    None => {},
                }
            }
            self.bufs.current_span = Some(id);
            let mode = SpanMode::Open { verbose: self.config.verbose_entry };
            match self.spans.get(&id) {
                Some(d) => write_span_info(
                    &self.config,
                    &mut self.bufs,
                    d,
                    mode,
                    prefix.as_str(),
                    &mut out,
                ),
                None => {},
            }
        }
        out
    }

    /// An event happened: the path to its span is reconciled (when spans
    /// are retraced or deferred) and its line is printed. `time` is what
    /// the timer wrote for the current time; `stamp` what it wrote for the
    /// time since the event's span started. Returns the text to write.
    pub fn on_event(&mut self, event: &EventRecord, time: &str, stamp: &str, thread: &ThreadInfo) -> (out:
        String)
        requires
            old(self).wf(),
        ensures
            final(self).wf(),
            final(self).config == old(self).config,
            event_effect(
                old(self).config,
                prefix_text(old(self).config, thread.id@, thread_name_view(thread.name)),
                old(self).spans@,
                old(self).bufs.current_span,
                *event,
                time@,
                stamp@,
            ) == (out@, final(self).spans@, final(self).bufs.current_span),
    {
        let prefix = self.config.prefix(thread);
        let mut out = String::new();
        match event.span {
            Some(id) => {
                // The parent is shown again only for a span entry, not for
                // an event.
                if self.config.span_retrace || self.config.deferred_spans {
                    self.write_retrace_span(id, false, prefix.as_str(), &mut out);
                }
            },
            None => {},
        }
        let ghost o1 = out@;
        let (depth, known): (usize, bool) = match event.span {
            Some(id) => match self.spans.get(&id) {
                Some(d) => {
                    let n = d.ancestors.len();
                    if self.config.indent_lines {
                        if n == usize::MAX {
                            return out;
                        }
                        (n + 1, true)
                    } else {
                        (n, true)
                    }
                },
                None => (0, false),
            },
            None => (0, false),
        };
        proof {
            assert(depth as int == event_depth(self.config, self.spans@, event.span));
        }
        if !fits_exec(&self.config, depth) {
            proof {
                assert(out@ =~= o1 + Seq::<char>::empty());
            }
            return out;
        }
        let st: Option<&str> = if known {
            Some(stamp)
        } else {
            None
        };
        compose_event(&self.config, &mut self.bufs.current_buf, event, time, st);
        self.bufs.indent_current(depth, &self.config, prefix.as_str(), SpanMode::Event);
        self.bufs.flush_current_buf(&mut out);
        out
    }

    /// A span closed: its closing banner is printed (unless it is a
    /// deferred span that was never printed), and it is forgotten. Returns
    /// the text to write.
    pub fn on_close(&mut self, id: u64, thread: &ThreadInfo) -> (out: String)
        requires
            old(self).wf(),
        ensures
            final(self).wf(),
            final(self).config == old(self).config,
            close_effect(
                old(self).config,
                prefix_text(old(self).config, thread.id@, thread_name_view(thread.name)),
                old(self).spans@,
                old(self).bufs.current_span,
                id,
            ) == (out@, final(self).spans@, final(self).bufs.current_span),
    {
        let prefix = self.config.prefix(thread);
        let mut out = String::new();
        let ghost m0 = self.spans@;
        let d = match self.spans.remove(&id) {
            Some(d) => d,
            None => {
                proof {
                    assert(self.spans@ =~= m0);
                }
                return out;
            },
        };
        // A span that was never printed closes silently.
        if self.config.deferred_spans && !d.written {
            return out;
        }
        let mode = SpanMode::Close { verbose: self.config.verbose_exit };
        write_span_info(&self.config, &mut self.bufs, &d, mode, prefix.as_str(), &mut out);
        if d.ancestors.len() > 0 {
            let parent = d.ancestors[d.ancestors.len() - 1];
            self.bufs.current_span = Some(parent);
            if self.config.verbose_exit {
                match self.spans.get(&parent) {
                    Some(pd) => write_span_info(
                        &self.config,
                        &mut self.bufs,
                        pd,
                        SpanMode::PostClose,
                        prefix.as_str(),
                        &mut out,
                    ),
                    None => {},
                }
            }
        }
        out
    }

    /// The time since span `id` started, in nanoseconds, at monotonic time
    /// `now`; none for a span that is not known.
    pub fn span_elapsed(&self, id: u64, now: u64) -> (r: Option<u64>)
        ensures
            r == (if self.spans@.contains_key(id) {
                Some(
                    (if now >= self.spans@[id].start {
                        (now - self.spans@[id].start) as u64
                    } else {
                        0u64
                    }),
                )
            } else {
                None
            }),
    {
        match self.spans.get(&id) {
            Some(d) => if now >= d.start {
                Some(now - d.start)
            } else {
                Some(0)
            },
            None => None,
        }
    }
}

} // verus!