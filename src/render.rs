//! Drawing one printed unit (a span banner or an event line) as an indented
//! block, either with box-drawing glyphs or with plain whitespace.
use vstd::prelude::*;
use crate::config::Config;
use crate::text::{chars_of, lines_of, push_char, push_chars, push_str, split_lines, views};

verus! {

pub const LINE_VERT: char = '│';
pub const LINE_HORIZ: char = '─';
pub const LINE_BRANCH: char = '├';
pub const LINE_CLOSE: char = '┘';
pub const LINE_CLOSE2: char = '┌';
pub const LINE_OPEN: char = '┐';
pub const LINE_OPEN2: char = '└';

/// Why a unit is printed; it decides the connector glyphs of its first line.
#[derive(Debug, Clone, Copy, PartialEq, Eq, Structural)]
pub enum SpanMode {
    /// The parent shown again just before a child is entered.
    PreOpen,
    Open { verbose: bool },
    Close { verbose: bool },
    /// A span shown again because another span was printed in the meantime.
    Retrace { verbose: bool },
    /// The parent shown again just after a child closed.
    PostClose,
    Event,
}

/// `n` copies of `c`.
pub open spec fn rep(c: char, n: int) -> Seq<char> {
    Seq::new(if n < 0 { 0 } else { n as nat }, |i: int| c)
}

/// The corner-and-fill shape used by the verbose open and close connectors:
/// half the width in blanks, then the corner, fill and bracket. At a width of
/// one there is no room for the corner and the bracket becomes a blank.
pub open spec fn soft_connector(a: int, corner: char, bracket: char) -> Seq<char> {
    seq![' '] + rep(' ', a / 2 - 1) + (if a > 1 {
        seq![corner]
    } else {
        Seq::empty()
    }) + rep(LINE_HORIZ, a - 1 - a / 2) + (if a > 1 {
        seq![bracket]
    } else {
        seq![' ']
    })
}

/// The glyphs that join the first line of a unit to the tree, for an indent
/// unit of width `a`.
pub open spec fn connector(mode: SpanMode, a: int) -> Seq<char> {
    match mode {
        SpanMode::PreOpen => seq![LINE_OPEN2] + rep(LINE_HORIZ, a / 2 - 1) + seq![LINE_OPEN],
        SpanMode::Open { verbose } | SpanMode::Retrace { verbose } => if verbose {
            soft_connector(a, LINE_OPEN2, LINE_OPEN)
        } else {
            seq![LINE_OPEN2] + rep(LINE_HORIZ, a - 1) + seq![LINE_OPEN]
        },
        SpanMode::Close { verbose } => if verbose {
            soft_connector(a, LINE_CLOSE2, LINE_CLOSE)
        } else {
            seq![LINE_CLOSE2] + rep(LINE_HORIZ, a - 1) + seq![LINE_CLOSE]
        },
        SpanMode::PostClose => seq![LINE_CLOSE2] + rep(LINE_HORIZ, a / 2 - 1) + seq![LINE_CLOSE],
        SpanMode::Event => seq![LINE_BRANCH] + rep(LINE_HORIZ, a - 1),
    }
}

/// The bracket printed before a unit at the outermost level.
pub open spec fn root_glyph(mode: SpanMode) -> Seq<char> {
    match mode {
        SpanMode::Open { .. } | SpanMode::Retrace { .. } => seq![LINE_OPEN],
        SpanMode::Close { .. } => seq![LINE_CLOSE],
        _ => Seq::empty(),
    }
}

/// What stands between the indent and the vertical bar on the lines after
/// the first one.
pub open spec fn continuation(mode: SpanMode) -> Seq<char> {
    match mode {
        SpanMode::Open { .. } | SpanMode::Retrace { .. } => seq![' ', ' '],
        SpanMode::Close { .. } => seq![' '],
        _ => Seq::empty(),
    }
}

/// Each line preceded by `lead` and followed by a newline.
pub open spec fn each_line(lines: Seq<Seq<char>>, lead: Seq<char>) -> Seq<char>
    decreases lines.len(),
{
    if lines.len() == 0 {
        Seq::empty()
    } else {
        each_line(lines.drop_last(), lead) + lead + lines.last() + seq!['\n']
    }
}

/// A block drawn as part of a box-drawing tree, at depth `indent` with an
/// indent unit of width `a`.
pub open spec fn tree_block(
    lines: Seq<Seq<char>>,
    indent: int,
    a: int,
    prefix: Seq<char>,
    mode: SpanMode,
) -> Seq<char> {
    if lines.len() == 0 {
        Seq::empty()
    } else if indent * a == 0 {
        each_line(lines, prefix + root_glyph(mode))
    } else {
        let lead = prefix + rep(' ', indent * a - a);
        lead + connector(mode, a) + lines[0] + seq!['\n'] + each_line(
            lines.drop_first(),
            lead + continuation(mode) + seq![LINE_VERT] + rep(' ', a),
        )
    }
}

/// A block indented with whitespace only: `spaces` blanks before the first
/// line and two more before each following one.
pub open spec fn plain_block(lines: Seq<Seq<char>>, spaces: int, prefix: Seq<char>) -> Seq<char> {
    if lines.len() == 0 {
        Seq::empty()
    } else {
        prefix + seq![' '] + rep(' ', spaces) + lines[0] + seq!['\n'] + each_line(
            lines.drop_first(),
            prefix + seq![' '] + rep(' ', spaces + 2),
        )
    }
}

/// The depth at which a unit is drawn: the parent shown around a child's
/// entry or exit lines up with the child, one level deeper.
pub open spec fn drawn_depth(indent: int, mode: SpanMode) -> int {
    match mode {
        SpanMode::PreOpen | SpanMode::PostClose => indent + 1,
        _ => indent,
    }
}

/// The text of `block` drawn at depth `indent`.
pub open spec fn block_text(
    block: Seq<char>,
    indent: int,
    a: int,
    indent_lines: bool,
    prefix: Seq<char>,
    mode: SpanMode,
) -> Seq<char> {
    if indent_lines {
        tree_block(lines_of(block), drawn_depth(indent, mode), a, prefix, mode)
    } else {
        plain_block(lines_of(block), indent * a, prefix)
    }
}

/// Appends `n` copies of `c`.
pub fn push_rep(buf: &mut String, c: char, n: usize)
    ensures
        final(buf)@ == old(buf)@ + rep(c, n as int),
{
    let mut i: usize = 0;
    while i < n
        invariant
            i <= n,
            buf@ == old(buf)@ + rep(c, i as int),
        decreases n - i,
    {
        push_char(buf, c);
        i = i + 1;
        proof {
            assert(buf@ =~= old(buf)@ + rep(c, i as int));
        }
    }
    proof {
        assert(buf@ =~= old(buf)@ + rep(c, n as int));
    }
}

/// Appends `hi - lo` copies of `c` (none when `hi <= lo`).
fn fill(buf: &mut String, c: char, lo: usize, hi: usize)
    ensures
        final(buf)@ == old(buf)@ + rep(c, hi - lo),
{
    let n: usize = if hi > lo { hi - lo } else { 0 };
    push_rep(buf, c, n);
    proof {
        assert(rep(c, n as int) =~= rep(c, hi - lo));
    }
}

/// Appends the glyphs that join the first line of a unit to the tree.
pub fn push_connector(buf: &mut String, style: SpanMode, a: usize)
    requires
        a > 0,
    ensures
        final(buf)@ == old(buf)@ + connector(style, a as int),
{
    let ghost start = buf@;
    match style {
        SpanMode::PreOpen => {
            push_char(buf, LINE_OPEN2);
            fill(buf, LINE_HORIZ, 1, a / 2);
            push_char(buf, LINE_OPEN);
        },
        SpanMode::Open { verbose: false } | SpanMode::Retrace { verbose: false } => {
            push_char(buf, LINE_OPEN2);
            fill(buf, LINE_HORIZ, 1, a);
            push_char(buf, LINE_OPEN);
        },
        SpanMode::Open { verbose: true } | SpanMode::Retrace { verbose: true } => {
            push_soft(buf, a, LINE_OPEN2, LINE_OPEN);
        },
        SpanMode::Close { verbose: false } => {
            push_char(buf, LINE_CLOSE2);
            fill(buf, LINE_HORIZ, 1, a);
            push_char(buf, LINE_CLOSE);
        },
        SpanMode::Close { verbose: true } => {
            push_soft(buf, a, LINE_CLOSE2, LINE_CLOSE);
        },
        SpanMode::PostClose => {
            push_char(buf, LINE_CLOSE2);
            fill(buf, LINE_HORIZ, 1, a / 2);
            push_char(buf, LINE_CLOSE);
        },
        SpanMode::Event => {
            push_char(buf, LINE_BRANCH);
            fill(buf, LINE_HORIZ, 0, a - 1);
        },
    }
    proof {
        assert(buf@ =~= start + connector(style, a as int));
    }
}

fn push_soft(buf: &mut String, a: usize, corner: char, bracket: char)
    requires
        a > 0,
    ensures
        final(buf)@ == old(buf)@ + soft_connector(a as int, corner, bracket),
{
    let ghost start = buf@;
    push_char(buf, ' ');
    fill(buf, ' ', 1, a / 2);
    // A single column leaves no room for the corner.
    if a > 1 {
        push_char(buf, corner);
    }
    fill(buf, LINE_HORIZ, a / 2, a - 1);
    if a > 1 {
        push_char(buf, bracket);
    } else {
        push_char(buf, ' ');
    }
    proof {
        assert(buf@ =~= start + soft_connector(a as int, corner, bracket));
    }
}

proof fn lemma_each_line_step(lines: Seq<Seq<char>>, i: int, lead: Seq<char>)
    requires
        0 <= i < lines.len(),
    ensures
        each_line(lines.take(i + 1), lead) == each_line(lines.take(i), lead) + lead + lines[i]
            + seq!['\n'],
{
    assert(lines.take(i + 1).drop_last() =~= lines.take(i));
}

/// Appends the lines of `lines` from index `from` on, each preceded by `lead`.
pub fn push_each_line(buf: &mut String, lines: &Vec<Vec<char>>, from: usize, lead: &str)
    requires
        from <= lines.len(),
    ensures
        final(buf)@ == old(buf)@ + each_line(
            views(lines@).subrange(from as int, lines.len() as int),
            lead@,
        ),
{
    let ghost ls = views(lines@).subrange(from as int, lines.len() as int);
    let mut i: usize = from;
    proof {
        assert(ls.take(0) =~= Seq::<Seq<char>>::empty());
        assert(buf@ =~= old(buf)@ + each_line(ls.take(0), lead@));
    }
    while i < lines.len()
        invariant
            from <= i <= lines.len(),
            ls == views(lines@).subrange(from as int, lines.len() as int),
            buf@ == old(buf)@ + each_line(ls.take(i - from), lead@),
        decreases lines.len() - i,
    {
        push_str(buf, lead);
        push_chars(buf, &lines[i]);
        push_char(buf, '\n');
        proof {
            lemma_each_line_step(ls, i - from, lead@);
            assert(ls[i - from] == lines@[i as int]@);
            assert(buf@ =~= old(buf)@ + each_line(ls.take(i + 1 - from), lead@));
        }
        i = i + 1;
    }
    proof {
        assert(ls.take(i - from) =~= ls);
    }
}

/// Draws `lines` as one unit of a box-drawing tree at depth `indent`.
#[verifier::rlimit(40)]
pub fn indent_block_with_lines(
    lines: &Vec<Vec<char>>,
    buf: &mut String,
    indent: usize,
    indent_amount: usize,
    prefix: &str,
    style: SpanMode,
)
    requires
        indent_amount > 0,
        indent * indent_amount <= usize::MAX,
    ensures
        final(buf)@ == old(buf)@ + tree_block(
            views(lines@),
            indent as int,
            indent_amount as int,
            prefix@,
            style,
        ),
{
    let indent_spaces = indent * indent_amount;
    let ghost ls = views(lines@);
    if lines.len() == 0 {
        return;
    }
    if indent_spaces == 0 {
        // The outermost level only carries the open or close bracket.
        let mut lead = String::new();
        push_str(&mut lead, prefix);
        match style {
            SpanMode::Open { .. } | SpanMode::Retrace { .. } => push_char(&mut lead, LINE_OPEN),
            SpanMode::Close { .. } => push_char(&mut lead, LINE_CLOSE),
            _ => {},
        }
        proof {
            assert(lead@ =~= prefix@ + root_glyph(style));
            assert(ls.subrange(0, ls.len() as int) =~= ls);
        }
        push_each_line(buf, lines, 0, lead.as_str());
        return;
    }
    proof {
        assert(indent >= 1) by (nonlinear_arith)
            requires
                indent * indent_amount != 0,
        ;
        assert(indent * indent_amount - indent_amount == (indent - 1) * indent_amount)
            by (nonlinear_arith);
        assert((indent - 1) * indent_amount >= 0) by (nonlinear_arith)
            requires
                indent >= 1,
        ;
    }
    let mut s = String::new();
    push_str(&mut s, prefix);
    push_rep(&mut s, ' ', indent_spaces - indent_amount);
    let ghost lead = s@;
    let ghost start = buf@;
    push_str(buf, s.as_str());
    push_connector(buf, style, indent_amount);
    push_chars(buf, &lines[0]);
    push_char(buf, '\n');
    // The following lines get no branch, only the vertical bar.
    match style {
        SpanMode::Open { .. } | SpanMode::Retrace { .. } => {
            push_char(&mut s, ' ');
            push_char(&mut s, ' ');
        },
        SpanMode::Close { .. } => push_char(&mut s, ' '),
        _ => {},
    }
    push_char(&mut s, LINE_VERT);
    push_rep(&mut s, ' ', indent_amount);
    let ghost mid = buf@;
    push_each_line(buf, lines, 1, s.as_str());
    proof {
        assert(s@ =~= lead + continuation(style) + seq![LINE_VERT] + rep(' ', indent_amount as int));
        assert(ls.subrange(1, ls.len() as int) =~= ls.drop_first());
        assert(mid =~= start + lead + connector(style, indent_amount as int) + ls[0] + seq!['\n']);
        assert(buf@ =~= old(buf)@ + tree_block(ls, indent as int, indent_amount as int, prefix@, style));
    }
}

/// Draws the text of `block` as one unit at depth `indent`, with the
/// box-drawing tree or with whitespace.
pub fn indent_block(
    block: &str,
    buf: &mut String,
    indent: usize,
    indent_amount: usize,
    indent_lines: bool,
    prefix: &str,
    style: SpanMode,
)
    requires
        indent_amount > 0,
        (indent + 2) * indent_amount <= usize::MAX,
    ensures
        final(buf)@ == old(buf)@ + block_text(
            block@,
            indent as int,
            indent_amount as int,
            indent_lines,
            prefix@,
            style,
        ),
{
    proof {
        assert(indent * indent_amount + 2 <= (indent + 2) * indent_amount) by (nonlinear_arith)
            requires
                indent_amount > 0,
        ;
        assert((indent + 1) * indent_amount <= (indent + 2) * indent_amount) by (nonlinear_arith)
            requires
                indent_amount > 0,
        ;
        assert(indent + 2 <= (indent + 2) * indent_amount) by (nonlinear_arith)
            requires
                indent_amount > 0,
        ;
    }
    let chars = chars_of(block);
    let lines = split_lines(&chars);
    let indent_spaces = indent * indent_amount;
    let mut indent = indent;
    // The parent shown around a child's entry or exit lines up with the child.
    match style {
        SpanMode::PreOpen | SpanMode::PostClose => {
            indent = indent + 1;
        },
        _ => {},
    }
    if indent_lines {
        indent_block_with_lines(&lines, buf, indent, indent_amount, prefix, style);
    } else if lines.len() > 0 {
        let mut first = String::new();
        push_str(&mut first, prefix);
        push_char(&mut first, ' ');
        push_rep(&mut first, ' ', indent_spaces);
        let ghost start = buf@;
        push_str(buf, first.as_str());
        push_chars(buf, &lines[0]);
        push_char(buf, '\n');
        push_char(&mut first, ' ');
        push_char(&mut first, ' ');
        let ghost mid = buf@;
        push_each_line(buf, &lines, 1, first.as_str());
        proof {
            let ls = views(lines@);
            assert(first@ =~= prefix@ + seq![' '] + rep(' ', indent_spaces + 2));
            assert(ls.subrange(1, ls.len() as int) =~= ls.drop_first());
            assert(mid =~= start + prefix@ + seq![' '] + rep(' ', indent_spaces as int) + ls[0]
                + seq!['\n']);
            assert(buf@ =~= old(buf)@ + plain_block(ls, indent_spaces as int, prefix@));
        }
    }
}

/// The label that names a mode, as printed when span modes are shown.
pub open spec fn mode_label(style: SpanMode) -> Seq<char> {
    match style {
        SpanMode::Open { verbose } => if verbose {
            "open(v)"@
        } else {
            "open"@
        },
        SpanMode::Retrace { verbose } => if verbose {
            "retrace(v)"@
        } else {
            "retrace"@
        },
        SpanMode::Close { verbose } => if verbose {
            "close(v)"@
        } else {
            "close"@
        },
        SpanMode::PreOpen => "pre_open"@,
        SpanMode::PostClose => "post_close"@,
        SpanMode::Event => "event"@,
    }
}

/// Appends the label of `style` and a colon.
pub fn write_span_mode(buf: &mut String, style: SpanMode)
    ensures
        final(buf)@ == old(buf)@ + mode_label(style) + ": "@,
{
    match style {
        SpanMode::Open { verbose: true } => push_str(buf, "open(v)"),
        SpanMode::Open { verbose: false } => push_str(buf, "open"),
        SpanMode::Retrace { verbose: false } => push_str(buf, "retrace"),
        SpanMode::Retrace { verbose: true } => push_str(buf, "retrace(v)"),
        SpanMode::Close { verbose: true } => push_str(buf, "close(v)"),
        SpanMode::Close { verbose: false } => push_str(buf, "close"),
        SpanMode::PreOpen => push_str(buf, "pre_open"),
        SpanMode::PostClose => push_str(buf, "post_close"),
        SpanMode::Event => push_str(buf, "event"),
    }
    push_str(buf, ": ");
}

/// Whether the depth `indent` is the last level before the indentation
/// wraps back to zero, where a marker line is drawn.
pub open spec fn wraps(cfg: Config, indent: int) -> bool {
    cfg.indent_lines && indent > 0 && (indent + 1) % (cfg.wraparound as int) == 0
}

/// The marker line that shows where the indentation wraps: a horizontal
/// rule as wide as the current indent, ended by `end`.
pub open spec fn wrap_marker(cfg: Config, indent: int, prefix: Seq<char>, end: char) -> Seq<char> {
    prefix + rep(LINE_HORIZ, (indent % (cfg.wraparound as int)) * cfg.indent_amount) + seq![
        end,
        '\n',
    ]
}

/// The complete text of one unit whose content is `content`, drawn at depth
/// `indent`: a wrap marker comes before a closing unit and after an opening
/// one.
pub open spec fn unit_text(
    cfg: Config,
    content: Seq<char>,
    indent: int,
    prefix: Seq<char>,
    style: SpanMode,
) -> Seq<char> {
    let block = if cfg.indent_lines {
        content.push('\n')
    } else {
        content
    };
    let before = if wraps(cfg, indent) && (style is Close || style is PostClose) {
        wrap_marker(cfg, indent, prefix, LINE_OPEN)
    } else {
        Seq::empty()
    };
    let after = if wraps(cfg, indent) && (style is PreOpen || style is Open) {
        wrap_marker(cfg, indent, prefix, LINE_CLOSE)
    } else {
        Seq::empty()
    };
    before + block_text(
        block,
        indent % (cfg.wraparound as int),
        cfg.indent_amount as int,
        cfg.indent_lines,
        prefix,
        style,
    ) + after
}

/// Whether a unit at depth `indent` can be drawn without overflowing the
/// machine's integers.
pub open spec fn fits(cfg: Config, indent: int) -> bool {
    &&& indent + 1 <= usize::MAX
    &&& (indent % (cfg.wraparound as int) + 2) * cfg.indent_amount <= usize::MAX
}

proof fn lemma_width_fits(depth: int, a: int)
    requires
        depth >= 0,
        a >= 0,
    ensures
        0 <= depth * a <= (depth + 2) * a,
{
    assert(depth * a <= (depth + 2) * a) by (nonlinear_arith)
        requires
            a >= 0,
    ;
    assert(depth * a >= 0) by (nonlinear_arith)
        requires
            depth >= 0,
            a >= 0,
    ;
}

/// Appends a wrap marker: `prefix`, `n` horizontal rules, `end` and a
/// newline.
fn push_marker(buf: &mut String, prefix: &str, n: usize, end: char)
    ensures
        final(buf)@ == old(buf)@ + prefix@ + rep(LINE_HORIZ, n as int) + seq![end, '\n'],
{
    let ghost s0 = buf@;
    push_str(buf, prefix);
    push_rep(buf, LINE_HORIZ, n);
    push_char(buf, end);
    push_char(buf, '\n');
    proof {
        assert(buf@ =~= s0 + prefix@ + rep(LINE_HORIZ, n as int) + seq![end, '\n']);
    }
}

/// The scratch space of the renderer, and the span printed last.
pub struct Buffers {
    /// The unit being composed.
    pub current_buf: String,
    /// The unit being indented.
    pub indent_buf: String,
    /// The span whose line was printed last; the next unit is drawn as a
    /// continuation of the tree from there.
    pub current_span: Option<u64>,
}

impl Buffers {
    pub fn new() -> (r: Self)
        ensures
            r.current_buf@ == Seq::<char>::empty(),
            r.indent_buf@ == Seq::<char>::empty(),
            r.current_span is None,
    {
        Buffers { current_buf: String::new(), indent_buf: String::new(), current_span: None }
    }

    /// Moves the composed text to the end of `out`.
    pub fn flush_current_buf(&mut self, out: &mut String)
        ensures
            final(out)@ == old(out)@ + old(self).current_buf@,
            final(self).current_buf@ == Seq::<char>::empty(),
            final(self).indent_buf == old(self).indent_buf,
            final(self).current_span == old(self).current_span,
    {
        push_str(out, self.current_buf.as_str());
        self.current_buf = String::new();
    }

    /// Moves the indented text to the end of the composed text.
    pub fn flush_indent_buf(&mut self)
        ensures
            final(self).current_buf@ == old(self).current_buf@ + old(self).indent_buf@,
            final(self).indent_buf@ == Seq::<char>::empty(),
            final(self).current_span == old(self).current_span,
    {
        push_str(&mut self.current_buf, self.indent_buf.as_str());
        self.indent_buf = String::new();
    }

    /// Replaces the composed content by the whole unit drawn at depth
    /// `indent`, wrap markers included.
    #[verifier::rlimit(50)]
    pub fn indent_current(&mut self, indent: usize, config: &Config, prefix: &str, style: SpanMode)
        requires
            config.wf(),
            fits(*config, indent as int),
        ensures
            final(self).current_buf@ == old(self).indent_buf@ + unit_text(
                *config,
                old(self).current_buf@,
                indent as int,
                prefix@,
                style,
            ),
            final(self).indent_buf@ == Seq::<char>::empty(),
            final(self).current_span == old(self).current_span,
    {
        let ghost content = self.current_buf@;
        let ghost old_indent = self.indent_buf@;
        let wrap = config.indent_lines && indent > 0 && (indent + 1) % config.wraparound == 0;
        let depth = indent % config.wraparound;
        proof {
            lemma_width_fits(depth as int, config.indent_amount as int);
        }
        // Show where the indentation wraps around, so that a reader notices.
        if config.indent_lines {
            push_char(&mut self.current_buf, '\n');
            match style {
                SpanMode::Close { .. } | SpanMode::PostClose => {
                    if wrap {
                        push_marker(&mut self.indent_buf, prefix, depth * config.indent_amount, LINE_OPEN);
                    }
                },
                _ => {},
            }
        }
        indent_block(
            self.current_buf.as_str(),
            &mut self.indent_buf,
            depth,
            config.indent_amount,
            config.indent_lines,
            prefix,
            style,
        );
        self.current_buf = String::new();
        self.flush_indent_buf();
        if config.indent_lines {
            match style {
                SpanMode::PreOpen | SpanMode::Open { .. } => {
                    if wrap {
                        push_marker(&mut self.current_buf, prefix, depth * config.indent_amount, LINE_CLOSE);
                    }
                },
                _ => {},
            }
        }
        proof {
            let u = unit_text(*config, content, indent as int, prefix@, style);
            assert(wrap == wraps(*config, indent as int));
            assert(self.current_buf@ =~= old_indent + u);
        }
    }
}

} // verus!
