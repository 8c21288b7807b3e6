use tracing_tree::config::ThreadInfo;
use tracing_tree::render::{indent_block, write_span_mode, Buffers, SpanMode};
use tracing_tree::text::{chars_of, split_lines};
use tracing_tree::Config;

fn plain_config() -> Config {
    Config::default().with_ansi(false)
}

fn no_thread() -> ThreadInfo {
    ThreadInfo { id: "ThreadId(1)".to_string(), name: None }
}

fn unit(config: &Config, content: &str, depth: usize, style: SpanMode) -> String {
    let mut bufs = Buffers::new();
    bufs.current_buf.push_str(content);
    bufs.indent_current(depth, config, "", style);
    let mut out = String::new();
    bufs.flush_current_buf(&mut out);
    out
}

#[test]
fn open_at_depth_one_draws_corner_fill_and_bracket() {
    let config = plain_config().with_indent_lines(true);
    assert_eq!(config.indent_amount, 2);
    let out = unit(&config, "conn peer=A", 1, SpanMode::Open { verbose: false });
    assert_eq!(out, "└─┐conn peer=A\n");
}

#[test]
fn connectors_by_mode() {
    let config = plain_config().with_indent_lines(true);
    assert_eq!(unit(&config, "x", 1, SpanMode::Event), "├─x\n");
    assert_eq!(unit(&config, "x", 1, SpanMode::Close { verbose: false }), "┌─┘x\n");
    assert_eq!(unit(&config, "x", 1, SpanMode::Retrace { verbose: true }), " └┐x\n");
    assert_eq!(unit(&config, "x", 1, SpanMode::Close { verbose: true }), " ┌┘x\n");
    // The parent shown around a child is drawn one level deeper.
    assert_eq!(unit(&config, "p", 0, SpanMode::PreOpen), "└┐p\n");
    assert_eq!(unit(&config, "p", 0, SpanMode::PostClose), "┌┘p\n");
    assert_eq!(unit(&config, "x", 2, SpanMode::Event), "  ├─x\n");
}

#[test]
fn outermost_level_carries_only_the_bracket() {
    let config = plain_config().with_indent_lines(true);
    assert_eq!(unit(&config, "root", 0, SpanMode::Open { verbose: false }), "┐root\n");
    assert_eq!(unit(&config, "root", 0, SpanMode::Close { verbose: false }), "┘root\n");
    assert_eq!(unit(&config, "ev", 0, SpanMode::Event), "ev\n");
}

#[test]
fn single_column_indent_degrades_verbose_connectors() {
    let config = Config { indent_amount: 1, ..plain_config().with_indent_lines(true) };
    assert_eq!(unit(&config, "x", 1, SpanMode::Open { verbose: true }), "  x\n");
    assert_eq!(unit(&config, "x", 1, SpanMode::Open { verbose: false }), "└┐x\n");
    assert_eq!(unit(&config, "x", 1, SpanMode::Event), "├x\n");
}

#[test]
fn wide_indent_connectors() {
    let config = Config { indent_amount: 4, ..plain_config().with_indent_lines(true) };
    assert_eq!(unit(&config, "x", 1, SpanMode::Open { verbose: false }), "└───┐x\n");
    assert_eq!(unit(&config, "x", 1, SpanMode::Open { verbose: true }), "  └─┐x\n");
    assert_eq!(unit(&config, "x", 1, SpanMode::Event), "├───x\n");
    assert_eq!(unit(&config, "x", 2, SpanMode::Event), "    ├───x\n");
}

#[test]
fn multi_line_blocks_continue_with_a_vertical_bar() {
    let config = plain_config().with_indent_lines(true);
    assert_eq!(
        unit(&config, "first\nsecond", 1, SpanMode::Open { verbose: false }),
        "└─┐first\n  │  second\n"
    );
    assert_eq!(unit(&config, "first\nsecond", 1, SpanMode::Event), "├─first\n│  second\n");
}

#[test]
fn whitespace_indentation() {
    let config = plain_config();
    assert_eq!(unit(&config, "x", 0, SpanMode::Open { verbose: false }), " x\n");
    assert_eq!(unit(&config, "x", 2, SpanMode::Event), "     x\n");
    assert_eq!(unit(&config, "a\nb", 1, SpanMode::Event), "   a\n     b\n");
    // Nothing to show: no line at all.
    assert_eq!(unit(&config, "", 1, SpanMode::Close { verbose: false }), "");
}

#[test]
fn wraparound_markers() {
    let config = plain_config().with_indent_lines(true).with_wraparound(2);
    // Depth 1 is the last level before the wrap: the marker follows an
    // opening unit and precedes a closing one.
    assert_eq!(unit(&config, "x", 1, SpanMode::Open { verbose: false }), "└─┐x\n──┘\n");
    assert_eq!(unit(&config, "", 1, SpanMode::Close { verbose: false }), "──┐\n┌─┘\n");
    assert_eq!(unit(&config, "x", 1, SpanMode::Event), "├─x\n");
    // Depth 2 is drawn at depth 0, depth 3 at depth 1.
    assert_eq!(unit(&config, "x", 2, SpanMode::Open { verbose: false }), "┐x\n");
    assert_eq!(unit(&config, "x", 3, SpanMode::Open { verbose: false }), "└─┐x\n──┘\n");
    // Without the tree there is no marker, only the reset.
    let plain = plain_config().with_wraparound(2);
    assert_eq!(unit(&plain, "x", 3, SpanMode::Open { verbose: false }), "   x\n");
}

#[test]
fn span_mode_labels() {
    let mut s = String::new();
    write_span_mode(&mut s, SpanMode::Open { verbose: true });
    write_span_mode(&mut s, SpanMode::Retrace { verbose: false });
    write_span_mode(&mut s, SpanMode::Close { verbose: false });
    write_span_mode(&mut s, SpanMode::PreOpen);
    write_span_mode(&mut s, SpanMode::PostClose);
    write_span_mode(&mut s, SpanMode::Event);
    assert_eq!(s, "open(v): retrace: close: pre_open: post_close: event: ");
}

#[test]
fn indent_block_uses_the_given_prefix() {
    let mut buf = String::new();
    indent_block("a\nb", &mut buf, 1, 2, true, "7:", SpanMode::Event);
    assert_eq!(buf, "7:├─a\n7:│  b\n");
}

#[test]
fn lines_are_split_like_std() {
    let chars = chars_of("a\r\nb\n\nc\r");
    let lines = split_lines(&chars);
    let got: Vec<String> = lines.iter().map(|l| l.iter().collect()).collect();
    assert_eq!(got, vec!["a", "b", "", "c\r"]);
    assert!(split_lines(&chars_of("")).is_empty());
    assert_eq!(split_lines(&chars_of("\n")).len(), 1);
}

#[test]
fn thread_prefix() {
    let thread = ThreadInfo { id: "ThreadId(7)".to_string(), name: Some("main".to_string()) };
    let both = Config::default().with_thread_ids(true).with_thread_names(true);
    assert_eq!(both.prefix(&thread), "7:main");
    assert_eq!(Config::default().with_thread_ids(true).prefix(&thread), "7");
    assert_eq!(Config::default().with_thread_names(true).prefix(&thread), "main");
    assert_eq!(Config::default().prefix(&thread), "");
    let unnamed = no_thread();
    assert_eq!(both.prefix(&unnamed), "1");
}

#[test]
fn config_defaults_and_builders() {
    let c = Config::default();
    assert!(c.ansi);
    assert!(!c.indent_lines);
    assert_eq!(c.indent_amount, 2);
    assert_eq!(c.wraparound, usize::MAX);
    assert!(!c.deferred_spans && !c.span_retrace && !c.verbose_entry && !c.verbose_exit);
    let c = c
        .with_ansi(false)
        .with_indent_lines(true)
        .with_targets(true)
        .with_thread_ids(true)
        .with_thread_names(true)
        .with_wraparound(5)
        .with_verbose_entry(true)
        .with_verbose_exit(true)
        .with_span_retrace(true)
        .with_deferred_spans(true)
        .with_span_modes(true)
        .with_bracketed_fields(true);
    assert!(!c.ansi && c.indent_lines && c.targets && c.render_thread_ids);
    assert!(c.render_thread_names && c.verbose_entry && c.verbose_exit && c.span_retrace);
    assert!(c.deferred_spans && c.span_modes && c.bracketed_fields);
    assert_eq!(c.wraparound, 5);
}
