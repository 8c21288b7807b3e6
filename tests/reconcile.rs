use tracing_tree::config::ThreadInfo;
use tracing_tree::retrace::{common_prefix, path_difference, DifferenceIter};
use tracing_tree::{Config, EventRecord, Level, NewSpan, Renderer};

fn thread() -> ThreadInfo {
    ThreadInfo { id: "ThreadId(1)".to_string(), name: None }
}

fn span(id: u64, ancestors: Vec<u64>, name: &str, fields: &[(&str, &str)]) -> NewSpan {
    NewSpan {
        id,
        ancestors,
        name: name.to_string(),
        target: "app::net".to_string(),
        fields: fields.iter().map(|(k, v)| (k.to_string(), v.to_string())).collect(),
        start: 0,
    }
}

fn event(span: Option<u64>, level: Level, message: &str) -> EventRecord {
    EventRecord {
        span,
        level,
        target: "app::net".to_string(),
        fields: vec![("message".to_string(), message.to_string())],
    }
}

fn tree_config() -> Config {
    Config::default().with_ansi(false).with_indent_lines(true)
}

#[test]
fn common_prefix_of_diverging_paths() {
    let a = vec![1, 2, 3];
    let b = vec![1, 2, 4];
    assert_eq!(common_prefix(&a, &b), 2);
    assert_eq!(path_difference(&a, b.clone()), vec![4]);
    assert_eq!(path_difference(&vec![], b.clone()), vec![1, 2, 4]);
    assert_eq!(path_difference(&b, b.clone()), Vec::<u64>::new());
    assert_eq!(path_difference(&vec![1, 2, 4, 9], vec![1, 2]), Vec::<u64>::new());
    let mut it = DifferenceIter::new(&vec![1, 5], vec![1, 2, 3]);
    assert_eq!(it.next(), Some(2));
    assert_eq!(it.next(), Some(3));
    assert_eq!(it.next(), None);
}

#[test]
fn peer_spans_retrace_only_the_sibling() {
    let mut r = Renderer::new(tree_config().with_span_retrace(true));
    let t = thread();
    assert_eq!(r.on_new_span(span(1, vec![], "server", &[]), &t), "┐server \n");
    assert_eq!(r.on_new_span(span(2, vec![1], "conn", &[("peer", "A")]), &t), "└─┐conn peer=A\n");
    assert_eq!(r.on_new_span(span(3, vec![1], "conn", &[("peer", "B")]), &t), "└─┐conn peer=B\n");
    let a = r.on_event(&event(Some(2), Level::Info, "connected"), "", "", &t);
    assert_eq!(a, "└─┐conn peer=A\n  ├─ INFO connected\n");
    let b = r.on_event(&event(Some(3), Level::Info, "connected"), "", "", &t);
    assert_eq!(b, "└─┐conn peer=B\n  ├─ INFO connected\n");
    assert!(!b.contains("server"));
}

#[test]
fn repeated_events_in_one_span_print_one_banner() {
    let mut r = Renderer::new(tree_config().with_deferred_spans(true));
    let t = thread();
    assert_eq!(r.on_new_span(span(1, vec![], "work", &[("n", "3")]), &t), "");
    let first = r.on_event(&event(Some(1), Level::Debug, "one"), "", "", &t);
    assert_eq!(first, "┐work n=3\n├─ DEBUG one\n");
    let second = r.on_event(&event(Some(1), Level::Debug, "two"), "", "", &t);
    assert_eq!(second, "├─ DEBUG two\n");
    let third = r.on_event(&event(Some(1), Level::Warn, "three"), "", "", &t);
    assert_eq!(third, "├─ WARN three\n");
}

#[test]
fn deferred_span_without_events_prints_nothing() {
    let mut r = Renderer::new(tree_config().with_deferred_spans(true));
    let t = thread();
    assert_eq!(r.on_new_span(span(1, vec![], "outer", &[]), &t), "");
    assert_eq!(r.on_new_span(span(2, vec![1], "quiet", &[]), &t), "");
    assert_eq!(r.on_new_span(span(3, vec![1], "busy", &[]), &t), "");
    let out = r.on_event(&event(Some(3), Level::Info, "hi"), "", "", &t);
    assert_eq!(out, "┐outer \n└─┐busy \n  ├─ INFO hi\n");
    assert!(!r.spans.get(&2).unwrap().written);
    assert_eq!(r.on_close(2, &t), "");
    assert_eq!(r.on_close(3, &t), "┌─┘\n");
    assert_eq!(r.on_close(1, &t), "┘\n");
}

#[test]
fn eager_mode_opens_and_closes() {
    let mut r = Renderer::new(tree_config());
    let t = thread();
    assert_eq!(r.on_new_span(span(1, vec![], "a", &[("message", "hello"), ("x", "1")]), &t), "┐a hello, x=1\n");
    assert_eq!(r.on_new_span(span(2, vec![1], "b", &[]), &t), "└─┐b \n");
    assert_eq!(r.on_event(&event(Some(2), Level::Error, "bad"), "", "", &t), "  ├─ ERROR bad\n");
    assert_eq!(r.on_close(2, &t), "┌─┘\n");
    assert_eq!(r.bufs.current_span, Some(1));
    assert_eq!(r.on_close(1, &t), "┘\n");
    assert!(r.spans.is_empty());
}

#[test]
fn verbose_entry_and_exit_show_the_parent() {
    let config = tree_config().with_verbose_entry(true).with_verbose_exit(true);
    let mut r = Renderer::new(config);
    let t = thread();
    assert_eq!(r.on_new_span(span(1, vec![], "p", &[]), &t), "┐p \n");
    assert_eq!(r.on_new_span(span(2, vec![1], "c", &[]), &t), "└┐p \n └┐c \n");
    assert_eq!(r.on_close(2, &t), " ┌┘c \n┌┘p \n");
}

#[test]
fn closed_span_in_focus_gives_the_whole_path() {
    let mut r = Renderer::new(tree_config().with_span_retrace(true));
    let t = thread();
    r.on_new_span(span(1, vec![], "root", &[]), &t);
    r.on_new_span(span(2, vec![1], "mid", &[]), &t);
    assert_eq!(r.on_close(2, &t), "┌─┘\n");
    r.on_new_span(span(3, vec![], "other", &[]), &t);
    assert_eq!(r.on_close(3, &t), "┘\n");
    // The span in focus is gone: the path to the event is printed anew.
    let out = r.on_event(&event(Some(1), Level::Info, "back"), "", "", &t);
    assert_eq!(out, "┐root \n├─ INFO back\n");
}

#[test]
fn event_line_parts() {
    let config = Config::default()
        .with_ansi(false)
        .with_targets(true)
        .with_bracketed_fields(true)
        .with_span_modes(true);
    let mut r = Renderer::new(config);
    let t = ThreadInfo { id: "ThreadId(4)".to_string(), name: Some("w".to_string()) };
    let opened = r.on_new_span(span(1, vec![], "s", &[("k", "v")]), &t);
    assert_eq!(opened, " open: app::net::s{k=v}\n");
    let ev = EventRecord {
        span: Some(1),
        level: Level::Trace,
        target: "app::db".to_string(),
        fields: vec![
            ("log.target".to_string(), "x".to_string()),
            ("message".to_string(), "done".to_string()),
            ("rows".to_string(), "2".to_string()),
        ],
    };
    let out = r.on_event(&ev, "12:00", "  5ms", &t);
    assert_eq!(out, " 12:00   5ms TRACE app::db done, rows=2\n");
    let none = EventRecord { span: None, ..ev };
    assert_eq!(r.on_event(&none, "", "ignored", &t), " TRACE app::db done, rows=2\n");
}

#[test]
fn colored_level_and_name() {
    let mut r = Renderer::new(Config::default().with_indent_lines(true));
    let t = thread();
    let out = r.on_new_span(span(1, vec![], "s", &[]), &t);
    assert_eq!(out, "┐\u{1b}[1;32ms\u{1b}[0m \n");
    let ev = r.on_event(&event(None, Level::Info, "m"), "", "", &t);
    assert_eq!(ev, "\u{1b}[1;32m INFO\u{1b}[0m m\n");
}

#[test]
fn every_output_is_whole_lines() {
    let mut r = Renderer::new(tree_config().with_span_retrace(true).with_verbose_exit(true));
    let t = thread();
    let mut outs = vec![];
    outs.push(r.on_new_span(span(1, vec![], "a", &[]), &t));
    outs.push(r.on_new_span(span(2, vec![1], "b", &[("m", "x\ny")]), &t));
    outs.push(r.on_event(&event(Some(2), Level::Info, "multi\nline"), "", "", &t));
    outs.push(r.on_close(2, &t));
    outs.push(r.on_close(1, &t));
    for o in outs {
        assert!(o.is_empty() || o.ends_with('\n'));
    }
}

#[test]
fn elapsed_time_of_a_span() {
    let mut r = Renderer::new(tree_config());
    let t = thread();
    let mut s = span(1, vec![], "a", &[]);
    s.start = 1_000;
    r.on_new_span(s, &t);
    assert_eq!(r.span_elapsed(1, 6_000), Some(5_000));
    assert_eq!(r.span_elapsed(1, 10), Some(0));
    assert_eq!(r.span_elapsed(2, 6_000), None);
}

#[test]
fn parent_is_shown_again_on_entry_only() {
    let config = tree_config().with_span_retrace(true).with_verbose_entry(true);
    let mut r = Renderer::new(config);
    let t = thread();
    assert_eq!(r.on_new_span(span(1, vec![], "p", &[]), &t), "┐p \n");
    assert_eq!(r.on_new_span(span(2, vec![1], "c", &[]), &t), "└┐p \n └┐c \n");
    assert_eq!(r.on_new_span(span(3, vec![1], "d", &[]), &t), "└┐p \n └┐d \n");
    let out = r.on_event(&event(Some(2), Level::Info, "x"), "", "", &t);
    assert_eq!(out, "└─┐c \n  ├─ INFO x\n");
}

#[test]
fn message_field_shows_its_value_in_any_position() {
    let mut r = Renderer::new(tree_config());
    let t = thread();
    let out = r.on_new_span(span(1, vec![], "s", &[("x", "1"), ("message", "hi"), ("y", "2")]), &t);
    assert_eq!(out, "┐s x=1, hi, y=2\n");
}

#[test]
fn warn_level_uses_its_rgb_color() {
    let mut r = Renderer::new(Config::default().with_indent_lines(true));
    let t = thread();
    let ev = r.on_event(&event(None, Level::Warn, "w"), "", "", &t);
    assert_eq!(ev, "\u{1b}[1;38;2;252;234;160m WARN\u{1b}[0m w\n");
}
