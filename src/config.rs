//! The options that shape the rendering, and the per-thread line prefix.
use vstd::prelude::*;
use crate::text::{chars_of, push_char, push_chars, push_str};

verus! {

/// Rendering options; fixed once a layer is built.
#[derive(Debug, Clone, Copy, PartialEq, Eq, Structural)]
pub struct Config {
    /// Whether to use colors.
    pub ansi: bool,
    /// Whether to draw a box-drawing tree (or else indent with whitespace).
    pub indent_lines: bool,
    /// The width of one level of indentation.
    pub indent_amount: usize,
    /// Whether to show targets (module paths).
    pub targets: bool,
    /// Whether to show thread ids.
    pub render_thread_ids: bool,
    /// Whether to show thread names.
    pub render_thread_names: bool,
    /// After how many levels the indentation wraps back to zero.
    pub wraparound: usize,
    /// Whether to print the current span again before entering a new one.
    pub verbose_entry: bool,
    /// Whether to print the parent span again after a child closes.
    pub verbose_exit: bool,
    /// Whether to print the path up to a span when a different span was
    /// printed in the meantime.
    pub span_retrace: bool,
    /// Whether to put braces around the fields of a span.
    pub bracketed_fields: bool,
    /// Whether to print a span only once an event happens inside it.
    pub deferred_spans: bool,
    /// Whether to label each unit with its mode (open, close, ...).
    pub span_modes: bool,
}

impl Config {
    /// The indent width and the wraparound modulus are positive.
    pub open spec fn wf(&self) -> bool {
        self.indent_amount > 0 && self.wraparound > 0
    }

    pub fn with_ansi(self, ansi: bool) -> (r: Self)
        ensures
            r == (Config { ansi, ..self }),
    {
        Config { ansi, ..self }
    }

    pub fn with_indent_lines(self, indent_lines: bool) -> (r: Self)
        ensures
            r == (Config { indent_lines, ..self }),
    {
        Config { indent_lines, ..self }
    }

    pub fn with_targets(self, targets: bool) -> (r: Self)
        ensures
            r == (Config { targets, ..self }),
    {
        Config { targets, ..self }
    }

    pub fn with_thread_ids(self, render_thread_ids: bool) -> (r: Self)
        ensures
            r == (Config { render_thread_ids, ..self }),
    {
        Config { render_thread_ids, ..self }
    }

    pub fn with_thread_names(self, render_thread_names: bool) -> (r: Self)
        ensures
            r == (Config { render_thread_names, ..self }),
    {
        Config { render_thread_names, ..self }
    }

    pub fn with_wraparound(self, wraparound: usize) -> (r: Self)
        ensures
            r == (Config { wraparound, ..self }),
    {
        Config { wraparound, ..self }
    }

    pub fn with_verbose_entry(self, verbose_entry: bool) -> (r: Self)
        ensures
            r == (Config { verbose_entry, ..self }),
    {
        Config { verbose_entry, ..self }
    }

    pub fn with_verbose_exit(self, verbose_exit: bool) -> (r: Self)
        ensures
            r == (Config { verbose_exit, ..self }),
    {
        Config { verbose_exit, ..self }
    }

    pub fn with_span_retrace(self, enabled: bool) -> (r: Self)
        ensures
            r == (Config { span_retrace: enabled, ..self }),
    {
        Config { span_retrace: enabled, ..self }
    }

    pub fn with_deferred_spans(self, enable: bool) -> (r: Self)
        ensures
            r == (Config { deferred_spans: enable, ..self }),
    {
        Config { deferred_spans: enable, ..self }
    }

    pub fn with_span_modes(self, enable: bool) -> (r: Self)
        ensures
            r == (Config { span_modes: enable, ..self }),
    {
        Config { span_modes: enable, ..self }
    }

    pub fn with_bracketed_fields(self, bracketed_fields: bool) -> (r: Self)
        ensures
            r == (Config { bracketed_fields, ..self }),
    {
        Config { bracketed_fields, ..self }
    }

    /// The text put in front of every line: the thread id and name, as
    /// configured.
    pub fn prefix(&self, thread: &ThreadInfo) -> (r: String)
        ensures
            r@ == prefix_text(*self, thread.id@, thread_name_view(thread.name)),
    {
        let mut buf = String::new();
        if self.render_thread_ids {
            let id = thread_number(thread.id.as_str());
            push_chars(&mut buf, &id);
        }
        if self.render_thread_names {
            match &thread.name {
                Some(name) => {
                    if self.render_thread_ids {
                        push_char(&mut buf, ':');
                    }
                    push_str(&mut buf, name.as_str());
                },
                None => {},
            }
        }
        buf
    }
}

/// The defaults: colors on, whitespace indentation two columns wide, no
/// wraparound, and every optional part of the output off.
pub open spec fn default_config() -> Config {
    Config {
        ansi: true,
        indent_lines: false,
        indent_amount: 2,
        targets: false,
        render_thread_ids: false,
        render_thread_names: false,
        wraparound: usize::MAX,
        verbose_entry: false,
        verbose_exit: false,
        span_retrace: false,
        bracketed_fields: false,
        deferred_spans: false,
        span_modes: false,
    }
}

impl Default for Config {
    fn default() -> (r: Self)
        ensures
            r == default_config(),
    {
        Config {
            ansi: true,
            indent_lines: false,
            indent_amount: 2,
            targets: false,
            render_thread_ids: false,
            render_thread_names: false,
            wraparound: usize::MAX,
            verbose_entry: false,
            verbose_exit: false,
            span_retrace: false,
            bracketed_fields: false,
            deferred_spans: false,
            span_modes: false,
        }
    }
}

/// The thread on which a callback runs: the debug text of its id (such as
/// `ThreadId(3)`) and its name, if it has one.
pub struct ThreadInfo {
    pub id: String,
    pub name: Option<String>,
}

pub open spec fn thread_name_view(name: Option<String>) -> Option<Seq<char>> {
    match name {
        Some(n) => Some(n@),
        None => None,
    }
}

pub open spec fn thread_id_head() -> Seq<char> {
    seq!['T', 'h', 'r', 'e', 'a', 'd', 'I', 'd', '(']
}

/// The number inside the debug text of a thread id: a closing parenthesis
/// at the end and the `ThreadId(` in front are taken away where present.
pub open spec fn thread_number_text(t: Seq<char>) -> Seq<char> {
    let a = if t.len() > 0 && t.last() == ')' {
        t.drop_last()
    } else {
        t
    };
    if a.len() >= 9 && a.take(9) == thread_id_head() {
        a.skip(9)
    } else {
        a
    }
}

pub open spec fn prefix_text(cfg: Config, id: Seq<char>, name: Option<Seq<char>>) -> Seq<char> {
    let ids = if cfg.render_thread_ids {
        thread_number_text(id)
    } else {
        Seq::empty()
    };
    let names = if cfg.render_thread_names && name is Some {
        (if cfg.render_thread_ids {
            seq![':']
        } else {
            Seq::empty()
        }) + name->0
    } else {
        Seq::empty()
    };
    ids + names
}

fn thread_number(t: &str) -> (r: Vec<char>)
    ensures
        r@ == thread_number_text(t@),
{
    let mut a = chars_of(t);
    if a.len() > 0 && a[a.len() - 1] == ')' {
        a.pop();
    }
    let head = vec!['T', 'h', 'r', 'e', 'a', 'd', 'I', 'd', '('];
    let ghost a0 = a@;
    proof {
        let t0 = t@;
        let b = if t0.len() > 0 && t0.last() == ')' { t0.drop_last() } else { t0 };
        assert(a0 =~= b);
    }
    if a.len() < 9 {
        return a;
    }
    let mut i: usize = 0;
    while i < 9
        invariant
            i <= 9,
            a.len() >= 9,
            head@ == thread_id_head(),
            a@ == a0,
            a0 == (if t@.len() > 0 && t@.last() == ')' { t@.drop_last() } else { t@ }),
            forall|j: int| 0 <= j < i ==> a@[j] == head@[j],
        decreases 9 - i,
    {
        if a[i] != head[i] {
            proof {
                assert(a@.take(9)[i as int] != thread_id_head()[i as int]);
                assert(a@.take(9) != thread_id_head());
                assert(a@ == a0);
                assert(thread_number_text(t@) == a0);
            }
            return a;
        }
        i = i + 1;
    }
    proof {
        assert(a@.take(9) =~= thread_id_head());
    }
    let mut out: Vec<char> = Vec::new();
    let mut k: usize = 9;
    while k < a.len()
        invariant
            9 <= k <= a.len(),
            out@ == a@.subrange(9, k as int),
        decreases a.len() - k,
    {
        out.push(a[k]);
        proof {
            assert(a@.subrange(9, k + 1) =~= a@.subrange(9, k as int).push(a@[k as int]));
        }
        k = k + 1;
    }
    proof {
        assert(out@ =~= a@.skip(9));
    }
    out
}

} // verus!
