//! Markdown rendered to styled terminal lines: the events of a parsed
//! document are read one by one and turned into lines of styled spans.
use vstd::prelude::*;

use crate::text::{
    byte_len, chars_of, join_with, push_chars, split_on, split_on_exec, string_from_chars, trim,
    trim_chars,
};

verus! {

/// A colour of the terminal.
#[derive(Clone, Copy, Debug, PartialEq, Eq, Structural)]
pub enum Color {
    Yellow,
    Cyan,
    Green,
    White,
    DarkGray,
    Blue,
    Rgb(u8, u8, u8),
}

/// How a span is drawn: its foreground colour, if any, and its modifiers.
#[derive(Clone, Copy, Debug, PartialEq, Eq, Structural)]
pub struct Style {
    pub fg: Option<Color>,
    pub bold: bool,
    pub italic: bool,
    pub underlined: bool,
}

/// A run of text drawn in one style.
pub struct Span {
    pub content: String,
    pub style: Style,
}

/// One line on screen.
pub struct Line {
    pub spans: Vec<Span>,
}

/// A span as text and style.
pub type SpanV = (Seq<char>, Style);

pub open spec fn span_view(sp: Span) -> SpanV {
    (sp.content@, sp.style)
}

pub open spec fn spans_view(v: Seq<Span>) -> Seq<SpanV> {
    v.map_values(|sp: Span| span_view(sp))
}

pub open spec fn line_view(l: Line) -> Seq<SpanV> {
    spans_view(l.spans@)
}

pub open spec fn lines_view(v: Seq<Line>) -> Seq<Seq<SpanV>> {
    v.map_values(|l: Line| line_view(l))
}

/// What the parser of a document reports, in document order.
pub enum MdEvent {
    /// A heading of the given level (1 to 6) starts.
    StartHeading(u8),
    EndHeading,
    StartParagraph,
    EndParagraph,
    StartStrong,
    EndStrong,
    StartEmphasis,
    EndEmphasis,
    /// A code block starts: fenced with its info string, or indented.
    StartCodeBlock(Option<String>),
    EndCodeBlock,
    StartBlockQuote,
    EndBlockQuote,
    /// A list starts: ordered from the given number, or unordered.
    StartList(Option<u64>),
    /// A list ends; whether it was ordered.
    EndList(bool),
    StartItem,
    EndItem,
    StartLink,
    EndLink,
    StartTable,
    EndTable,
    StartTableHead,
    EndTableHead,
    StartTableRow,
    EndTableRow,
    StartTableCell,
    EndTableCell,
    /// Inline code.
    Code(String),
    Text(String),
    SoftBreak,
    HardBreak,
    /// A horizontal rule.
    Rule,
    /// The check box of a task list item.
    TaskListMarker(bool),
    /// Inline or display math, shown as text.
    Math(String),
    /// Anything the rendering does not show (HTML, images, footnotes, ...).
    Other,
}

/// The style with nothing set.
pub open spec fn plain() -> Style {
    Style { fg: None, bold: false, italic: false, underlined: false }
}

pub open spec fn colored(c: Color) -> Style {
    Style { fg: Some(c), ..plain() }
}

/// The state of the rendering between two events.
pub struct MdState {
    pub lines: Seq<Seq<SpanV>>,
    pub cur: Seq<SpanV>,
    pub indent: Seq<char>,
    pub bold: bool,
    pub italic: bool,
    pub in_code: bool,
    pub in_quote: bool,
    pub heading: Option<u8>,
    pub depth: nat,
    pub counters: Seq<u64>,
    pub in_link: bool,
    pub code_lang: Option<Seq<char>>,
    pub code_buf: Seq<char>,
    pub cells: Seq<Seq<char>>,
    pub header_done: bool,
}

/// The state before the first event.
pub open spec fn md_init(indent: Seq<char>) -> MdState {
    MdState {
        lines: Seq::empty(),
        cur: Seq::empty(),
        indent,
        bold: false,
        italic: false,
        in_code: false,
        in_quote: false,
        heading: None,
        depth: 0,
        counters: Seq::empty(),
        in_link: false,
        code_lang: None,
        code_buf: Seq::empty(),
        cells: Seq::empty(),
        header_done: false,
    }
}

/// The style of text at this point: yellow inside a code block; else by
/// heading level, then grey italic in a quote, blue underlined in a link,
/// bold and italic as marked.
pub open spec fn style_of(s: MdState) -> Style {
    if s.in_code {
        colored(Color::Yellow)
    } else {
        let base = match s.heading {
            Some(l) => Style {
                fg: Some(
                    if l == 1 {
                        Color::Cyan
                    } else if l == 2 {
                        Color::Green
                    } else if l == 3 {
                        Color::Yellow
                    } else {
                        Color::White
                    },
                ),
                bold: true,
                ..plain()
            },
            None => plain(),
        };
        let q = if s.in_quote {
            Style { fg: Some(Color::DarkGray), italic: true, ..base }
        } else {
            base
        };
        let k = if s.in_link {
            Style { fg: Some(Color::Blue), underlined: true, ..q }
        } else {
            q
        };
        let b = if s.bold {
            Style { bold: true, ..k }
        } else {
            k
        };
        if s.italic {
            Style { italic: true, ..b }
        } else {
            b
        }
    }
}

/// The indentation span that starts a line, when there is indentation.
pub open spec fn indent_spans(indent: Seq<char>) -> Seq<SpanV> {
    if indent.len() > 0 {
        seq![(indent, plain())]
    } else {
        Seq::empty()
    }
}

pub open spec fn quote_bar() -> SpanV {
    ("│ "@, colored(Color::DarkGray))
}

/// The line being built is finished: indentation, the quote bar inside a
/// quote, then its spans.
pub open spec fn flush(s: MdState) -> MdState {
    let prefix = indent_spans(s.indent) + if s.in_quote {
        seq![quote_bar()]
    } else {
        Seq::empty()
    };
    MdState { lines: s.lines.push(prefix + s.cur), cur: Seq::empty(), ..s }
}

pub open spec fn flush_if_any(s: MdState) -> MdState {
    if s.cur.len() > 0 {
        flush(s)
    } else {
        s
    }
}

/// An empty line (only the indentation).
pub open spec fn blank(s: MdState) -> MdState {
    MdState { lines: s.lines.push(seq![(s.indent, plain())]), ..s }
}

pub open spec fn add_span(s: MdState, text: Seq<char>, st: Style) -> MdState {
    MdState { cur: s.cur.push((text, st)), ..s }
}

/// Each further piece of a text starts a new line; empty pieces add no span.
pub open spec fn push_pieces(s: MdState, ps: Seq<Seq<char>>, st: Style) -> MdState
    decreases ps.len(),
{
    if ps.len() == 0 {
        s
    } else {
        let r = flush(push_pieces(s, ps.drop_last(), st));
        if ps.last().len() > 0 {
            add_span(r, ps.last(), st)
        } else {
            r
        }
    }
}

/// Text in the current style; each newline in it ends a line.
pub open spec fn push_text(s: MdState, t: Seq<char>) -> MdState {
    if t.len() == 0 {
        s
    } else {
        let st = style_of(s);
        let ps = split_on(t, '\n');
        let s1 = if ps[0].len() > 0 {
            add_span(s, ps[0], st)
        } else {
            s
        };
        push_pieces(s1, ps.skip(1), st)
    }
}

/// `t` repeated `n` times.
pub open spec fn repeat(t: Seq<char>, n: nat) -> Seq<char>
    decreases n,
{
    if n == 0 {
        Seq::empty()
    } else {
        repeat(t, (n - 1) as nat) + t
    }
}

/// The bullet of a list item at this point: numbered in an ordered list,
/// a dot otherwise, indented two spaces per level of nesting.
pub open spec fn bullet(s: MdState) -> Seq<char> {
    let ind = repeat("  "@, if s.depth > 0 {
        (s.depth - 1) as nat
    } else {
        0
    });
    if s.counters.len() > 0 && s.counters.last() > 0 {
        ind + crate::text::decimal(s.counters.last() as nat) + ". "@
    } else {
        ind + "• "@
    }
}

proof fn lemma_repeat_spaces(n: nat)
    ensures
        repeat("  "@, n).len() == 2 * n,
        forall|i: int| 0 <= i < 2 * n ==> #[trigger] repeat("  "@, n)[i] == ' ',
    decreases n,
{
    reveal_strlit("  ");
    if n > 0 {
        lemma_repeat_spaces((n - 1) as nat);
        let a = repeat("  "@, (n - 1) as nat);
        assert forall|i: int| 0 <= i < 2 * n implies #[trigger] repeat("  "@, n)[i] == ' ' by {
            if i >= a.len() {
                assert(repeat("  "@, n)[i] == "  "@[i - a.len()]);
            }
        }
    }
}

proof fn lemma_decimal_starts_with_digit(n: nat)
    ensures
        crate::text::decimal(n).len() >= 1,
        crate::text::decimal(n)[0] != ' ',
    decreases n,
{
    if n >= 10 {
        lemma_decimal_starts_with_digit(n / 10);
    }
}

/// A list item's bullet is indented two spaces per level of nesting below
/// the first: at depth `d >= 1` it starts with exactly `2 * (d - 1)` spaces,
/// so a sub-item sits two spaces further in than its parent.
pub proof fn law_bullet_indent(s: MdState)
    requires
        s.depth >= 1,
    ensures
        ({
            let b = bullet(s);
            let n = 2 * (s.depth - 1);
            &&& b.len() > n
            &&& forall|i: int| 0 <= i < n ==> #[trigger] b[i] == ' '
            &&& b[n] != ' '
        }),
{
    reveal_strlit("• ");
    reveal_strlit(". ");
    let d = (s.depth - 1) as nat;
    lemma_repeat_spaces(d);
    let ind = repeat("  "@, d);
    let b = bullet(s);
    if s.counters.len() > 0 && s.counters.last() > 0 {
        let num = crate::text::decimal(s.counters.last() as nat);
        lemma_decimal_starts_with_digit(s.counters.last() as nat);
        assert(b == ind + num + ". "@);
        assert(b[2 * d as int] == num[0]);
        assert forall|i: int| 0 <= i < 2 * d implies #[trigger] b[i] == ' ' by {
            assert(b[i] == ind[i]);
        }
    } else {
        assert(b == ind + "• "@);
        assert(b[2 * d as int] == '•');
        assert forall|i: int| 0 <= i < 2 * d implies #[trigger] b[i] == ' ' by {
            assert(b[i] == ind[i]);
        }
    }
}

pub open spec fn start_item(s: MdState) -> MdState {
    let s1 = add_span(s, bullet(s), colored(Color::Cyan));
    if s.counters.len() > 0 && s.counters.last() > 0 {
        MdState {
            counters: s.counters.update(s.counters.len() - 1, (s.counters.last() + 1) as u64),
            ..s1
        }
    } else {
        s1
    }
}

/// A line of its own: indentation, then one span.
pub open spec fn own_line(s: MdState, text: Seq<char>, st: Style) -> MdState {
    MdState { lines: s.lines.push(indent_spans(s.indent) + seq![(text, st)]), ..s }
}

pub open spec fn dashes_of(cells: Seq<Seq<char>>) -> Seq<Seq<char>> {
    cells.map_values(|c: Seq<char>| repeat("-"@, byte_len(c)))
}

/// The texts of spans, run together.
pub open spec fn spans_text(sp: Seq<SpanV>) -> Seq<char>
    decreases sp.len(),
{
    if sp.len() == 0 {
        Seq::empty()
    } else {
        spans_text(sp.drop_last()) + sp.last().0
    }
}

/// Lines of a highlighted code block: each line of coloured pieces, with
/// trailing newlines of each piece dropped, after the indentation.
pub open spec fn highlight_spec(code: Seq<char>, lang: Seq<char>, indent: Seq<char>) -> Option<
    Seq<Seq<SpanV>>,
> {
    match highlighted(code, lang) {
        None => None,
        Some(ls) => Some(
            ls.map_values(
                |l: Seq<(u8, u8, u8, Seq<char>)>|
                    indent_spans(indent) + l.map_values(
                        |p: (u8, u8, u8, Seq<char>)|
                            (trim_newlines(p.3), colored(Color::Rgb(p.0, p.1, p.2))),
                    ),
            ),
        ),
    }
}

/// `t` without its trailing newlines.
pub open spec fn trim_newlines(t: Seq<char>) -> Seq<char>
    decreases t.len(),
{
    if t.len() > 0 && t.last() == '\n' {
        trim_newlines(t.drop_last())
    } else {
        t
    }
}

/// A code block ends: highlighted when it names a language the highlighter
/// knows, else shown as yellow text; then an empty line.
pub open spec fn end_code(s: MdState) -> MdState {
    let code = s.code_buf;
    let s1 = MdState { code_buf: Seq::empty(), code_lang: None, ..s };
    let shown = match s.code_lang {
        Some(lang) => match highlight_spec(code, lang, s.indent) {
            Some(ls) => MdState { lines: s1.lines + ls, ..s1 },
            None => flush_if_any(push_text(s1, code)),
        },
        None => flush_if_any(push_text(s1, code)),
    };
    blank(MdState { in_code: false, ..shown })
}

pub open spec fn start_code(s: MdState, info: Option<Seq<char>>) -> MdState {
    let s1 = MdState { in_code: true, code_buf: Seq::empty(), ..s };
    match info {
        Some(i) => if trim(i).len() > 0 {
            let lang = trim(i);
            MdState {
                code_lang: Some(lang),
                lines: s1.lines.push(
                    indent_spans(s.indent) + seq![
                        ("  "@ + lang, Style { fg: Some(Color::DarkGray), italic: true, ..plain() }),
                    ],
                ),
                ..s1
            }
        } else {
            MdState { code_lang: None, ..s1 }
        },
        None => MdState { code_lang: None, ..s1 },
    }
}

pub open spec fn end_table_head(s: MdState) -> MdState {
    let s1 = own_line(s, join_with(s.cells, " | "@), plain());
    let s2 = own_line(s1, join_with(dashes_of(s.cells), "-+-"@), colored(Color::DarkGray));
    MdState { cells: Seq::empty(), header_done: true, ..s2 }
}

pub open spec fn end_table_row(s: MdState) -> MdState {
    if s.header_done {
        MdState { cells: Seq::empty(), ..own_line(s, join_with(s.cells, " | "@), plain()) }
    } else {
        s
    }
}

/// One event applied to the state.
pub open spec fn md_step(s: MdState, e: MdEvent) -> MdState {
    match e {
        MdEvent::StartHeading(l) => MdState { heading: Some(l), ..s },
        MdEvent::EndHeading => blank(MdState { heading: None, ..flush(s) }),
        MdEvent::StartParagraph => s,
        MdEvent::EndParagraph => {
            let s1 = flush_if_any(s);
            if s1.depth == 0 && !s1.in_quote {
                blank(s1)
            } else {
                s1
            }
        },
        MdEvent::StartStrong => MdState { bold: true, ..s },
        MdEvent::EndStrong => MdState { bold: false, ..s },
        MdEvent::StartEmphasis => MdState { italic: true, ..s },
        MdEvent::EndEmphasis => MdState { italic: false, ..s },
        MdEvent::StartCodeBlock(info) => start_code(
            s,
            match info {
                Some(i) => Some(i@),
                None => None,
            },
        ),
        MdEvent::EndCodeBlock => end_code(s),
        MdEvent::StartBlockQuote => MdState { in_quote: true, ..s },
        MdEvent::EndBlockQuote => blank(MdState { in_quote: false, ..flush_if_any(s) }),
        MdEvent::StartList(start) => MdState {
            depth: s.depth + 1,
            counters: s.counters.push(
                match start {
                    Some(n) => n,
                    None => 0,
                },
            ),
            ..s
        },
        MdEvent::EndList(ordered) => {
            let d = if s.depth > 0 {
                (s.depth - 1) as nat
            } else {
                0
            };
            let s1 = MdState {
                depth: d,
                counters: if s.counters.len() > 0 {
                    s.counters.drop_last()
                } else {
                    s.counters
                },
                ..s
            };
            if !ordered && d == 0 {
                blank(s1)
            } else {
                s1
            }
        },
        MdEvent::StartItem => start_item(s),
        MdEvent::EndItem => flush_if_any(s),
        MdEvent::StartLink => MdState { in_link: true, ..s },
        MdEvent::EndLink => MdState { in_link: false, ..s },
        MdEvent::StartTable => MdState { cells: Seq::empty(), header_done: false, ..s },
        MdEvent::EndTable => blank(flush_if_any(s)),
        MdEvent::StartTableHead => s,
        MdEvent::EndTableHead => end_table_head(s),
        MdEvent::StartTableRow => s,
        MdEvent::EndTableRow => end_table_row(s),
        MdEvent::StartTableCell => s,
        MdEvent::EndTableCell => MdState {
            cells: s.cells.push(spans_text(s.cur)),
            cur: Seq::empty(),
            ..s
        },
        MdEvent::Code(t) => add_span(s, t@, colored(Color::Yellow)),
        MdEvent::Text(t) => if s.in_code {
            MdState { code_buf: s.code_buf + t@, ..s }
        } else {
            push_text(s, t@)
        },
        MdEvent::SoftBreak => add_span(s, " "@, plain()),
        MdEvent::HardBreak => flush(s),
        MdEvent::Rule => own_line(s, repeat("─"@, 32), colored(Color::DarkGray)),
        MdEvent::TaskListMarker(checked) => add_span(
            s,
            if checked {
                "[x] "@
            } else {
                "[ ] "@
            },
            plain(),
        ),
        MdEvent::Math(t) => push_text(s, t@),
        MdEvent::Other => s,
    }
}

/// The events applied in order.
pub open spec fn md_run(s: MdState, es: Seq<MdEvent>) -> MdState
    decreases es.len(),
{
    if es.len() == 0 {
        s
    } else {
        md_step(md_run(s, es.drop_last()), es.last())
    }
}

/// After the last event: a code block still open shows what it holds, and
/// the line being built is finished.
pub open spec fn md_finish(s: MdState) -> Seq<Seq<SpanV>> {
    let s1 = if s.in_code && s.code_buf.len() > 0 {
        push_text(s, s.code_buf)
    } else {
        s
    };
    flush_if_any(s1).lines
}

/// The lines of a document, from the events of its parse.
pub open spec fn markdown_spec(es: Seq<MdEvent>, indent: Seq<char>) -> Seq<Seq<SpanV>> {
    md_finish(md_run(md_init(indent), es))
}

/// What the syntax highlighter makes of code in a language: per line, the
/// pieces with their colour; none when it does not know the language. A
/// function of the code and the language.
pub uninterp spec fn highlighted(code: Seq<char>, lang: Seq<char>) -> Option<
    Seq<Seq<(u8, u8, u8, Seq<char>)>>,
>;

/// Highlights code with syntect's default syntaxes (with newlines) and the
/// `base16-eighties.dark` theme: for each line of the code (newlines kept),
/// the pieces and their foreground colour; none when no syntax matches the
/// language token or a line fails to highlight. Named by `highlighted`.
#[verifier::external_body]
fn highlight_pieces(code: &str, lang: &str) -> (r: Option<Vec<Vec<(u8, u8, u8, String)>>>)
    ensures
        match highlighted(code@, lang@) {
            None => r is None,
            Some(ls) => r matches Some(v) && v@.len() == ls.len() && forall|i: int|
                0 <= i < ls.len() ==> pieces_view((#[trigger] v@[i])@) == ls[i],
        },
{
    let syntaxes = syntect::parsing::SyntaxSet::load_defaults_newlines();
    let themes = syntect::highlighting::ThemeSet::load_defaults();
    let syntax = syntaxes.find_syntax_by_token(lang)?;
    let mut h = syntect::easy::HighlightLines::new(syntax, &themes.themes["base16-eighties.dark"]);
    let mut out = Vec::new();
    for line in syntect::util::LinesWithEndings::from(code) {
        let ranges = h.highlight_line(line, &syntaxes).ok()?;
        let f = |(st, t): (syntect::highlighting::Style, &str)| {
            (st.foreground.r, st.foreground.g, st.foreground.b, t.to_string())
        };
        out.push(ranges.into_iter().map(f).collect());
    }
    Some(out)
}

pub open spec fn pieces_view(v: Seq<(u8, u8, u8, String)>) -> Seq<(u8, u8, u8, Seq<char>)> {
    v.map_values(|p: (u8, u8, u8, String)| (p.0, p.1, p.2, p.3@))
}


/// `t` without its trailing newlines.
fn trim_newlines_of(t: &String) -> (r: String)
    ensures
        r@ == trim_newlines(t@),
{
    let cs = chars_of(t.as_str());
    let mut end = cs.len();
    assert(cs@.take(end as int) =~= cs@);
    while end > 0 && cs[end - 1] == '\n'
        invariant
            end <= cs@.len(),
            trim_newlines(cs@) == trim_newlines(cs@.take(end as int)),
        decreases end,
    {
        assert(cs@.take(end as int).drop_last() =~= cs@.take(end - 1));
        end = end - 1;
    }
    let kept = crate::text::slice_chars(&cs, 0, end);
    assert(kept@ =~= cs@.take(end as int));
    string_from_chars(&kept)
}

fn plain_style() -> (r: Style)
    ensures
        r == plain(),
{
    Style { fg: None, bold: false, italic: false, underlined: false }
}

fn colored_style(c: Color) -> (r: Style)
    ensures
        r == colored(c),
{
    Style { fg: Some(c), bold: false, italic: false, underlined: false }
}

fn indent_spans_of(indent: &String) -> (r: Vec<Span>)
    ensures
        spans_view(r@) == indent_spans(indent@),
{
    let mut v: Vec<Span> = Vec::new();
    if !indent.as_str().is_empty() {
        v.push(Span { content: indent.clone(), style: plain_style() });
        assert(spans_view(v@) =~= seq![(indent@, plain())]);
    } else {
        assert(spans_view(v@) =~= Seq::<SpanV>::empty());
    }
    v
}

/// Highlights code in a language: its lines, each after the indentation,
/// with the colour the highlighter gave each piece; none when the
/// highlighter does not know the language.
pub fn highlight_code(code: &str, lang: &str, indent: &str) -> (r: Option<Vec<Line>>)
    ensures
        match highlight_spec(code@, lang@, indent@) {
            None => r is None,
            Some(ls) => r matches Some(v) && lines_view(v@) == ls,
        },
{
    let pieces = match highlight_pieces(code, lang) {
        None => return None,
        Some(p) => p,
    };
    let ghost hl = highlighted(code@, lang@)->Some_0;
    let ind = indent.to_string();
    let mut out: Vec<Line> = Vec::new();
    let n = pieces.len();
    for i in 0..n
        invariant
            n == pieces@.len(),
            highlighted(code@, lang@) == Some(hl),
            hl.len() == n,
            ind@ == indent@,
            forall|q: int| 0 <= q < n ==> pieces_view((#[trigger] pieces@[q])@) == hl[q],
            out@.len() == i,
            forall|q: int| 0 <= q < i ==> line_view(#[trigger] out@[q]) == indent_spans(indent@)
                + hl[q].map_values(
                |p: (u8, u8, u8, Seq<char>)|
                    (trim_newlines(p.3), colored(Color::Rgb(p.0, p.1, p.2))),
            ),
    {
        let row = &pieces[i];
        let ghost hv = hl[i as int];
        assert(pieces_view(row@) == hv);
        let mut spans = indent_spans_of(&ind);
        let ghost start = spans_view(spans@);
        let m = row.len();
        for j in 0..m
            invariant
                m == row@.len(),
                pieces_view(row@) == hv,
                spans_view(spans@) == start + hv.take(j as int).map_values(
                    |p: (u8, u8, u8, Seq<char>)|
                        (trim_newlines(p.3), colored(Color::Rgb(p.0, p.1, p.2))),
                ),
        {
            let (r, g, b, t) = &row[j];
            assert(hv[j as int] == (*r, *g, *b, t@));
            let ghost before = spans@;
            spans.push(Span { content: trim_newlines_of(t), style: colored_style(Color::Rgb(*r, *g, *b)) });
            assert(hv.take(j + 1) =~= hv.take(j as int).push(hv[j as int]));
            assert(spans_view(spans@) =~= spans_view(before).push((trim_newlines(t@), colored(Color::Rgb(*r, *g, *b)))));
            assert(spans_view(spans@) =~= start + hv.take(j + 1).map_values(
                |p: (u8, u8, u8, Seq<char>)|
                    (trim_newlines(p.3), colored(Color::Rgb(p.0, p.1, p.2))),
            ));
        }
        assert(hv.take(m as int) =~= hv);
        out.push(Line { spans });
    }
    assert(lines_view(out@) =~= hl.map_values(
        |l: Seq<(u8, u8, u8, Seq<char>)>|
            indent_spans(indent@) + l.map_values(
                |p: (u8, u8, u8, Seq<char>)|
                    (trim_newlines(p.3), colored(Color::Rgb(p.0, p.1, p.2))),
            ),
    ));
    Some(out)
}


/// The rendering between two events.
struct RenderState {
    lines: Vec<Line>,
    current_spans: Vec<Span>,
    indent: String,
    bold: bool,
    italic: bool,
    in_code_block: bool,
    in_blockquote: bool,
    in_heading: Option<u8>,
    list_depth: u32,
    ordered_counters: Vec<u64>,
    in_link: bool,
    code_block_lang: Option<String>,
    code_block_buffer: String,
    table_cells: Vec<String>,
    table_header_done: bool,
}

impl View for RenderState {
    type V = MdState;

    closed spec fn view(&self) -> MdState {
        MdState {
            lines: lines_view(self.lines@),
            cur: spans_view(self.current_spans@),
            indent: self.indent@,
            bold: self.bold,
            italic: self.italic,
            in_code: self.in_code_block,
            in_quote: self.in_blockquote,
            heading: self.in_heading,
            depth: self.list_depth as nat,
            counters: self.ordered_counters@,
            in_link: self.in_link,
            code_lang: match self.code_block_lang {
                Some(l) => Some(l@),
                None => None,
            },
            code_buf: self.code_block_buffer@,
            cells: crate::text::string_views(self.table_cells@),
            header_done: self.table_header_done,
        }
    }
}

impl RenderState {
    fn new(indent: &str) -> (r: Self)
        ensures
            r@ == md_init(indent@),
    {
        let r = RenderState {
            lines: Vec::new(),
            current_spans: Vec::new(),
            indent: indent.to_string(),
            bold: false,
            italic: false,
            in_code_block: false,
            in_blockquote: false,
            in_heading: None,
            list_depth: 0,
            ordered_counters: Vec::new(),
            in_link: false,
            code_block_lang: None,
            code_block_buffer: String::new(),
            table_cells: Vec::new(),
            table_header_done: false,
        };
        assert(r@.lines =~= Seq::<Seq<SpanV>>::empty());
        assert(r@.cur =~= Seq::<SpanV>::empty());
        assert(r@.cells =~= Seq::<Seq<char>>::empty());
        r
    }

    fn current_style(&self) -> (r: Style)
        ensures
            r == style_of(self@),
    {
        if self.in_code_block {
            return colored_style(Color::Yellow);
        }
        let mut style = match self.in_heading {
            Some(l) => Style {
                fg: Some(
                    if l == 1 {
                        Color::Cyan
                    } else if l == 2 {
                        Color::Green
                    } else if l == 3 {
                        Color::Yellow
                    } else {
                        Color::White
                    },
                ),
                bold: true,
                italic: false,
                underlined: false,
            },
            None => plain_style(),
        };
        if self.in_blockquote {
            style = Style { fg: Some(Color::DarkGray), italic: true, ..style };
        }
        if self.in_link {
            style = Style { fg: Some(Color::Blue), underlined: true, ..style };
        }
        if self.bold {
            style = Style { bold: true, ..style };
        }
        if self.italic {
            style = Style { italic: true, ..style };
        }
        style
    }

    fn flush_line(&mut self)
        ensures
            final(self)@ == flush(old(self)@),
    {
        let mut spans = indent_spans_of(&self.indent);
        let ghost pre = spans_view(spans@);
        if self.in_blockquote {
            spans.push(Span { content: "│ ".to_owned(), style: colored_style(Color::DarkGray) });
            assert(spans_view(spans@) =~= pre + seq![quote_bar()]);
        } else {
            assert(spans_view(spans@) =~= pre + Seq::<SpanV>::empty());
        }
        let ghost mid = spans_view(spans@);
        let mut cur: Vec<Span> = Vec::new();
        std::mem::swap(&mut cur, &mut self.current_spans);
        let ghost cv = spans_view(cur@);
        spans.append(&mut cur);
        assert(spans_view(spans@) =~= mid + cv);
        let ghost before = self.lines@;
        self.lines.push(Line { spans });
        assert(lines_view(self.lines@) =~= lines_view(before).push(mid + cv));
        assert(spans_view(self.current_spans@) =~= Seq::<SpanV>::empty());
        assert(mid == indent_spans(old(self)@.indent) + if old(self)@.in_quote {
            seq![quote_bar()]
        } else {
            Seq::<SpanV>::empty()
        });
        assert(cv == old(self)@.cur);
    }

    fn flush_if_any(&mut self)
        ensures
            final(self)@ == flush_if_any(old(self)@),
    {
        if self.current_spans.len() > 0 {
            self.flush_line();
        }
    }

    fn blank_line(&mut self)
        ensures
            final(self)@ == blank(old(self)@),
    {
        let line = Line { spans: vec![Span { content: self.indent.clone(), style: plain_style() }] };
        assert(line_view(line) =~= seq![(self.indent@, plain())]);
        let ghost before = self.lines@;
        self.lines.push(line);
        assert(lines_view(self.lines@) =~= lines_view(before).push(seq![(self.indent@, plain())]));
    }

    fn add_span(&mut self, text: String, st: Style)
        ensures
            final(self)@ == add_span(old(self)@, text@, st),
    {
        let ghost before = self.current_spans@;
        let ghost tv = text@;
        self.current_spans.push(Span { content: text, style: st });
        assert(spans_view(self.current_spans@) =~= spans_view(before).push((tv, st)));
    }

    fn own_line(&mut self, text: String, st: Style)
        ensures
            final(self)@ == own_line(old(self)@, text@, st),
    {
        let mut spans = indent_spans_of(&self.indent);
        let ghost pre = spans_view(spans@);
        let ghost tv = text@;
        spans.push(Span { content: text, style: st });
        assert(spans_view(spans@) =~= pre + seq![(tv, st)]);
        let ghost before = self.lines@;
        self.lines.push(Line { spans });
        assert(lines_view(self.lines@) =~= lines_view(before).push(pre + seq![(tv, st)]));
    }
}


/// `t` repeated `n` times.
fn repeat_str(t: &str, n: usize) -> (r: String)
    ensures
        r@ == repeat(t@, n as nat),
{
    let mut r = String::new();
    for i in 0..n
        invariant
            r@ == repeat(t@, i as nat),
    {
        crate::text::push_str_chars(&mut r, t);
    }
    r
}

impl RenderState {
    fn push_text(&mut self, t: &str)
        ensures
            final(self)@ == push_text(old(self)@, t@),
    {
        if t.is_empty() {
            return;
        }
        let st = self.current_style();
        let cs = chars_of(t);
        let ps = split_on_exec(&cs, '\n');
        proof {
            crate::text::lemma_split_on_nonempty(t@, '\n');
        }
        let ghost all = split_on(t@, '\n');
        if ps[0].len() > 0 {
            self.add_span(string_from_chars(&ps[0]), st);
        }
        let ghost s1 = self@;
        let ghost rest = all.skip(1);
        let n = ps.len();
        assert(rest.take(0) =~= Seq::<Seq<char>>::empty());
        for i in 1..n
            invariant
                n == ps@.len(),
                n == all.len(),
                n >= 1,
                all == split_on(t@, '\n'),
                rest == all.skip(1),
                forall|q: int| 0 <= q < n ==> (#[trigger] ps@[q])@ == all[q],
                self@ == push_pieces(s1, rest.take(i - 1), st),
        {
            assert(rest.take(i as int).drop_last() =~= rest.take(i - 1));
            assert(rest.take(i as int).last() == ps@[i as int]@);
            self.flush_line();
            if ps[i].len() > 0 {
                self.add_span(string_from_chars(&ps[i]), st);
            }
        }
        assert(rest.take(n - 1) =~= rest);
    }
}


impl RenderState {
    fn start_item(&mut self)
        requires
            old(self)@.counters.len() > 0 ==> old(self)@.counters.last() < u64::MAX,
        ensures
            final(self)@ == start_item(old(self)@),
    {
        proof {
            reveal_strlit("  ");
            reveal_strlit(". ");
            reveal_strlit("• ");
        }
        let d: u32 = if self.list_depth > 0 {
            self.list_depth - 1
        } else {
            0
        };
        let mut b = repeat_str("  ", d as usize);
        let k = self.ordered_counters.len();
        if k > 0 && self.ordered_counters[k - 1] > 0 {
            let n = self.ordered_counters[k - 1];
            crate::text::push_decimal_u64(&mut b, n);
            crate::text::push_str_chars(&mut b, ". ");
            assert(b@ == bullet(old(self)@));
            self.add_span(b, colored_style(Color::Cyan));
            self.ordered_counters.set(k - 1, n + 1);
        } else {
            crate::text::push_str_chars(&mut b, "• ");
            assert(b@ == bullet(old(self)@));
            self.add_span(b, colored_style(Color::Cyan));
        }
    }

    fn start_code(&mut self, info: &Option<String>)
        ensures
            final(self)@ == start_code(
                old(self)@,
                match info {
                    Some(i) => Some(i@),
                    None => None,
                },
            ),
    {
        self.in_code_block = true;
        self.code_block_buffer = String::new();
        match info {
            Some(i) => {
                let lang_cs = trim_chars(&chars_of(i.as_str()));
                if lang_cs.len() > 0 {
                    let lang = string_from_chars(&lang_cs);
                    let mut label = "  ".to_owned();
                    push_chars(&mut label, &lang_cs);
                    proof {
                        reveal_strlit("  ");
                    }
                    self.code_block_lang = Some(lang);
                    self.own_line(
                        label,
                        Style { fg: Some(Color::DarkGray), bold: false, italic: true, underlined: false },
                    );
                } else {
                    self.code_block_lang = None;
                }
            },
            None => {
                self.code_block_lang = None;
            },
        }
    }

    fn end_code(&mut self)
        ensures
            final(self)@ == end_code(old(self)@),
    {
        let mut code = String::new();
        std::mem::swap(&mut code, &mut self.code_block_buffer);
        let lang = self.code_block_lang.take();
        match lang {
            Some(l) => {
                match highlight_code(code.as_str(), l.as_str(), self.indent.as_str()) {
                    Some(mut ls) => {
                        let ghost before = self.lines@;
                        let ghost lv = lines_view(ls@);
                        self.lines.append(&mut ls);
                        assert(lines_view(self.lines@) =~= lines_view(before) + lv);
                    },
                    None => {
                        self.push_text(code.as_str());
                        self.flush_if_any();
                    },
                }
            },
            None => {
                self.push_text(code.as_str());
                self.flush_if_any();
            },
        }
        self.in_code_block = false;
        self.blank_line();
    }

    fn end_table_head(&mut self)
        ensures
            final(self)@ == end_table_head(old(self)@),
    {
        proof {
            reveal_strlit(" | ");
            reveal_strlit("-+-");
            reveal_strlit("-");
        }
        let row = crate::text::join_strings(&self.table_cells, " | ");
        self.own_line(row, plain_style());
        let mut dashes: Vec<String> = Vec::new();
        let n = self.table_cells.len();
        let ghost cells = crate::text::string_views(self.table_cells@);
        for i in 0..n
            invariant
                n == self.table_cells@.len(),
                cells == crate::text::string_views(self.table_cells@),
                crate::text::string_views(dashes@) == dashes_of(cells.take(i as int)),
        {
            let w = self.table_cells[i].as_str().as_bytes().len();
            let ghost before = dashes@;
            dashes.push(repeat_str("-", w));
            assert(cells.take(i + 1) =~= cells.take(i as int).push(cells[i as int]));
            assert(crate::text::string_views(dashes@) =~= crate::text::string_views(before).push(
                repeat("-"@, byte_len(cells[i as int])),
            ));
            assert(crate::text::string_views(dashes@) =~= dashes_of(cells.take(i + 1)));
        }
        assert(cells.take(n as int) =~= cells);
        let sep = crate::text::join_strings(&dashes, "-+-");
        self.own_line(sep, colored_style(Color::DarkGray));
        self.table_cells = Vec::new();
        self.table_header_done = true;
        assert(crate::text::string_views(self.table_cells@) =~= Seq::<Seq<char>>::empty());
    }

    fn end_table_row(&mut self)
        ensures
            final(self)@ == end_table_row(old(self)@),
    {
        if self.table_header_done {
            proof {
                reveal_strlit(" | ");
            }
            let row = crate::text::join_strings(&self.table_cells, " | ");
            self.own_line(row, plain_style());
            self.table_cells = Vec::new();
            assert(crate::text::string_views(self.table_cells@) =~= Seq::<Seq<char>>::empty());
        }
    }

    fn end_table_cell(&mut self)
        ensures
            final(self)@ == (MdState {
                cells: old(self)@.cells.push(spans_text(old(self)@.cur)),
                cur: Seq::empty(),
                ..old(self)@
            }),
    {
        let mut cell = String::new();
        let n = self.current_spans.len();
        let ghost cv = spans_view(self.current_spans@);
        for i in 0..n
            invariant
                n == self.current_spans@.len(),
                cv == spans_view(self.current_spans@),
                cell@ == spans_text(cv.take(i as int)),
        {
            assert(cv.take(i + 1).drop_last() =~= cv.take(i as int));
            crate::text::push_str_chars(&mut cell, self.current_spans[i].content.as_str());
        }
        assert(cv.take(n as int) =~= cv);
        self.current_spans = Vec::new();
        let ghost before = self.table_cells@;
        let ghost c = cell@;
        self.table_cells.push(cell);
        assert(crate::text::string_views(self.table_cells@) =~= crate::text::string_views(before).push(c));
        assert(spans_view(self.current_spans@) =~= Seq::<SpanV>::empty());
    }
}


proof fn lemma_pieces_keep(s: MdState, ps: Seq<Seq<char>>, st: Style)
    ensures
        push_pieces(s, ps, st).depth == s.depth,
        push_pieces(s, ps, st).counters == s.counters,
    decreases ps.len(),
{
    if ps.len() > 0 {
        lemma_pieces_keep(s, ps.drop_last(), st);
    }
}

proof fn lemma_text_keeps(s: MdState, t: Seq<char>)
    ensures
        push_text(s, t).depth == s.depth,
        push_text(s, t).counters == s.counters,
{
    if t.len() > 0 {
        let st = style_of(s);
        let ps = split_on(t, '\n');
        let s1 = if ps[0].len() > 0 {
            add_span(s, ps[0], st)
        } else {
            s
        };
        lemma_pieces_keep(s1, ps.skip(1), st);
    }
}

/// Depth and list counters grow by at most one per event.
proof fn lemma_step_bounds(s: MdState, e: MdEvent, c: int)
    requires
        forall|k: int| 0 <= k < s.counters.len() ==> s.counters[k] <= c,
        e matches MdEvent::StartList(Some(n)) ==> n <= c,
        c >= 0,
    ensures
        md_step(s, e).depth <= s.depth + 1,
        forall|k: int|
            0 <= k < md_step(s, e).counters.len() ==> md_step(s, e).counters[k] <= c + 1,
{
    match e {
        MdEvent::Text(t) => {
            lemma_text_keeps(s, t@);
        },
        MdEvent::Math(t) => {
            lemma_text_keeps(s, t@);
        },
        MdEvent::EndCodeBlock => {
            let s1 = MdState { code_buf: Seq::empty(), code_lang: None, ..s };
            lemma_text_keeps(s1, s.code_buf);
        },
        MdEvent::StartItem => {
            let r = md_step(s, e);
            assert forall|k: int| 0 <= k < r.counters.len() implies r.counters[k] <= c + 1 by {
                if s.counters.len() > 0 && s.counters.last() > 0 && k == s.counters.len() - 1 {
                } else {
                    assert(r.counters[k] == s.counters[k]);
                }
            }
        },
        MdEvent::EndList(_) => {
            let r = md_step(s, e);
            assert forall|k: int| 0 <= k < r.counters.len() implies r.counters[k] <= c + 1 by {
                assert(r.counters[k] == s.counters[k]);
            }
        },
        MdEvent::StartList(_) => {
            let r = md_step(s, e);
            assert forall|k: int| 0 <= k < r.counters.len() implies r.counters[k] <= c + 1 by {
                if k < s.counters.len() {
                    assert(r.counters[k] == s.counters[k]);
                }
            }
        },
        _ => {},
    }
}

impl RenderState {
    #[verifier::spinoff_prover]
    #[verifier::rlimit(40)]
    fn apply(&mut self, e: &MdEvent)
        requires
            *e is StartList ==> old(self)@.depth < u32::MAX,
            *e is StartItem && old(self)@.counters.len() > 0 ==> old(self)@.counters.last()
                < u64::MAX,
        ensures
            final(self)@ == md_step(old(self)@, *e),
    {
        match e {
            MdEvent::StartHeading(l) => {
                self.in_heading = Some(*l);
            },
            MdEvent::EndHeading => {
                self.flush_line();
                self.in_heading = None;
                self.blank_line();
            },
            MdEvent::StartParagraph => {},
            MdEvent::EndParagraph => {
                self.flush_if_any();
                if self.list_depth == 0 && !self.in_blockquote {
                    self.blank_line();
                }
            },
            MdEvent::StartStrong => {
                self.bold = true;
            },
            MdEvent::EndStrong => {
                self.bold = false;
            },
            MdEvent::StartEmphasis => {
                self.italic = true;
            },
            MdEvent::EndEmphasis => {
                self.italic = false;
            },
            MdEvent::StartCodeBlock(info) => {
                self.start_code(info);
            },
            MdEvent::EndCodeBlock => {
                self.end_code();
            },
            MdEvent::StartBlockQuote => {
                self.in_blockquote = true;
            },
            MdEvent::EndBlockQuote => {
                self.flush_if_any();
                self.in_blockquote = false;
                self.blank_line();
            },
            MdEvent::StartList(start) => {
                self.list_depth = self.list_depth + 1;
                match start {
                    Some(n) => self.ordered_counters.push(*n),
                    None => self.ordered_counters.push(0),
                }
            },
            MdEvent::EndList(ordered) => {
                self.list_depth = if self.list_depth > 0 {
                    self.list_depth - 1
                } else {
                    0
                };
                self.ordered_counters.pop();
                if !*ordered && self.list_depth == 0 {
                    self.blank_line();
                }
            },
            MdEvent::StartItem => {
                self.start_item();
            },
            MdEvent::EndItem => {
                self.flush_if_any();
            },
            MdEvent::StartLink => {
                self.in_link = true;
            },
            MdEvent::EndLink => {
                self.in_link = false;
            },
            MdEvent::StartTable => {
                self.table_cells = Vec::new();
                self.table_header_done = false;
                assert(crate::text::string_views(self.table_cells@) =~= Seq::<Seq<char>>::empty());
            },
            MdEvent::EndTable => {
                self.flush_if_any();
                self.blank_line();
            },
            MdEvent::StartTableHead => {},
            MdEvent::EndTableHead => {
                self.end_table_head();
            },
            MdEvent::StartTableRow => {},
            MdEvent::EndTableRow => {
                self.end_table_row();
            },
            MdEvent::StartTableCell => {},
            MdEvent::EndTableCell => {
                self.end_table_cell();
            },
            MdEvent::Code(t) => {
                self.add_span(t.clone(), colored_style(Color::Yellow));
            },
            MdEvent::Text(t) => {
                if self.in_code_block {
                    crate::text::push_str_chars(&mut self.code_block_buffer, t.as_str());
                } else {
                    self.push_text(t.as_str());
                }
            },
            MdEvent::SoftBreak => {
                self.add_span(" ".to_owned(), plain_style());
            },
            MdEvent::HardBreak => {
                self.flush_line();
            },
            MdEvent::Rule => {
                proof {
                    reveal_strlit("─");
                }
                self.own_line(repeat_str("─", 32), colored_style(Color::DarkGray));
            },
            MdEvent::TaskListMarker(checked) => {
                let marker = if *checked {
                    "[x] ".to_owned()
                } else {
                    "[ ] ".to_owned()
                };
                self.add_span(marker, plain_style());
            },
            MdEvent::Math(t) => {
                self.push_text(t.as_str());
            },
            MdEvent::Other => {},
        }
    }
}

/// The greatest start number of an ordered list that the parser reports:
/// CommonMark allows at most nine digits.
pub const MAX_LIST_START: u64 = 999_999_999;

/// The events that a parse of a document can give: ordered lists start at
/// a number of at most nine digits, and there are fewer events than a
/// 32-bit count.
pub open spec fn parsed_events(events: Seq<MdEvent>) -> bool {
    &&& events.len() < u32::MAX
    &&& forall|i: int|
        0 <= i < events.len() ==> ((#[trigger] events[i]) matches MdEvent::StartList(Some(n))
            ==> n <= MAX_LIST_START)
}

/// The lines of a rendered document, from the events of its parse, each
/// line after `indent`.
pub fn render_markdown(events: &Vec<MdEvent>, indent: &str) -> (r: Vec<Line>)
    requires
        parsed_events(events@),
    ensures
        lines_view(r@) == markdown_spec(events@, indent@),
{
    let mut st = RenderState::new(indent);
    let n = events.len();
    assert(events@.take(0) =~= Seq::<MdEvent>::empty());
    for i in 0..n
        invariant
            n == events@.len(),
            parsed_events(events@),
            st@ == md_run(md_init(indent@), events@.take(i as int)),
            st@.depth <= i,
            forall|k: int| 0 <= k < st@.counters.len() ==> st@.counters[k] <= MAX_LIST_START + i,
    {
        assert(events@.take(i + 1).drop_last() =~= events@.take(i as int));
        assert(events@.take(i + 1).last() == events@[i as int]);
        let ghost before = st@;
        proof {
            lemma_step_bounds(before, events@[i as int], MAX_LIST_START + i);
            if before.counters.len() > 0 {
                assert(before.counters[before.counters.len() - 1] <= MAX_LIST_START + i);
            }
        }
        st.apply(&events[i]);
    }
    assert(events@.take(n as int) =~= events@);
    if st.in_code_block && !st.code_block_buffer.as_str().is_empty() {
        let buf = st.code_block_buffer.clone();
        st.push_text(buf.as_str());
    }
    st.flush_if_any();
    st.lines
}

// ---------------------------------------------------------------------------
// Parsing a document
// ---------------------------------------------------------------------------

#[verifier::external_type_specification]
pub struct ExMdParserEvent<'a>(pulldown_cmark::Event<'a>);

#[verifier::external_type_specification]
pub struct ExMdTag<'a>(pulldown_cmark::Tag<'a>);

#[verifier::external_type_specification]
pub struct ExMdTagEnd(pulldown_cmark::TagEnd);

#[verifier::external_type_specification]
pub struct ExMdHeadingLevel(pulldown_cmark::HeadingLevel);

#[verifier::external_type_specification]
pub struct ExMdBlockQuoteKind(pulldown_cmark::BlockQuoteKind);

#[verifier::external_type_specification]
pub struct ExMdCodeBlockKind<'a>(pulldown_cmark::CodeBlockKind<'a>);

#[verifier::external_type_specification]
pub struct ExMdAlignment(pulldown_cmark::Alignment);

#[verifier::external_type_specification]
pub struct ExMdLinkType(pulldown_cmark::LinkType);

#[verifier::external_type_specification]
pub struct ExMdMetadataBlockKind(pulldown_cmark::MetadataBlockKind);

#[verifier::external_type_specification]
#[verifier::external_body]
pub struct ExMdCowStr<'a>(pulldown_cmark::CowStr<'a>);

/// The events that pulldown-cmark reads from a text, with tables and
/// strikethrough enabled; a function of the text.
pub uninterp spec fn md_parse(text: Seq<char>) -> Seq<pulldown_cmark::Event<'static>>;

/// The text that a parser string holds.
pub uninterp spec fn cow_text(s: pulldown_cmark::CowStr<'static>) -> Seq<char>;

/// `pulldown_cmark::Parser::new_ext` with tables and strikethrough, each
/// event made independent of the text (`Event::into_static`). Its scanner
/// reads at most nine digits for the start of an ordered list.
#[verifier::external_body]
fn parse_markdown(text: &str) -> (r: Vec<pulldown_cmark::Event<'static>>)
    ensures
        r@ == md_parse(text@),
        forall|i: int|
            0 <= i < r@.len() ==> ((#[trigger] r@[i]) matches pulldown_cmark::Event::Start(
                pulldown_cmark::Tag::List(Some(n)),
            ) ==> n <= MAX_LIST_START),
{
    let mut opts = pulldown_cmark::Options::empty();
    opts.insert(pulldown_cmark::Options::ENABLE_TABLES);
    opts.insert(pulldown_cmark::Options::ENABLE_STRIKETHROUGH);
    pulldown_cmark::Parser::new_ext(text, opts).map(pulldown_cmark::Event::into_static).collect()
}

/// The text of a parser string (`CowStr` as `str`).
#[verifier::external_body]
fn cow_string(s: &pulldown_cmark::CowStr<'static>) -> (r: String)
    ensures
        r@ == cow_text(*s),
{
    s.to_string()
}

/// The level of a heading as a number from one to six.
pub open spec fn heading_number(l: pulldown_cmark::HeadingLevel) -> u8 {
    match l {
        pulldown_cmark::HeadingLevel::H1 => 1,
        pulldown_cmark::HeadingLevel::H2 => 2,
        pulldown_cmark::HeadingLevel::H3 => 3,
        pulldown_cmark::HeadingLevel::H4 => 4,
        pulldown_cmark::HeadingLevel::H5 => 5,
        pulldown_cmark::HeadingLevel::H6 => 6,
    }
}

/// Text of the parser is held as that text.
pub open spec fn text_is(s: String, t: pulldown_cmark::CowStr<'static>) -> bool {
    s@ == cow_text(t)
}

/// `m` is what the rendering reads of the parser event `e`.
pub open spec fn md_event_is(e: pulldown_cmark::Event<'static>, m: MdEvent) -> bool {
    match e {
        pulldown_cmark::Event::Start(t) => match t {
            pulldown_cmark::Tag::Heading { level, .. } => m == MdEvent::StartHeading(heading_number(level)),
            pulldown_cmark::Tag::Paragraph => m == MdEvent::StartParagraph,
            pulldown_cmark::Tag::Strong => m == MdEvent::StartStrong,
            pulldown_cmark::Tag::Emphasis => m == MdEvent::StartEmphasis,
            pulldown_cmark::Tag::CodeBlock(k) => match k {
                pulldown_cmark::CodeBlockKind::Fenced(info) => m matches MdEvent::StartCodeBlock(Some(x))
                    && text_is(x, info),
                pulldown_cmark::CodeBlockKind::Indented => m == MdEvent::StartCodeBlock(None),
            },
            pulldown_cmark::Tag::BlockQuote(_) => m == MdEvent::StartBlockQuote,
            pulldown_cmark::Tag::List(start) => m == MdEvent::StartList(start),
            pulldown_cmark::Tag::Item => m == MdEvent::StartItem,
            pulldown_cmark::Tag::Link { .. } => m == MdEvent::StartLink,
            pulldown_cmark::Tag::Table(_) => m == MdEvent::StartTable,
            pulldown_cmark::Tag::TableHead => m == MdEvent::StartTableHead,
            pulldown_cmark::Tag::TableRow => m == MdEvent::StartTableRow,
            pulldown_cmark::Tag::TableCell => m == MdEvent::StartTableCell,
            _ => m == MdEvent::Other,
        },
        pulldown_cmark::Event::End(t) => match t {
            pulldown_cmark::TagEnd::Heading(_) => m == MdEvent::EndHeading,
            pulldown_cmark::TagEnd::Paragraph => m == MdEvent::EndParagraph,
            pulldown_cmark::TagEnd::Strong => m == MdEvent::EndStrong,
            pulldown_cmark::TagEnd::Emphasis => m == MdEvent::EndEmphasis,
            pulldown_cmark::TagEnd::CodeBlock => m == MdEvent::EndCodeBlock,
            pulldown_cmark::TagEnd::BlockQuote(_) => m == MdEvent::EndBlockQuote,
            pulldown_cmark::TagEnd::List(ordered) => m == MdEvent::EndList(ordered),
            pulldown_cmark::TagEnd::Item => m == MdEvent::EndItem,
            pulldown_cmark::TagEnd::Link => m == MdEvent::EndLink,
            pulldown_cmark::TagEnd::Table => m == MdEvent::EndTable,
            pulldown_cmark::TagEnd::TableHead => m == MdEvent::EndTableHead,
            pulldown_cmark::TagEnd::TableRow => m == MdEvent::EndTableRow,
            pulldown_cmark::TagEnd::TableCell => m == MdEvent::EndTableCell,
            _ => m == MdEvent::Other,
        },
        pulldown_cmark::Event::Code(t) => m matches MdEvent::Code(x) && text_is(x, t),
        pulldown_cmark::Event::Text(t) => m matches MdEvent::Text(x) && text_is(x, t),
        pulldown_cmark::Event::SoftBreak => m == MdEvent::SoftBreak,
        pulldown_cmark::Event::HardBreak => m == MdEvent::HardBreak,
        pulldown_cmark::Event::Rule => m == MdEvent::Rule,
        pulldown_cmark::Event::TaskListMarker(checked) => m == MdEvent::TaskListMarker(checked),
        pulldown_cmark::Event::InlineMath(t) => m matches MdEvent::Math(x) && text_is(x, t),
        pulldown_cmark::Event::DisplayMath(t) => m matches MdEvent::Math(x) && text_is(x, t),
        _ => m == MdEvent::Other,
    }
}

/// `evs` are what the rendering reads of the parse of `text`, event by event.
pub open spec fn md_events_are(text: Seq<char>, evs: Seq<MdEvent>) -> bool {
    &&& evs.len() == md_parse(text).len()
    &&& forall|i: int| 0 <= i < evs.len() ==> md_event_is(#[trigger] md_parse(text)[i], evs[i])
}

fn heading_u8(l: &pulldown_cmark::HeadingLevel) -> (r: u8)
    ensures
        r == heading_number(*l),
{
    match l {
        pulldown_cmark::HeadingLevel::H1 => 1,
        pulldown_cmark::HeadingLevel::H2 => 2,
        pulldown_cmark::HeadingLevel::H3 => 3,
        pulldown_cmark::HeadingLevel::H4 => 4,
        pulldown_cmark::HeadingLevel::H5 => 5,
        pulldown_cmark::HeadingLevel::H6 => 6,
    }
}

/// What the rendering reads of one parser event.
fn md_event_from(e: &pulldown_cmark::Event<'static>) -> (r: MdEvent)
    ensures
        md_event_is(*e, r),
{
    match e {
        pulldown_cmark::Event::Start(t) => match t {
            pulldown_cmark::Tag::Heading { level, .. } => MdEvent::StartHeading(heading_u8(level)),
            pulldown_cmark::Tag::Paragraph => MdEvent::StartParagraph,
            pulldown_cmark::Tag::Strong => MdEvent::StartStrong,
            pulldown_cmark::Tag::Emphasis => MdEvent::StartEmphasis,
            pulldown_cmark::Tag::CodeBlock(k) => match k {
                pulldown_cmark::CodeBlockKind::Fenced(info) => MdEvent::StartCodeBlock(
                    Some(cow_string(info)),
                ),
                pulldown_cmark::CodeBlockKind::Indented => MdEvent::StartCodeBlock(None),
            },
            pulldown_cmark::Tag::BlockQuote(_) => MdEvent::StartBlockQuote,
            pulldown_cmark::Tag::List(start) => MdEvent::StartList(*start),
            pulldown_cmark::Tag::Item => MdEvent::StartItem,
            pulldown_cmark::Tag::Link { .. } => MdEvent::StartLink,
            pulldown_cmark::Tag::Table(_) => MdEvent::StartTable,
            pulldown_cmark::Tag::TableHead => MdEvent::StartTableHead,
            pulldown_cmark::Tag::TableRow => MdEvent::StartTableRow,
            pulldown_cmark::Tag::TableCell => MdEvent::StartTableCell,
            _ => MdEvent::Other,
        },
        pulldown_cmark::Event::End(t) => match t {
            pulldown_cmark::TagEnd::Heading(_) => MdEvent::EndHeading,
            pulldown_cmark::TagEnd::Paragraph => MdEvent::EndParagraph,
            pulldown_cmark::TagEnd::Strong => MdEvent::EndStrong,
            pulldown_cmark::TagEnd::Emphasis => MdEvent::EndEmphasis,
            pulldown_cmark::TagEnd::CodeBlock => MdEvent::EndCodeBlock,
            pulldown_cmark::TagEnd::BlockQuote(_) => MdEvent::EndBlockQuote,
            pulldown_cmark::TagEnd::List(ordered) => MdEvent::EndList(*ordered),
            pulldown_cmark::TagEnd::Item => MdEvent::EndItem,
            pulldown_cmark::TagEnd::Link => MdEvent::EndLink,
            pulldown_cmark::TagEnd::Table => MdEvent::EndTable,
            pulldown_cmark::TagEnd::TableHead => MdEvent::EndTableHead,
            pulldown_cmark::TagEnd::TableRow => MdEvent::EndTableRow,
            pulldown_cmark::TagEnd::TableCell => MdEvent::EndTableCell,
            _ => MdEvent::Other,
        },
        pulldown_cmark::Event::Code(t) => MdEvent::Code(cow_string(t)),
        pulldown_cmark::Event::Text(t) => MdEvent::Text(cow_string(t)),
        pulldown_cmark::Event::SoftBreak => MdEvent::SoftBreak,
        pulldown_cmark::Event::HardBreak => MdEvent::HardBreak,
        pulldown_cmark::Event::Rule => MdEvent::Rule,
        pulldown_cmark::Event::TaskListMarker(checked) => MdEvent::TaskListMarker(*checked),
        pulldown_cmark::Event::InlineMath(t) => MdEvent::Math(cow_string(t)),
        pulldown_cmark::Event::DisplayMath(t) => MdEvent::Math(cow_string(t)),
        _ => MdEvent::Other,
    }
}

/// Two readings of one parser event render alike.
proof fn lemma_step_same_reading(s: MdState, e: pulldown_cmark::Event<'static>, a: MdEvent, b: MdEvent)
    requires
        md_event_is(e, a),
        md_event_is(e, b),
    ensures
        md_step(s, a) == md_step(s, b),
{
}

/// Two readings of one parse render alike.
proof fn lemma_run_same_reading(text: Seq<char>, a: Seq<MdEvent>, b: Seq<MdEvent>, s: MdState, n: int)
    requires
        md_events_are(text, a),
        md_events_are(text, b),
        0 <= n <= a.len(),
    ensures
        md_run(s, a.take(n)) == md_run(s, b.take(n)),
    decreases n,
{
    if n > 0 {
        lemma_run_same_reading(text, a, b, s, n - 1);
        assert(a.take(n).drop_last() =~= a.take(n - 1));
        assert(b.take(n).drop_last() =~= b.take(n - 1));
        lemma_step_same_reading(md_run(s, a.take(n - 1)), md_parse(text)[n - 1], a[n - 1], b[n - 1]);
    }
}

/// A Markdown text as styled lines, each after `indent`: the text is parsed
/// and its events are rendered. `None` when the parse has `u32::MAX` events
/// or more, a count beyond what the rendering's list depth is shown to hold.
pub fn markdown_to_lines(text: &str, indent: &str) -> (r: Option<Vec<Line>>)
    ensures
        r is Some <==> md_parse(text@).len() < u32::MAX,
        r matches Some(v) ==> exists|evs: Seq<MdEvent>| md_events_are(text@, evs),
        r matches Some(v) ==> forall|evs: Seq<MdEvent>|
            md_events_are(text@, evs) ==> lines_view(v@) == markdown_spec(evs, indent@),
{
    let parsed = parse_markdown(text);
    if parsed.len() >= 4_294_967_295 {
        return None;
    }
    let ghost pv = parsed@;
    let mut events: Vec<MdEvent> = Vec::new();
    for i in 0..parsed.len()
        invariant
            pv == parsed@,
            pv == md_parse(text@),
            events@.len() == i,
            forall|q: int| 0 <= q < i ==> md_event_is(#[trigger] pv[q], events@[q]),
            forall|q: int|
                0 <= q < pv.len() ==> ((#[trigger] pv[q]) matches pulldown_cmark::Event::Start(
                    pulldown_cmark::Tag::List(Some(n)),
                ) ==> n <= MAX_LIST_START),
    {
        let m = md_event_from(&parsed[i]);
        events.push(m);
    }
    proof {
        assert(md_events_are(text@, events@));
        assert forall|q: int| 0 <= q < events@.len() implies ((#[trigger] events@[q]) matches MdEvent::StartList(Some(n))
            ==> n <= MAX_LIST_START) by {
            assert(md_event_is(pv[q], events@[q]));
        }
    }
    let lines = render_markdown(&events, indent);
    proof {
        assert forall|evs: Seq<MdEvent>| md_events_are(text@, evs) implies lines_view(lines@)
            == markdown_spec(evs, indent@) by {
            lemma_run_same_reading(text@, events@, evs, md_init(indent@), evs.len() as int);
            assert(events@.take(evs.len() as int) =~= events@);
            assert(evs.take(evs.len() as int) =~= evs);
        }
    }
    Some(lines)
}

} // verus!
