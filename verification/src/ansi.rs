//! Text with ANSI escape sequences, turned into styled lines.
use vstd::prelude::*;

use crate::style::{Color, Line, Modifier, Span, SpanView, Style};
use crate::text;

verus! {

// ---------------------------------------------------------------------------
// Colours and emphases: the codes of "select graphic rendition"
// ---------------------------------------------------------------------------
/// The colour with a code from 0 to 7; other codes are white.
pub open spec fn standard_color(code: int) -> Color {
    if code == 0 {
        Color::Black
    } else if code == 1 {
        Color::Red
    } else if code == 2 {
        Color::Green
    } else if code == 3 {
        Color::Yellow
    } else if code == 4 {
        Color::Blue
    } else if code == 5 {
        Color::Magenta
    } else if code == 6 {
        Color::Cyan
    } else {
        Color::White
    }
}

/// The bright colour with a code from 0 to 7; other codes are white.
pub open spec fn bright_color(code: int) -> Color {
    if code == 0 {
        Color::Gray
    } else if code == 1 {
        Color::LightRed
    } else if code == 2 {
        Color::LightGreen
    } else if code == 3 {
        Color::LightYellow
    } else if code == 4 {
        Color::LightBlue
    } else if code == 5 {
        Color::LightMagenta
    } else if code == 6 {
        Color::LightCyan
    } else {
        Color::White
    }
}

/// The colour with a code from 0 to 7; other codes are white.
pub fn ansi_standard_color(code: u32) -> (r: Color)
    ensures
        r == standard_color(code as int),
{
    match code {
        0 => Color::Black,
        1 => Color::Red,
        2 => Color::Green,
        3 => Color::Yellow,
        4 => Color::Blue,
        5 => Color::Magenta,
        6 => Color::Cyan,
        _ => Color::White,
    }
}

/// The bright colour with a code from 0 to 7; other codes are white.
pub fn ansi_bright_color(code: u32) -> (r: Color)
    ensures
        r == bright_color(code as int),
{
    match code {
        0 => Color::Gray,
        1 => Color::LightRed,
        2 => Color::LightGreen,
        3 => Color::LightYellow,
        4 => Color::LightBlue,
        5 => Color::LightMagenta,
        6 => Color::LightCyan,
        _ => Color::White,
    }
}

/// A colour component; what does not fit in a byte counts as zero.
pub open spec fn component(n: u32) -> u8 {
    if n <= 255 {
        n as u8
    } else {
        0
    }
}

fn color_component(n: u32) -> (r: u8)
    ensures
        r == component(n),
{
    if n <= 255 {
        n as u8
    } else {
        0
    }
}

/// The colour at the front of the parameters, and how many parameters it
/// takes: `5;n` is a palette index, `2;r;g;b` a true colour.
pub open spec fn extended_color(params: Seq<u32>) -> Option<(Color, int)> {
    if params.len() >= 2 && params[0] == 5 {
        Some((Color::Indexed(component(params[1])), 2))
    } else if params.len() >= 4 && params[0] == 2 {
        Some(
            (
                Color::Rgb(component(params[1]), component(params[2]), component(params[3])),
                4,
            ),
        )
    } else {
        None
    }
}

/// The colour that stands at `codes[from..]`, and how many codes it takes.
pub fn parse_extended_color(codes: &Vec<u32>, from: usize) -> (r: Option<(Color, usize)>)
    requires
        from <= codes@.len(),
    ensures
        match r {
            Some((color, n)) => extended_color(codes@.skip(from as int)) == Some((color, n as int))
                && from + n <= codes@.len(),
            None => extended_color(codes@.skip(from as int)) is None,
        },
{
    let n: usize = codes.len() - from;
    if n >= 2 && codes[from] == 5 {
        Some((Color::Indexed(color_component(codes[from + 1])), 2))
    } else if n >= 4 && codes[from] == 2 {
        Some(
            (
                Color::Rgb(
                    color_component(codes[from + 1]),
                    color_component(codes[from + 2]),
                    color_component(codes[from + 3]),
                ),
                4,
            ),
        )
    } else {
        None
    }
}

/// The style after one code that takes no parameters. Unknown codes change
/// nothing.
pub open spec fn after_code(style: Style, code: u32) -> Style {
    let none = Modifier::none();
    if code == 0 {
        Style::plain()
    } else if code == 1 {
        style.adding(Modifier { bold: true, ..none })
    } else if code == 2 {
        style.adding(Modifier { dim: true, ..none })
    } else if code == 3 {
        style.adding(Modifier { italic: true, ..none })
    } else if code == 4 {
        style.adding(Modifier { underlined: true, ..none })
    } else if code == 22 {
        style.removing(Modifier { bold: true, dim: true, ..none })
    } else if code == 23 {
        style.removing(Modifier { italic: true, ..none })
    } else if code == 24 {
        style.removing(Modifier { underlined: true, ..none })
    } else if 30 <= code <= 37 {
        style.with_fg(standard_color(code - 30))
    } else if code == 39 {
        style.with_fg(Color::Reset)
    } else if 40 <= code <= 47 {
        style.with_bg(standard_color(code - 40))
    } else if code == 49 {
        style.with_bg(Color::Reset)
    } else if 90 <= code <= 97 {
        style.with_fg(bright_color(code - 90))
    } else if 100 <= code <= 107 {
        style.with_bg(bright_color(code - 100))
    } else {
        style
    }
}

fn apply_code(style: Style, code: u32) -> (r: Style)
    ensures
        r == after_code(style, code),
{
    if code == 0 {
        Style::unstyled()
    } else if code == 1 {
        style.add_modifier(Modifier { bold: true, dim: false, italic: false, underlined: false })
    } else if code == 2 {
        style.add_modifier(Modifier { bold: false, dim: true, italic: false, underlined: false })
    } else if code == 3 {
        style.add_modifier(Modifier { bold: false, dim: false, italic: true, underlined: false })
    } else if code == 4 {
        style.add_modifier(Modifier { bold: false, dim: false, italic: false, underlined: true })
    } else if code == 22 {
        style.remove_modifier(Modifier { bold: true, dim: true, italic: false, underlined: false })
    } else if code == 23 {
        style.remove_modifier(Modifier { bold: false, dim: false, italic: true, underlined: false })
    } else if code == 24 {
        style.remove_modifier(Modifier { bold: false, dim: false, italic: false, underlined: true })
    } else if 30 <= code && code <= 37 {
        style.fg(ansi_standard_color(code - 30))
    } else if code == 39 {
        style.fg(Color::Reset)
    } else if 40 <= code && code <= 47 {
        style.bg(ansi_standard_color(code - 40))
    } else if code == 49 {
        style.bg(Color::Reset)
    } else if 90 <= code && code <= 97 {
        style.fg(ansi_bright_color(code - 90))
    } else if 100 <= code && code <= 107 {
        style.bg(ansi_bright_color(code - 100))
    } else {
        style
    }
}

/// The style after a list of codes: 38 and 48 set a colour from the codes
/// behind them, where these make up one.
pub open spec fn after_codes(style: Style, codes: Seq<u32>) -> Style
    decreases codes.len(),
{
    if codes.len() == 0 {
        style
    } else {
        let rest = codes.drop_first();
        if codes[0] == 38 || codes[0] == 48 {
            match extended_color(rest) {
                Some((color, n)) => {
                    let next = if codes[0] == 38 {
                        style.with_fg(color)
                    } else {
                        style.with_bg(color)
                    };
                    after_codes(next, rest.skip(n))
                },
                None => after_codes(style, rest),
            }
        } else {
            after_codes(after_code(style, codes[0]), rest)
        }
    }
}

/// The pieces that read as numbers, as numbers.
pub open spec fn numbers_of(pieces: Seq<Seq<char>>) -> Seq<u32>
    decreases pieces.len(),
{
    if pieces.len() == 0 {
        Seq::empty()
    } else {
        match text::number_of(pieces.last()) {
            Some(n) => numbers_of(pieces.drop_last()).push(n),
            None => numbers_of(pieces.drop_last()),
        }
    }
}

/// The style after the codes of a parameter text such as `1;31`.
pub open spec fn sgr_style(style: Style, params: Seq<char>) -> Style {
    after_codes(style, numbers_of(text::split_of(params, ';')))
}

fn sgr_codes(params: &str) -> (r: Vec<u32>)
    ensures
        r@ == numbers_of(text::split_of(params@, ';')),
{
    let pieces = text::split(params, ';');
    let ghost all = text::views(pieces@);
    let mut out: Vec<u32> = Vec::new();
    let mut i: usize = 0;
    while i < pieces.len()
        invariant
            i <= pieces.len(),
            all == text::views(pieces@),
            out@ == numbers_of(all.take(i as int)),
        decreases pieces.len() - i,
    {
        assert(all.take(i + 1).drop_last() =~= all.take(i as int));
        match text::parse_number(pieces[i].as_str()) {
            Some(n) => {
                out.push(n);
            },
            None => {},
        }
        i = i + 1;
    }
    assert(all.take(all.len() as int) =~= all);
    out
}

/// The style after the codes of a parameter text such as `1;31`.
pub fn apply_sgr(style: Style, params: &str) -> (r: Style)
    ensures
        r == sgr_style(style, params@),
{
    let codes = sgr_codes(params);
    let mut result = style;
    let mut i: usize = 0;
    assert(codes@.skip(0) =~= codes@);
    while i < codes.len()
        invariant
            i <= codes@.len(),
            after_codes(style, codes@) == after_codes(result, codes@.skip(i as int)),
        decreases codes.len() - i,
    {
        let code = codes[i];
        let ghost todo = codes@.skip(i as int);
        assert(todo.drop_first() =~= codes@.skip(i + 1));
        if code == 38 || code == 48 {
            match parse_extended_color(&codes, i + 1) {
                Some((color, n)) => {
                    assert(todo.drop_first().skip(n as int) =~= codes@.skip(i + 1 + n));
                    result = if code == 38 {
                        result.fg(color)
                    } else {
                        result.bg(color)
                    };
                    i = i + n;
                },
                None => {},
            }
        } else {
            result = apply_code(result, code);
        }
        i = i + 1;
    }
    result
}

// ---------------------------------------------------------------------------
// Reading text with escape sequences
// ---------------------------------------------------------------------------
/// A character that may stand between the bracket and the final character of
/// a control sequence.
pub open spec fn param_char(c: char) -> bool {
    text::ascii_digit(c) || c == ';'
}

/// How many characters of parameters stand at the front.
pub open spec fn params_len(s: Seq<char>) -> int
    decreases s.len(),
{
    if s.len() > 0 && param_char(s[0]) {
        1 + params_len(s.drop_first())
    } else {
        0
    }
}

proof fn lemma_params_len(s: Seq<char>)
    ensures
        0 <= params_len(s) <= s.len(),
    decreases s.len(),
{
    if s.len() > 0 && param_char(s[0]) {
        lemma_params_len(s.drop_first());
    }
}

/// What has been read so far: finished lines, the finished spans of the
/// current line, the text of the current span, and the current style.
#[verifier::ext_equal]
pub struct Screen {
    pub lines: Seq<Seq<SpanView>>,
    pub spans: Seq<SpanView>,
    pub buf: Seq<char>,
    pub style: Style,
}

impl Screen {
    pub open spec fn blank() -> Screen {
        Screen {
            lines: Seq::empty(),
            spans: Seq::empty(),
            buf: Seq::empty(),
            style: Style::plain(),
        }
    }

    /// Ends the current span, if it has any text.
    pub open spec fn flush(self) -> Screen {
        if self.buf.len() > 0 {
            Screen {
                spans: self.spans.push(SpanView { content: self.buf, style: self.style }),
                buf: Seq::empty(),
                ..self
            }
        } else {
            self
        }
    }

    /// Ends the current line.
    pub open spec fn new_line(self) -> Screen {
        let flushed = self.flush();
        Screen { lines: flushed.lines.push(flushed.spans), spans: Seq::empty(), ..flushed }
    }

    /// A control sequence: `m` sets the style, `K` shows as one space where
    /// the style has a background; others are left out.
    pub open spec fn control(self, params: Seq<char>, last: char) -> Screen {
        if last == 'm' && params.len() > 0 {
            Screen { style: sgr_style(self.style, params), ..self }
        } else if last == 'K' && self.style.bg is Some {
            Screen { buf: self.buf.push(' '), ..self }
        } else {
            self
        }
    }

    /// Reads the text. An escape character ends the current span; with a
    /// bracket behind it, it starts a control sequence. Carriage returns are
    /// left out.
    pub open spec fn read(self, input: Seq<char>) -> Screen
        decreases input.len(),
        via Screen::read_decreases
    {
        if input.len() == 0 {
            self
        } else if input[0] == '\x1b' {
            if input.len() > 1 && input[1] == '[' {
                let n = params_len(input.skip(2));
                if 2 + n < input.len() {
                    self.flush().control(input.subrange(2, 2 + n), input[2 + n]).read(
                        input.skip(3 + n),
                    )
                } else {
                    self.flush()
                }
            } else {
                self.flush().read(input.drop_first())
            }
        } else if input[0] == '\n' {
            self.new_line().read(input.drop_first())
        } else if input[0] == '\r' {
            self.read(input.drop_first())
        } else {
            Screen { buf: self.buf.push(input[0]), ..self }.read(input.drop_first())
        }
    }

    #[via_fn]
    proof fn read_decreases(self, input: Seq<char>) {
        if input.len() > 1 {
            lemma_params_len(input.skip(2));
        }
    }

    /// The lines, the last one included where it has any text.
    pub open spec fn finish(self) -> Seq<Seq<SpanView>> {
        let flushed = self.flush();
        if flushed.spans.len() > 0 {
            flushed.lines.push(flushed.spans)
        } else {
            flushed.lines
        }
    }
}

/// The styled lines of a text with escape sequences.
pub open spec fn styled_lines(input: Seq<char>) -> Seq<Seq<SpanView>> {
    Screen::blank().read(input).finish()
}

/// The state of the reader.
struct Reader {
    lines: Vec<Line>,
    spans: Vec<Span>,
    buf: String,
    style: Style,
}

impl Reader {
    spec fn screen(&self) -> Screen {
        Screen {
            lines: text::views(self.lines@),
            spans: text::views(self.spans@),
            buf: self.buf@,
            style: self.style,
        }
    }

    fn blank() -> (r: Reader)
        ensures
            r.screen() == Screen::blank(),
    {
        let r = Reader {
            lines: Vec::new(),
            spans: Vec::new(),
            buf: String::new(),
            style: Style::unstyled(),
        };
        assert(r.screen() =~= Screen::blank());
        r
    }

    fn flush(&mut self)
        ensures
            final(self).screen() == old(self).screen().flush(),
    {
        if !self.buf.as_str().is_empty() {
            let ghost before = self.screen();
            let mut content = String::new();
            std::mem::swap(&mut content, &mut self.buf);
            let span = Span { content, style: self.style };
            proof {
                text::lemma_views_push(self.spans@, span);
            }
            self.spans.push(span);
            assert(self.screen() =~= before.flush());
        }
    }

    fn new_line(&mut self)
        ensures
            final(self).screen() == old(self).screen().new_line(),
    {
        let ghost before = self.screen();
        self.flush();
        let mut spans: Vec<Span> = Vec::new();
        std::mem::swap(&mut spans, &mut self.spans);
        let line = Line { spans };
        proof {
            text::lemma_views_push(self.lines@, line);
        }
        self.lines.push(line);
        assert(self.screen() =~= before.new_line());
    }

    fn finish(self) -> (r: Vec<Line>)
        ensures
            text::views(r@) == self.screen().finish(),
    {
        let mut me = self;
        me.flush();
        let mut lines = me.lines;
        if me.spans.len() > 0 {
            let line = Line { spans: me.spans };
            proof {
                text::lemma_views_push(lines@, line);
            }
            lines.push(line);
        }
        lines
    }
}

/// The index of the first character at or after `from` that is no parameter.
fn params_end(chars: &Vec<char>, from: usize) -> (r: usize)
    requires
        from <= chars@.len(),
    ensures
        from <= r <= chars@.len(),
        r == from + params_len(chars@.skip(from as int)),
{
    let mut i: usize = from;
    while i < chars.len() && (('0' <= chars[i] && chars[i] <= '9') || chars[i] == ';')
        invariant
            from <= i <= chars@.len(),
            from + params_len(chars@.skip(from as int)) == i + params_len(chars@.skip(i as int)),
        decreases chars.len() - i,
    {
        assert(chars@.skip(i as int).drop_first() =~= chars@.skip(i + 1));
        i = i + 1;
    }
    i
}

/// The styled lines of a text with ANSI escape sequences.
pub fn ansi_to_lines(input: &str) -> (r: Vec<Line>)
    ensures
        text::views(r@) == styled_lines(input@),
{
    let chars = text::chars_of(input);
    let mut reader = Reader::blank();
    let mut i: usize = 0;
    assert(chars@.skip(0) =~= chars@);
    while i < chars.len()
        invariant
            chars@ == input@,
            i <= chars@.len(),
            reader.screen().read(chars@.skip(i as int)) == Screen::blank().read(input@),
        decreases chars.len() - i,
    {
        let c = chars[i];
        let ghost todo = chars@.skip(i as int);
        proof {
            assert(todo.drop_first() =~= chars@.skip(i + 1));
        }
        if c == '\x1b' {
            reader.flush();
            if i + 1 < chars.len() && chars[i + 1] == '[' {
                let ghost flushed = reader.screen();
                let end: usize = params_end(&chars, i + 2);
                proof {
                    assert(todo.skip(2) =~= chars@.skip(i + 2));
                }
                if end < chars.len() {
                    let params = text::slice_text(&chars, i + 2, end);
                    let last = chars[end];
                    proof {
                        assert(todo.subrange(2, end - i) =~= params@);
                        assert(todo.skip(end - i + 1) =~= chars@.skip(end + 1));
                    }
                    if last == 'm' && !params.as_str().is_empty() {
                        reader.style = apply_sgr(reader.style, params.as_str());
                    }
                    if last == 'K' && reader.style.bg.is_some() {
                        reader.buf.push(' ');
                    }
                    assert(reader.screen() =~= flushed.control(params@, last));
                    i = end + 1;
                } else {
                    i = end;
                    assert(chars@.skip(i as int).len() == 0);
                }
            } else {
                i = i + 1;
            }
        } else if c == '\n' {
            reader.new_line();
            i = i + 1;
        } else if c == '\r' {
            i = i + 1;
        } else {
            let ghost before = reader.screen();
            reader.buf.push(c);
            assert(reader.screen() =~= Screen { buf: before.buf.push(c), ..before });
            i = i + 1;
        }
    }
    assert(chars@.skip(i as int).len() == 0);
    reader.finish()
}

// ---------------------------------------------------------------------------
// Laws
// ---------------------------------------------------------------------------
/// Whether a text has no escape character and no character that ends a line.
pub open spec fn without_controls(s: Seq<char>) -> bool {
    forall|i: int| 0 <= i < s.len() ==> #[trigger] s[i] != '\x1b' && s[i] != '\n' && s[i] != '\r'
}

/// Whether each span of a line has some text, and none has control characters.
pub open spec fn clean_line(line: Seq<SpanView>) -> bool {
    forall|i: int|
        0 <= i < line.len() ==> without_controls((#[trigger] line[i]).content)
            && line[i].content.len() > 0
}

spec fn clean_screen(s: Screen) -> bool {
    &&& without_controls(s.buf)
    &&& clean_line(s.spans)
    &&& forall|i: int| 0 <= i < s.lines.len() ==> clean_line(#[trigger] s.lines[i])
}

proof fn lemma_read_clean(s: Screen, input: Seq<char>)
    requires
        clean_screen(s),
    ensures
        clean_screen(s.read(input)),
    decreases input.len(),
{
    assert(clean_screen(s.flush()));
    if input.len() == 0 {
    } else if input[0] == '\x1b' {
        if input.len() > 1 && input[1] == '[' {
            let n = params_len(input.skip(2));
            lemma_params_len(input.skip(2));
            if 2 + n < input.len() {
                let next = s.flush().control(input.subrange(2, 2 + n), input[2 + n]);
                assert(clean_screen(next));
                lemma_read_clean(next, input.skip(3 + n));
            }
        } else {
            lemma_read_clean(s.flush(), input.drop_first());
        }
    } else if input[0] == '\n' {
        assert(clean_screen(s.new_line()));
        lemma_read_clean(s.new_line(), input.drop_first());
    } else if input[0] == '\r' {
        lemma_read_clean(s, input.drop_first());
    } else {
        lemma_read_clean(Screen { buf: s.buf.push(input[0]), ..s }, input.drop_first());
    }
}

/// No escape character, line feed or carriage return is left in the text of
/// any span, and no span is empty, whatever the input.
pub proof fn law_no_raw_escapes(input: Seq<char>)
    ensures
        forall|i: int|
            0 <= i < styled_lines(input).len() ==> clean_line(#[trigger] styled_lines(input)[i]),
{
    lemma_read_clean(Screen::blank(), input);
    let s = Screen::blank().read(input);
    assert(clean_screen(s.flush()));
}

/// A line of text in the default style: one span, or none where it is empty.
pub open spec fn plain_line(t: Seq<char>) -> Seq<SpanView> {
    if t.len() > 0 {
        seq![SpanView { content: t, style: Style::plain() }]
    } else {
        Seq::empty()
    }
}

proof fn lemma_read_plain(lines: Seq<Seq<SpanView>>, buf: Seq<char>, input: Seq<char>)
    requires
        without_controls(buf),
        forall|i: int| 0 <= i < input.len() ==> #[trigger] input[i] != '\x1b' && input[i] != '\r',
    ensures
        (Screen { lines, spans: Seq::empty(), buf, style: Style::plain() }).read(input).finish()
            == lines + text::lines_of(buf + input).map_values(|t: Seq<char>| plain_line(t)),
    decreases input.len(),
{
    let s = Screen { lines, spans: Seq::<SpanView>::empty(), buf, style: Style::plain() };
    let f = |t: Seq<char>| plain_line(t);
    if input.len() == 0 {
        assert(buf + input =~= buf);
        if buf.len() > 0 {
            text::lemma_first_index_unique(buf, '\n', buf.len() as int);
            assert(text::lines_of(buf) == seq![buf]);
            assert(seq![buf].map_values(f) =~= seq![plain_line(buf)]);
            assert(s.flush().spans =~= plain_line(buf));
            assert(lines.push(plain_line(buf)) =~= lines + seq![plain_line(buf)]);
        } else {
            assert(text::lines_of(buf).map_values(f) =~= Seq::empty());
            assert(lines + Seq::<Seq<SpanView>>::empty() =~= lines);
        }
    } else if input[0] == '\n' {
        let all = buf + input;
        text::lemma_first_index_unique(all, '\n', buf.len() as int);
        assert(all.take(buf.len() as int) =~= buf);
        assert(all.skip(buf.len() as int + 1) =~= input.drop_first());
        assert(text::chomp(buf) == buf);
        let rest = text::lines_of(input.drop_first());
        assert(text::lines_of(all) == seq![buf] + rest);
        assert(s.new_line().spans =~= Seq::empty());
        assert(s.flush().spans =~= plain_line(buf));
        assert(s.new_line().lines =~= lines.push(plain_line(buf)));
        assert(s.new_line().buf =~= Seq::empty());
        lemma_read_plain(lines.push(plain_line(buf)), Seq::empty(), input.drop_first());
        assert(Seq::<char>::empty() + input.drop_first() =~= input.drop_first());
        assert(s.new_line() == (Screen {
            lines: lines.push(plain_line(buf)),
            spans: Seq::empty(),
            buf: Seq::empty(),
            style: Style::plain(),
        }));
        assert((seq![buf] + rest).map_values(f) =~= seq![plain_line(buf)] + rest.map_values(f));
        assert(lines.push(plain_line(buf)) + rest.map_values(f) =~= lines + (seq![plain_line(buf)]
            + rest.map_values(f)));
    } else {
        lemma_read_plain(lines, buf.push(input[0]), input.drop_first());
        assert(buf.push(input[0]) + input.drop_first() =~= buf + input);
    }
}

/// A text without its carriage returns.
pub open spec fn without_returns(s: Seq<char>) -> Seq<char> {
    s.filter(|c: char| c != '\r')
}

/// Where there is no escape character, carriage returns make no difference.
proof fn lemma_read_without_returns(s: Screen, input: Seq<char>)
    requires
        forall|i: int| 0 <= i < input.len() ==> #[trigger] input[i] != '\x1b',
    ensures
        s.read(input) == s.read(without_returns(input)),
    decreases input.len(),
{
    reveal(Seq::filter);
    if input.len() > 0 {
        let keep = |c: char| c != '\r';
        let first = seq![input[0]];
        let rest = input.drop_first();
        assert(input =~= first + rest);
        Seq::filter_distributes_over_add(first, rest, keep);
        assert(first.drop_last() =~= Seq::<char>::empty());
        assert(first.drop_last().filter(keep) =~= Seq::<char>::empty());
        let left = without_returns(rest);
        assert forall|i: int| 0 <= i < rest.len() implies #[trigger] rest[i] != '\x1b' by {
            assert(rest[i] == input[i + 1]);
        }
        if input[0] == '\r' {
            assert(first.filter(keep) =~= Seq::<char>::empty());
            assert(without_returns(input) =~= left);
            lemma_read_without_returns(s, rest);
        } else {
            assert(first.filter(keep) =~= first);
            let kept = without_returns(input);
            assert(kept =~= first + left);
            assert(kept[0] == input[0]);
            assert(kept.drop_first() =~= left);
            if input[0] == '\n' {
                lemma_read_without_returns(s.new_line(), rest);
            } else {
                lemma_read_without_returns(Screen { buf: s.buf.push(input[0]), ..s }, rest);
            }
        }
    }
}

/// Text without escape characters keeps its lines, each as one span in the
/// default style; carriage returns are left out.
pub proof fn law_plain_text(input: Seq<char>)
    requires
        forall|i: int| 0 <= i < input.len() ==> #[trigger] input[i] != '\x1b',
    ensures
        styled_lines(input) == text::lines_of(without_returns(input)).map_values(
            |t: Seq<char>| plain_line(t),
        ),
{
    let kept = without_returns(input);
    let keep = |c: char| c != '\r';
    lemma_read_without_returns(Screen::blank(), input);
    assert forall|i: int| 0 <= i < kept.len() implies #[trigger] kept[i] != '\x1b' && kept[i]
        != '\r' by {
        input.lemma_filter_pred(keep, i);
        input.lemma_filter_contains_rev(keep, kept[i]);
        let j = choose|j: int| 0 <= j < input.len() && input[j] == kept[i];
        assert(input[j] != '\x1b');
    }
    lemma_read_plain(Seq::empty(), Seq::empty(), kept);
    assert(Seq::<char>::empty() + kept =~= kept);
    let lines = text::lines_of(kept).map_values(|t: Seq<char>| plain_line(t));
    assert(Seq::<Seq<SpanView>>::empty() + lines =~= lines);
}

/// Code 0 resets the style, whatever it was.
pub proof fn law_reset(style: Style)
    ensures
        after_codes(style, seq![0u32]) == Style::plain(),
{
    reveal_with_fuel(after_codes, 2);
}

/// Whether codes leave nothing for the codes behind them to complete: each 38
/// and 48 has all of its colour behind it.
pub open spec fn settled(codes: Seq<u32>) -> bool
    decreases codes.len(),
{
    if codes.len() == 0 {
        true
    } else {
        let rest = codes.drop_first();
        if codes[0] == 38 || codes[0] == 48 {
            match extended_color(rest) {
                Some((_, n)) => settled(rest.skip(n)),
                None => false,
            }
        } else {
            settled(rest)
        }
    }
}

/// Codes without 38 and 48 leave nothing to complete.
pub proof fn law_simple_codes_are_settled(codes: Seq<u32>)
    requires
        !codes.contains(38),
        !codes.contains(48),
    ensures
        settled(codes),
    decreases codes.len(),
{
    if codes.len() > 0 {
        let rest = codes.drop_first();
        assert(codes.contains(codes[0]));
        if rest.contains(38) {
            let i = choose|i: int| 0 <= i < rest.len() && rest[i] == 38;
            assert(codes[i + 1] == 38);
        }
        if rest.contains(48) {
            let i = choose|i: int| 0 <= i < rest.len() && rest[i] == 48;
            assert(codes[i + 1] == 48);
        }
        law_simple_codes_are_settled(rest);
    }
}

proof fn lemma_codes_in_turn(style: Style, a: Seq<u32>, b: Seq<u32>)
    requires
        settled(a),
    ensures
        after_codes(style, a + b) == after_codes(after_codes(style, a), b),
    decreases a.len(),
{
    if a.len() == 0 {
        assert(a + b =~= b);
    } else {
        let rest = a.drop_first();
        assert((a + b)[0] == a[0]);
        assert((a + b).drop_first() =~= rest + b);
        if a[0] == 38 || a[0] == 48 {
            match extended_color(rest) {
                Some((color, n)) => {
                    let next = if a[0] == 38 {
                        style.with_fg(color)
                    } else {
                        style.with_bg(color)
                    };
                    assert(extended_color(rest + b) == extended_color(rest));
                    assert((rest + b).skip(n) =~= rest.skip(n) + b);
                    lemma_codes_in_turn(next, rest.skip(n), b);
                },
                None => {},
            }
        } else {
            lemma_codes_in_turn(after_code(style, a[0]), rest, b);
        }
    }
}

proof fn lemma_numbers_join(a: Seq<Seq<char>>, b: Seq<Seq<char>>)
    ensures
        numbers_of(a + b) == numbers_of(a) + numbers_of(b),
    decreases b.len(),
{
    if b.len() == 0 {
        assert(a + b =~= a);
        assert(numbers_of(a) + numbers_of(b) =~= numbers_of(a));
    } else {
        assert((a + b).drop_last() =~= a + b.drop_last());
        lemma_numbers_join(a, b.drop_last());
        match text::number_of(b.last()) {
            Some(n) => {
                assert((numbers_of(a) + numbers_of(b.drop_last())).push(n) =~= numbers_of(a)
                    + numbers_of(b.drop_last()).push(n));
            },
            None => {},
        }
    }
}

/// Codes that are joined by a semicolon act one after the other, where the first
/// ones leave nothing for the others to complete.
pub proof fn law_codes_act_in_turn(style: Style, a: Seq<char>, b: Seq<char>)
    requires
        settled(numbers_of(text::split_of(a, ';'))),
    ensures
        sgr_style(style, a.push(';') + b) == sgr_style(sgr_style(style, a), b),
{
    text::lemma_split_join(a, ';', b);
    lemma_numbers_join(text::split_of(a, ';'), text::split_of(b, ';'));
    lemma_codes_in_turn(
        style,
        numbers_of(text::split_of(a, ';')),
        numbers_of(text::split_of(b, ';')),
    );
}

/// The eight colours, in the order of their codes.
pub open spec fn palette() -> Seq<Color> {
    seq![
        Color::Black,
        Color::Red,
        Color::Green,
        Color::Yellow,
        Color::Blue,
        Color::Magenta,
        Color::Cyan,
        Color::White,
    ]
}

/// Their bright counterparts.
pub open spec fn bright_palette() -> Seq<Color> {
    seq![
        Color::Gray,
        Color::LightRed,
        Color::LightGreen,
        Color::LightYellow,
        Color::LightBlue,
        Color::LightMagenta,
        Color::LightCyan,
        Color::White,
    ]
}

proof fn lemma_one_code(style: Style, code: u32)
    requires
        code != 38,
        code != 48,
    ensures
        after_codes(style, seq![code]) == after_code(style, code),
{
    assert(seq![code].drop_first() =~= Seq::<u32>::empty());
    assert(after_codes(after_code(style, code), Seq::<u32>::empty()) == after_code(style, code));
}

/// The codes of the eight colours set one colour each, of the text or behind it,
/// and leave everything else as it was.
pub proof fn law_color_codes(style: Style, n: u32)
    requires
        n < 8,
    ensures
        after_codes(style, seq![(30 + n) as u32]) == (Style {
            fg: Some(palette()[n as int]),
            ..style
        }),
        after_codes(style, seq![(40 + n) as u32]) == (Style {
            bg: Some(palette()[n as int]),
            ..style
        }),
        after_codes(style, seq![(90 + n) as u32]) == (Style {
            fg: Some(bright_palette()[n as int]),
            ..style
        }),
        after_codes(style, seq![(100 + n) as u32]) == (Style {
            bg: Some(bright_palette()[n as int]),
            ..style
        }),
        after_codes(style, seq![39u32]) == (Style { fg: Some(Color::Reset), ..style }),
        after_codes(style, seq![49u32]) == (Style { bg: Some(Color::Reset), ..style }),
{
    lemma_one_code(style, (30 + n) as u32);
    lemma_one_code(style, (40 + n) as u32);
    lemma_one_code(style, (90 + n) as u32);
    lemma_one_code(style, (100 + n) as u32);
    lemma_one_code(style, 39);
    lemma_one_code(style, 49);
}

/// The codes 1 to 4 switch an emphasis on, and 22 to 24 switch it off again, each
/// leaving the colours and the other emphases as they were; 22 is for both bold
/// and dim.
pub proof fn law_emphasis_codes(style: Style)
    ensures
        ({
            let on = style.add_modifier;
            let off = style.sub_modifier;
            &&& after_codes(style, seq![1u32]) == (Style {
                add_modifier: Modifier { bold: true, ..on },
                sub_modifier: Modifier { bold: false, ..off },
                ..style
            })
            &&& after_codes(style, seq![2u32]) == (Style {
                add_modifier: Modifier { dim: true, ..on },
                sub_modifier: Modifier { dim: false, ..off },
                ..style
            })
            &&& after_codes(style, seq![3u32]) == (Style {
                add_modifier: Modifier { italic: true, ..on },
                sub_modifier: Modifier { italic: false, ..off },
                ..style
            })
            &&& after_codes(style, seq![4u32]) == (Style {
                add_modifier: Modifier { underlined: true, ..on },
                sub_modifier: Modifier { underlined: false, ..off },
                ..style
            })
            &&& after_codes(style, seq![22u32]) == (Style {
                add_modifier: Modifier { bold: false, dim: false, ..on },
                sub_modifier: Modifier { bold: true, dim: true, ..off },
                ..style
            })
            &&& after_codes(style, seq![23u32]) == (Style {
                add_modifier: Modifier { italic: false, ..on },
                sub_modifier: Modifier { italic: true, ..off },
                ..style
            })
            &&& after_codes(style, seq![24u32]) == (Style {
                add_modifier: Modifier { underlined: false, ..on },
                sub_modifier: Modifier { underlined: true, ..off },
                ..style
            })
        }),
{
    lemma_one_code(style, 1);
    lemma_one_code(style, 2);
    lemma_one_code(style, 3);
    lemma_one_code(style, 4);
    lemma_one_code(style, 22);
    lemma_one_code(style, 23);
    lemma_one_code(style, 24);
}

/// Any other code changes nothing.
pub proof fn law_unknown_codes(style: Style, code: u32)
    requires
        5 <= code < 22 || 24 < code < 30 || 49 < code < 90 || 97 < code < 100 || code > 107,
    ensures
        after_codes(style, seq![code]) == style,
{
    lemma_one_code(style, code);
}

/// A true colour and a colour of the palette are those that the numbers tell, for
/// the text behind 38 and for its background behind 48; everything else stays as
/// it was.
pub proof fn law_extended_colors(style: Style, r: u8, g: u8, b: u8)
    ensures
        after_codes(style, seq![38u32, 2u32, r as u32, g as u32, b as u32]) == (Style {
            fg: Some(Color::Rgb(r, g, b)),
            ..style
        }),
        after_codes(style, seq![48u32, 2u32, r as u32, g as u32, b as u32]) == (Style {
            bg: Some(Color::Rgb(r, g, b)),
            ..style
        }),
        after_codes(style, seq![38u32, 5u32, r as u32]) == (Style {
            fg: Some(Color::Indexed(r)),
            ..style
        }),
        after_codes(style, seq![48u32, 5u32, r as u32]) == (Style {
            bg: Some(Color::Indexed(r)),
            ..style
        }),
{
    let rgb = seq![2u32, r as u32, g as u32, b as u32];
    let indexed = seq![5u32, r as u32];
    let none = Seq::<u32>::empty();
    assert(seq![38u32, 2u32, r as u32, g as u32, b as u32].drop_first() =~= rgb);
    assert(seq![48u32, 2u32, r as u32, g as u32, b as u32].drop_first() =~= rgb);
    assert(seq![38u32, 5u32, r as u32].drop_first() =~= indexed);
    assert(seq![48u32, 5u32, r as u32].drop_first() =~= indexed);
    assert(rgb.skip(4) =~= none);
    assert(indexed.skip(2) =~= none);
    assert(after_codes(style.with_fg(Color::Rgb(r, g, b)), none) == style.with_fg(
        Color::Rgb(r, g, b),
    ));
    assert(after_codes(style.with_bg(Color::Rgb(r, g, b)), none) == style.with_bg(
        Color::Rgb(r, g, b),
    ));
    assert(after_codes(style.with_fg(Color::Indexed(r)), none) == style.with_fg(
        Color::Indexed(r),
    ));
    assert(after_codes(style.with_bg(Color::Indexed(r)), none) == style.with_bg(
        Color::Indexed(r),
    ));
}

/// Codes as a sequence writes them: in decimal, with semicolons between them.
pub open spec fn written_codes(codes: Seq<u32>) -> Seq<char> {
    text::join_of(codes.map_values(|n: u32| text::decimal_text(n as nat)), seq![';'])
}

/// Codes that were written are the ones that act.
pub proof fn law_written_codes(style: Style, codes: Seq<u32>)
    requires
        codes.len() > 0,
    ensures
        sgr_style(style, written_codes(codes)) == after_codes(style, codes),
        numbers_of(text::split_of(written_codes(codes), ';')) == codes,
    decreases codes.len(),
{
    let pieces = codes.map_values(|n: u32| text::decimal_text(n as nat));
    let last = codes.last();
    let digits = text::decimal_text(last as nat);
    text::law_decimal(last as nat);
    assert forall|j: int| 0 <= j < digits.len() implies digits[j] != ';' by {
        assert(text::ascii_digit(digits[j]));
    }
    text::lemma_first_index_unique(digits, ';', digits.len() as int);
    assert(text::split_of(digits, ';') =~= seq![digits]);
    assert(seq![digits].drop_last() =~= Seq::<Seq<char>>::empty());
    assert(numbers_of(Seq::<Seq<char>>::empty()) =~= Seq::<u32>::empty());
    assert(seq![digits].last() == digits);
    assert(numbers_of(seq![digits]) =~= seq![last]);
    if codes.len() == 1 {
        assert(pieces[0] == digits);
        assert(seq![last] =~= codes);
    } else {
        let front = codes.drop_last();
        law_written_codes(style, front);
        let front_pieces = front.map_values(|n: u32| text::decimal_text(n as nat));
        assert(pieces.drop_last() =~= front_pieces);
        assert(pieces.last() == digits);
        let a = written_codes(front);
        assert(written_codes(codes) =~= a.push(';') + digits);
        text::lemma_split_join(a, ';', digits);
        lemma_numbers_join(text::split_of(a, ';'), seq![digits]);
        assert(front + seq![last] =~= codes);
    }
}

/// Whether a text is made of digits and semicolons, as between the bracket and
/// the final character of a control sequence.
pub open spec fn is_params(s: Seq<char>) -> bool {
    forall|i: int| 0 <= i < s.len() ==> '0' <= #[trigger] s[i] <= '9' || s[i] == ';'
}

/// A control sequence: an escape character, a bracket, parameters and a final
/// character.
pub open spec fn sequence(params: Seq<char>, last: char) -> Seq<char> {
    seq!['\x1b', '['] + params.push(last)
}

proof fn lemma_params_of(params: Seq<char>, rest: Seq<char>)
    requires
        is_params(params),
        rest.len() == 0 || !param_char(rest[0]),
    ensures
        params_len(params + rest) == params.len(),
    decreases params.len(),
{
    let all = params + rest;
    if params.len() == 0 {
        assert(all =~= rest);
    } else {
        assert(all[0] == params[0]);
        assert(all.drop_first() =~= params.drop_first() + rest);
        assert forall|i: int| 0 <= i < params.len() - 1 implies '0' <= #[trigger] params.drop_first(
        )[i] <= '9' || params.drop_first()[i] == ';' by {
            assert(params.drop_first()[i] == params[i + 1]);
        }
        lemma_params_of(params.drop_first(), rest);
    }
}

/// What a control sequence does, whatever was read before and whatever follows: it
/// ends the span, and then one that ends in `m` changes the style that there was by
/// its codes, one that ends in `K` puts a blank where the style has a background,
/// and any other one does nothing more.
pub proof fn law_sequence(s: Screen, params: Seq<char>, last: char, rest: Seq<char>)
    requires
        is_params(params),
        !is_params(seq![last]),
    ensures
        last == 'm' && params.len() > 0 ==> s.read(sequence(params, last) + rest) == (Screen {
            style: sgr_style(s.style, params),
            ..s.flush()
        }).read(rest),
        last == 'K' && s.style.bg is Some ==> s.read(sequence(params, last) + rest) == (Screen {
            buf: seq![' '],
            ..s.flush()
        }).read(rest),
        (last != 'm' || params.len() == 0) && (last != 'K' || s.style.bg is None) ==> s.read(
            sequence(params, last) + rest,
        ) == s.flush().read(rest),
{
    let input = sequence(params, last) + rest;
    let tail = seq![last] + rest;
    assert(!param_char(last)) by {
        if param_char(last) {
            assert(is_params(seq![last]));
        }
    }
    assert(input.skip(2) =~= params + tail);
    lemma_params_of(params, tail);
    let n = params.len() as int;
    assert(input[0] == '\x1b' && input[1] == '[');
    assert(input.subrange(2, 2 + n) =~= params);
    assert(input[2 + n] == last);
    assert(input.skip(3 + n) =~= rest);
    assert(s.flush().style == s.style);
    assert(s.flush().buf =~= Seq::<char>::empty());
    assert(Seq::<char>::empty().push(' ') =~= seq![' ']);
    assert(s.flush().control(params, last) =~= (if last == 'm' && params.len() > 0 {
        Screen { style: sgr_style(s.style, params), ..s.flush() }
    } else if last == 'K' && s.style.bg is Some {
        Screen { buf: seq![' '], ..s.flush() }
    } else {
        s.flush()
    }));
}

proof fn lemma_read_text(s: Screen, t: Seq<char>, rest: Seq<char>)
    requires
        without_controls(t),
    ensures
        s.read(t + rest) == (Screen { buf: s.buf + t, ..s }).read(rest),
    decreases t.len(),
{
    if t.len() == 0 {
        assert(t + rest =~= rest);
        assert(s.buf + t =~= s.buf);
    } else {
        assert((t + rest)[0] == t[0]);
        assert((t + rest).drop_first() =~= t.drop_first() + rest);
        assert(t[0] != '\x1b' && t[0] != '\n' && t[0] != '\r');
        let next = Screen { buf: s.buf.push(t[0]), ..s };
        assert forall|i: int| 0 <= i < t.len() - 1 implies #[trigger] t.drop_first()[i] != '\x1b'
            && t.drop_first()[i] != '\n' && t.drop_first()[i] != '\r' by {
            assert(t.drop_first()[i] == t[i + 1]);
        }
        lemma_read_text(next, t.drop_first(), rest);
        assert(next.buf + t.drop_first() =~= s.buf + t);
    }
}

/// Plain text goes into the span as it stands, in the style that there is, and a
/// line feed ends the line; the style goes on into the next line.
pub proof fn law_text_and_lines(s: Screen, t: Seq<char>, rest: Seq<char>)
    requires
        without_controls(t),
    ensures
        s.read(t + rest) == (Screen { buf: s.buf + t, ..s }).read(rest),
        s.read(seq!['\n'] + rest) == (Screen {
            lines: s.lines.push(s.flush().spans),
            spans: Seq::empty(),
            buf: Seq::empty(),
            style: s.style,
        }).read(rest),
        s.read(seq!['\r'] + rest) == s.read(rest),
        s.buf.len() > 0 ==> s.flush().spans == s.spans.push(
            SpanView { content: s.buf, style: s.style },
        ),
        s.buf.len() == 0 ==> s.flush().spans == s.spans,
        s.flush().lines == s.lines,
        s.flush().style == s.style,
{
    lemma_read_text(s, t, rest);
    assert((seq!['\n'] + rest).drop_first() =~= rest);
    assert((seq!['\r'] + rest).drop_first() =~= rest);
    assert(s.new_line() =~= (Screen {
        lines: s.lines.push(s.flush().spans),
        spans: Seq::empty(),
        buf: Seq::empty(),
        style: s.style,
    }));
}

/// Sequences add up: text behind two of them is in the style that the codes of the
/// second make of what the codes of the first make of the style in front of them.
pub proof fn law_sequences_add_up(
    before: Seq<char>,
    a: Seq<char>,
    between: Seq<char>,
    b: Seq<char>,
    t: Seq<char>,
)
    requires
        is_params(a) && a.len() > 0,
        is_params(b) && b.len() > 0,
        without_controls(before),
        without_controls(between),
        without_controls(t),
        before.len() > 0 && between.len() > 0 && t.len() > 0,
    ensures
        styled_lines(before + (sequence(a, 'm') + (between + (sequence(b, 'm') + t)))) == seq![
            seq![
                SpanView { content: before, style: Style::plain() },
                SpanView { content: between, style: sgr_style(Style::plain(), a) },
                SpanView { content: t, style: sgr_style(sgr_style(Style::plain(), a), b) },
            ],
        ],
        styled_lines(sequence(a, 'm') + (sequence(b, 'm') + t)) == seq![
            seq![SpanView { content: t, style: sgr_style(sgr_style(Style::plain(), a), b) }],
        ],
{
    assert(!is_params(seq!['m'])) by {
        assert(seq!['m'][0] == 'm');
    }
    let none = Seq::<char>::empty();
    let plain = Style::plain();
    let first = sgr_style(plain, a);
    let second = sgr_style(first, b);
    let start = Screen::blank();
    let rest3 = sequence(b, 'm') + t;
    let rest2 = between + rest3;
    let rest1 = sequence(a, 'm') + rest2;
    assert(t + none =~= t);
    // with text between the sequences
    lemma_read_text(start, before, rest1);
    let s1 = Screen { buf: start.buf + before, ..start };
    assert(s1.buf =~= before);
    law_sequence(s1, a, 'm', rest2);
    let s2 = Screen { style: first, ..s1.flush() };
    lemma_read_text(s2, between, rest3);
    let s3 = Screen { buf: s2.buf + between, ..s2 };
    assert(s3.buf =~= between);
    law_sequence(s3, b, 'm', t);
    let s4 = Screen { style: second, ..s3.flush() };
    lemma_read_text(s4, t, none);
    let s5 = Screen { buf: s4.buf + t, ..s4 };
    assert(s5.buf =~= t);
    assert(s5.read(none) == s5);
    assert(s5.flush().spans =~= seq![
        SpanView { content: before, style: plain },
        SpanView { content: between, style: first },
        SpanView { content: t, style: second },
    ]);
    assert(s5.finish() =~= seq![s5.flush().spans]);
    // one behind the other
    law_sequence(start, a, 'm', rest3);
    let u1 = Screen { style: first, ..start.flush() };
    law_sequence(u1, b, 'm', t);
    let u2 = Screen { style: second, ..u1.flush() };
    lemma_read_text(u2, t, none);
    let u3 = Screen { buf: u2.buf + t, ..u2 };
    assert(u3.buf =~= t);
    assert(u3.read(none) == u3);
    assert(u3.flush().spans =~= seq![SpanView { content: t, style: second }]);
    assert(u3.finish() =~= seq![u3.flush().spans]);
}

/// An escape character without a bracket behind it ends the span and is left out; a
/// sequence that is cut off at the end of the text is left out whole.
pub proof fn law_broken_sequences(s: Screen, params: Seq<char>, rest: Seq<char>)
    requires
        is_params(params),
        rest.len() == 0 || rest[0] != '[',
    ensures
        s.read(seq!['\x1b'] + rest) == s.flush().read(rest),
        s.read(seq!['\x1b', '['] + params) == s.flush(),
{
    let alone = seq!['\x1b'] + rest;
    assert(alone.drop_first() =~= rest);
    assert(rest.len() > 0 ==> alone[1] == rest[0]);
    let cut = seq!['\x1b', '['] + params;
    let none = Seq::<char>::empty();
    assert(cut.skip(2) =~= params + none);
    lemma_params_of(params, none);
}

/// What was read ends with the text behind the last line feed, in the style that there is;
/// where there is none, no line is added. A text begins without lines and without style.
pub proof fn law_last_line(s: Screen)
    ensures
        s.spans.len() == 0 && s.buf.len() == 0 ==> s.finish() == s.lines,
        s.buf.len() > 0 ==> s.finish() == s.lines.push(
            s.spans.push(SpanView { content: s.buf, style: s.style }),
        ),
        s.spans.len() > 0 && s.buf.len() == 0 ==> s.finish() == s.lines.push(s.spans),
        styled_lines(Seq::empty()).len() == 0,
{
    let none = Seq::<char>::empty();
    assert(Screen::blank().read(none) == Screen::blank());
}

/// A component of a colour counts as it is up to 255, and above as nothing.
pub proof fn law_component(n: u32)
    ensures
        n < 256 ==> component(n) == n,
        n >= 256 ==> component(n) == 0,
{
}

/// A number that is too large for a component of a colour counts as nothing, and the colour
/// is set all the same.
pub proof fn law_colors_of_any_numbers(style: Style, r: u32, g: u32, b: u32)
    ensures
        ({
            let byte = |n: u32|
                if n < 256 {
                    n as u8
                } else {
                    0u8
                };
            let rgb = Color::Rgb(byte(r), byte(g), byte(b));
            &&& after_codes(style, seq![38u32, 2u32, r, g, b]) == (Style { fg: Some(rgb), ..style })
            &&& after_codes(style, seq![48u32, 2u32, r, g, b]) == (Style { bg: Some(rgb), ..style })
            &&& after_codes(style, seq![38u32, 5u32, r]) == (Style {
                fg: Some(Color::Indexed(byte(r))),
                ..style
            })
            &&& after_codes(style, seq![48u32, 5u32, r]) == (Style {
                bg: Some(Color::Indexed(byte(r))),
                ..style
            })
        }),
{
    let rgb = seq![2u32, r, g, b];
    let indexed = seq![5u32, r];
    let none = Seq::<u32>::empty();
    assert(seq![38u32, 2u32, r, g, b].drop_first() =~= rgb);
    assert(seq![48u32, 2u32, r, g, b].drop_first() =~= rgb);
    assert(seq![38u32, 5u32, r].drop_first() =~= indexed);
    assert(seq![48u32, 5u32, r].drop_first() =~= indexed);
    assert(rgb.skip(4) =~= none);
    assert(indexed.skip(2) =~= none);
    let color = Color::Rgb(component(r), component(g), component(b));
    let index = Color::Indexed(component(r));
    assert(after_codes(style.with_fg(color), none) == style.with_fg(color));
    assert(after_codes(style.with_bg(color), none) == style.with_bg(color));
    assert(after_codes(style.with_fg(index), none) == style.with_fg(index));
    assert(after_codes(style.with_bg(index), none) == style.with_bg(index));
}

/// A code for a colour that no colour follows is left out, and the codes behind it act by
/// themselves.
pub proof fn law_code_without_color(style: Style, code: u32, rest: Seq<u32>)
    requires
        code == 38 || code == 48,
        rest.len() == 0 || (rest[0] != 2 && rest[0] != 5) || (rest[0] == 5 && rest.len() < 2) || (
        rest[0] == 2 && rest.len() < 4),
    ensures
        after_codes(style, seq![code] + rest) == after_codes(style, rest),
{
    assert((seq![code] + rest).drop_first() =~= rest);
}

/// A piece between semicolons that is no number is left out, and the others act as if it
/// were not there.
pub proof fn law_unreadable_codes(style: Style, a: Seq<char>, piece: Seq<char>, b: Seq<char>)
    requires
        !piece.contains(';'),
        text::number_of(piece) is None,
    ensures
        sgr_style(style, a + seq![';'] + piece + seq![';'] + b) == sgr_style(
            style,
            a + seq![';'] + b,
        ),
        sgr_style(style, a + seq![';'] + piece) == sgr_style(style, a),
        sgr_style(style, piece) == style,
{
    text::law_split_of_one(piece, ';');
    let tail = piece.push(';') + b;
    assert(a + seq![';'] + piece + seq![';'] + b =~= a.push(';') + tail);
    assert(a + seq![';'] + b =~= a.push(';') + b);
    assert(a + seq![';'] + piece =~= a.push(';') + piece);
    text::lemma_split_join(a, ';', tail);
    text::lemma_split_join(piece, ';', b);
    text::lemma_split_join(a, ';', b);
    text::lemma_split_join(a, ';', piece);
    let front = text::split_of(a, ';');
    let back = text::split_of(b, ';');
    let one = seq![piece];
    let none = Seq::<u32>::empty();
    assert(one.drop_last() =~= Seq::<Seq<char>>::empty());
    assert(numbers_of(Seq::<Seq<char>>::empty()) =~= none);
    assert(numbers_of(one) =~= none);
    lemma_numbers_join(front, one + back);
    lemma_numbers_join(one, back);
    lemma_numbers_join(front, back);
    lemma_numbers_join(front, one);
    assert(none + numbers_of(back) =~= numbers_of(back));
    assert(numbers_of(front) + none =~= numbers_of(front));
}

} // verus!
