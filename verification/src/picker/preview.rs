use vstd::prelude::*;
use crate::configs::TermColor;
use crate::text::{chars_of, string_of};

verus! {

/// The character that starts an escape sequence.
pub const ESCAPE: char = '\u{1b}';

/// How many columns a text takes on the terminal, as the Unicode standard defines the
/// width of its characters.
pub uninterp spec fn display_width(text: Seq<char>) -> nat;

/// `Span::width` of a `ratatui` span that holds the text: the number of terminal
/// columns that the text takes.
#[verifier::external_body]
fn span_width(text: &str) -> (width: usize)
    ensures
        width == display_width(text@),
{
    ratatui::text::Span::raw(text).width()
}

/// A piece of a line that is drawn in one style.
#[derive(Debug, Clone, PartialEq, Eq)]
pub struct StyledSpan {
    pub text: String,
    /// The parameters of the style sequences that stand between the span before and
    /// this one, in order; they change the style before the span is drawn.
    pub codes: Vec<String>,
}

/// A line of the preview.
#[derive(Debug, Clone, PartialEq, Eq)]
pub struct StyledLine {
    pub spans: Vec<StyledSpan>,
}

/// What a `StyledSpan` stands for.
pub ghost struct SpanView {
    pub text: Seq<char>,
    pub codes: Seq<Seq<char>>,
}

impl View for StyledSpan {
    type V = SpanView;

    open spec fn view(&self) -> SpanView {
        SpanView { text: self.text@, codes: crate::text::texts(self.codes@) }
    }
}

impl View for StyledLine {
    type V = Seq<SpanView>;

    open spec fn view(&self) -> Seq<SpanView> {
        self.spans@.map_values(|span: StyledSpan| span@)
    }
}

/// What the lines of a list stand for, in order.
pub open spec fn line_views(lines: Seq<StyledLine>) -> Seq<Seq<SpanView>> {
    lines.map_values(|line: StyledLine| line@)
}

/// The lines of `s`: the pieces between line feeds, each without the carriage return
/// that stands before its line feed. What follows the last line feed is a line only
/// where it is not empty.
pub open spec fn lines_spec(s: Seq<char>) -> Seq<Seq<char>>
    decreases s.len(),
{
    if s.len() == 0 {
        seq![]
    } else if s.last() == '\n' {
        // a line ends here; it is a new, empty one where the text before ends a line too
        let before = s.drop_last();
        if before.len() == 0 || before.last() == '\n' {
            lines_spec(before).push(seq![])
        } else {
            let lines = lines_spec(before);
            if lines.last().len() > 0 && lines.last().last() == '\r' {
                lines.drop_last().push(lines.last().drop_last())
            } else {
                lines
            }
        }
    } else {
        let before = s.drop_last();
        if before.len() == 0 || before.last() == '\n' {
            lines_spec(before).push(seq![s.last()])
        } else {
            let lines = lines_spec(before);
            lines.drop_last().push(lines.last().push(s.last()))
        }
    }
}

/// What is carried along while the preview is read.
pub ghost struct ReadState {
    /// The spans of the line that is being read.
    pub spans: Seq<SpanView>,
    /// The style parameters read since the last span.
    pub codes: Seq<Seq<char>>,
    /// The characters read since the last span or parameter.
    pub buffer: Seq<char>,
    /// The reader is inside a style sequence.
    pub escape: bool,
    /// The columns that the spans of the line take.
    pub width: nat,
    /// The line is full or at its end.
    pub closed: bool,
}

/// The state with what is in the buffer made a span of the line.
pub open spec fn flushed(state: ReadState) -> ReadState {
    ReadState {
        spans: state.spans.push(SpanView { text: state.buffer, codes: state.codes }),
        codes: seq![],
        buffer: seq![],
        width: state.width + display_width(state.buffer),
        ..state
    }
}

/// The state after the character at position `i` of `line` was read. Outside a style
/// sequence an escape character before `[` starts one, what was read before becoming a
/// span; any other character is text, and the text becomes a span, the line being closed,
/// once the line's columns and the characters read since come to `max`, or with the
/// line's last character. Inside a style sequence `m` ends the sequence and what was
/// read in it is its parameter, `[` is passed over, and any other character belongs to
/// the parameter.
pub open spec fn read_char(state: ReadState, line: Seq<char>, i: int, max: nat) -> ReadState {
    let c = line[i];
    if !state.escape {
        if c == ESCAPE && i + 1 < line.len() && line[i + 1] == '[' {
            let start = if state.buffer.len() > 0 {
                flushed(state)
            } else {
                state
            };
            ReadState { escape: true, buffer: seq![], ..start }
        } else {
            let grown = ReadState { buffer: state.buffer.push(c), ..state };
            if grown.width + grown.buffer.len() == max || i == line.len() - 1 {
                ReadState { closed: true, ..flushed(grown) }
            } else {
                grown
            }
        }
    } else if c == '[' {
        state
    } else if c == 'm' {
        ReadState { codes: state.codes.push(state.buffer), buffer: seq![], escape: false, ..state }
    } else {
        ReadState { buffer: state.buffer.push(c), ..state }
    }
}

/// The state after the characters of `line` from position `i` on were read, as far as
/// the line stays open.
pub open spec fn read_from(state: ReadState, line: Seq<char>, i: int, max: nat) -> ReadState
    decreases line.len() - i,
{
    if i < 0 || i >= line.len() || state.closed {
        state
    } else {
        read_from(read_char(state, line, i, max), line, i + 1, max)
    }
}

/// The state in which the reading of a line starts, after a line that was left in the
/// state `before`: the style parameters and characters that were read and not yet made
/// a span are carried over.
pub open spec fn next_line(before: ReadState) -> ReadState {
    ReadState { spans: seq![], escape: false, width: 0, closed: false, ..before }
}

/// The state after the first `count` lines were read.
pub open spec fn read_lines(lines: Seq<Seq<char>>, count: nat, max: nat) -> ReadState
    decreases count,
{
    if count == 0 {
        ReadState {
            spans: seq![],
            codes: seq![],
            buffer: seq![],
            escape: false,
            width: 0,
            closed: false,
        }
    } else {
        read_from(
            next_line(read_lines(lines, (count - 1) as nat, max)),
            lines[count - 1],
            0,
            max,
        )
    }
}

/// The preview of the text `s` in lines of at most `max` columns: for each line of `s`
/// the spans that reading it gives.
pub open spec fn text_spec(s: Seq<char>, max: nat) -> Seq<Seq<SpanView>> {
    Seq::new(
        lines_spec(s).len(),
        |k: int| read_lines(lines_spec(s), (k + 1) as nat, max).spans,
    )
}

/// The lines of a text.
pub fn split_lines(s: &str) -> (lines: Vec<Vec<char>>)
    ensures
        crate::order::rows(lines@) == lines_spec(s@),
{
    let chars = chars_of(s);
    let mut lines: Vec<Vec<char>> = Vec::new();
    let mut current: Vec<char> = Vec::new();
    let mut open = false;
    let mut i: usize = 0;
    assert(chars@.take(0) =~= Seq::<char>::empty());
    assert(crate::order::rows(lines@) =~= lines_spec(chars@.take(0)));
    while i < chars.len()
        invariant
            i <= chars.len(),
            open == (i > 0 && chars@[i - 1] != '\n'),
            open ==> lines_spec(chars@.take(i as int)) == crate::order::rows(lines@).push(current@),
            !open ==> lines_spec(chars@.take(i as int)) == crate::order::rows(lines@)
                && current@.len() == 0,
        decreases chars.len() - i,
    {
        let c = chars[i];
        let ghost before = chars@.take(i as int);
        let ghost after = chars@.take(i + 1);
        let ghost rows_before = crate::order::rows(lines@);
        proof {
            assert(after.drop_last() =~= before);
            assert(after.last() == c);
            if i > 0 {
                assert(before.last() == chars@[i - 1]);
            }
        }
        if c == '\n' {
            if open {
                let ghost whole = current@;
                if current.len() > 0 && current[current.len() - 1] == '\r' {
                    current.pop();
                }
                let ghost kept = current@;
                lines.push(current);
                current = Vec::new();
                proof {
                    let listed = lines_spec(before);
                    assert(listed.last() == whole);
                    assert(listed.drop_last() =~= rows_before);
                    assert(crate::order::rows(lines@) =~= rows_before.push(kept));
                }
            } else {
                lines.push(Vec::new());
                proof {
                    assert(crate::order::rows(lines@) =~= rows_before.push(Seq::<char>::empty()));
                }
            }
            open = false;
        } else {
            let ghost open_before = current@;
            current.push(c);
            proof {
                if open {
                    let listed = lines_spec(before);
                    assert(listed.last() == open_before);
                    assert(listed.drop_last() =~= rows_before);
                } else {
                    assert(current@ =~= seq![c]);
                }
            }
            open = true;
        }
        i += 1;
    }
    proof {
        assert(chars@.take(chars.len() as int) =~= chars@);
    }
    if open {
        let ghost rows_before = crate::order::rows(lines@);
        let ghost last = current@;
        lines.push(current);
        assert(crate::order::rows(lines@) =~= rows_before.push(last));
    }
    lines
}

/// Reads a preview: the text `s`, as a command printed it for the terminal, becomes
/// lines of spans, `max` being the number of columns. See `text_spec`.
pub fn str_to_text(s: &str, max: usize) -> (text: Vec<StyledLine>)
    ensures
        line_views(text@) == text_spec(s@, max as nat),
{
    let lines = split_lines(s);
    let ghost all = crate::order::rows(lines@);
    let mut text: Vec<StyledLine> = Vec::new();
    let mut codes: Vec<String> = Vec::new();
    let mut buffer: Vec<char> = Vec::new();
    let mut k: usize = 0;
    let ghost mut state = read_lines(all, 0, max as nat);
    assert(crate::text::texts(codes@) =~= Seq::<Seq<char>>::empty());
    while k < lines.len()
        invariant
            k <= lines.len(),
            all == crate::order::rows(lines@),
            all == lines_spec(s@),
            state == read_lines(all, k as nat, max as nat),
            crate::text::texts(codes@) == state.codes,
            buffer@ == state.buffer,
            text@.len() == k,
            forall|j: int|
                0 <= j < k ==> (#[trigger] text@[j])@ == read_lines(
                    all,
                    (j + 1) as nat,
                    max as nat,
                ).spans,
        decreases lines.len() - k,
    {
        let line = &lines[k];
        assert(all[k as int] == line@);
        let mut spans: Vec<StyledSpan> = Vec::new();
        let mut escape = false;
        let mut width: usize = 0;
        let mut fits = true;
        let mut closed = false;
        let ghost start = next_line(state);
        let ghost mut now = start;
        let mut i: usize = 0;
        assert(spans@.map_values(|span: StyledSpan| span@) =~= now.spans);
        while i < line.len() && !closed
            invariant
                i <= line.len(),
                read_from(start, line@, 0, max as nat) == read_from(now, line@, i as int, max as nat),
                spans@.map_values(|span: StyledSpan| span@) == now.spans,
                crate::text::texts(codes@) == now.codes,
                buffer@ == now.buffer,
                escape == now.escape,
                closed == now.closed,
                fits ==> width == now.width,
                !fits ==> now.width > usize::MAX,
            decreases line.len() - i,
        {
            let c = line[i];
            let ghost before = now;
            proof {
                now = read_char(before, line@, i as int, max as nat);
            }
            if !escape {
                if c == ESCAPE && i + 1 < line.len() && line[i + 1] == '[' {
                    if buffer.len() > 0 {
                        let part = string_of(&buffer);
                        match width.checked_add(span_width(part.as_str())) {
                            Some(sum) if fits => {
                                width = sum;
                            },
                            _ => {
                                fits = false;
                            },
                        }
                        let ghost views = spans@.map_values(|span: StyledSpan| span@);
                        let span = StyledSpan { text: part, codes };
                        spans.push(span);
                        codes = Vec::new();
                        proof {
                            assert(spans@.map_values(|span: StyledSpan| span@) =~= views.push(
                                span@,
                            ));
                            assert(crate::text::texts(codes@) =~= Seq::<Seq<char>>::empty());
                        }
                    }
                    buffer = Vec::new();
                    escape = true;
                } else {
                    buffer.push(c);
                    let at_limit = match width.checked_add(buffer.len()) {
                        Some(sum) => fits && sum == max,
                        None => false,
                    };
                    if at_limit || i == line.len() - 1 {
                        let part = string_of(&buffer);
                        match width.checked_add(span_width(part.as_str())) {
                            Some(sum) if fits => {
                                width = sum;
                            },
                            _ => {
                                fits = false;
                            },
                        }
                        let ghost views = spans@.map_values(|span: StyledSpan| span@);
                        let span = StyledSpan { text: part, codes };
                        spans.push(span);
                        codes = Vec::new();
                        buffer = Vec::new();
                        closed = true;
                        proof {
                            assert(spans@.map_values(|span: StyledSpan| span@) =~= views.push(
                                span@,
                            ));
                            assert(crate::text::texts(codes@) =~= Seq::<Seq<char>>::empty());
                        }
                    }
                }
            } else if c == '[' {
            } else if c == 'm' {
                let ghost listed = crate::text::texts(codes@);
                let code = string_of(&buffer);
                codes.push(code);
                buffer = Vec::new();
                escape = false;
                proof {
                    assert(crate::text::texts(codes@) =~= listed.push(code@));
                }
            } else {
                buffer.push(c);
            }
            i += 1;
        }
        proof {
            state = read_lines(all, (k + 1) as nat, max as nat);
            assert(state == now);
        }
        let line_out = StyledLine { spans };
        text.push(line_out);
        k += 1;
    }
    proof {
        assert(line_views(text@) =~= text_spec(s@, max as nat));
    }
    text
}

/// What a colour of a style sequence is set for.
#[derive(Debug, Clone, Copy, PartialEq, Eq, Structural)]
pub enum ColorLayer {
    Foreground,
    Background,
    Underline,
}

/// A colour as style sequences name it: the terminal's default, one of the sixteen
/// standard colours, one of the 256 indexed colours, or red, green and blue.
#[derive(Debug, Clone, Copy, PartialEq, Eq, Structural)]
pub enum AnsiColor {
    Reset,
    Black,
    DarkGrey,
    Red,
    DarkRed,
    Green,
    DarkGreen,
    Yellow,
    DarkYellow,
    Blue,
    DarkBlue,
    Magenta,
    DarkMagenta,
    Cyan,
    DarkCyan,
    White,
    Grey,
    Rgb { r: u8, g: u8, b: u8 },
    AnsiValue(u8),
}

/// What a style sequence does to the style in which text is drawn.
#[derive(Debug, Clone, Copy, PartialEq, Eq, Structural)]
pub enum StyleChange {
    Reset,
    Bold,
    Italic,
    Underlined,
    RapidBlink,
    SlowBlink,
    Reversed,
    CrossedOut,
    NotBold,
    NotItalic,
    NotUnderlined,
    NotBlink,
    NotReversed,
    NotCrossedOut,
    Foreground(TermColor),
    Background(TermColor),
    UnderlineColor(TermColor),
    /// The sequence is not understood; the style stays as it is.
    Keep,
}

/// The picker's colour for a colour of a style sequence. The dark and the bright
/// variant of a standard colour give the same colour.
pub open spec fn to_color_spec(color: AnsiColor) -> TermColor {
    match color {
        AnsiColor::Reset => TermColor::Reset,
        AnsiColor::Black => TermColor::Black,
        AnsiColor::DarkGrey => TermColor::DarkGray,
        AnsiColor::Red => TermColor::Red,
        AnsiColor::DarkRed => TermColor::Red,
        AnsiColor::Green => TermColor::Green,
        AnsiColor::DarkGreen => TermColor::Green,
        AnsiColor::Yellow => TermColor::Yellow,
        AnsiColor::DarkYellow => TermColor::Yellow,
        AnsiColor::Blue => TermColor::Blue,
        AnsiColor::DarkBlue => TermColor::Blue,
        AnsiColor::Magenta => TermColor::Magenta,
        AnsiColor::DarkMagenta => TermColor::Magenta,
        AnsiColor::Cyan => TermColor::Cyan,
        AnsiColor::DarkCyan => TermColor::Cyan,
        AnsiColor::White => TermColor::White,
        AnsiColor::Grey => TermColor::Gray,
        AnsiColor::Rgb { r, g, b } => TermColor::Rgb(r, g, b),
        AnsiColor::AnsiValue(value) => TermColor::Indexed(value),
    }
}

pub fn to_color(color: AnsiColor) -> (mapped: TermColor)
    ensures
        mapped == to_color_spec(color),
{
    match color {
        AnsiColor::Reset => TermColor::Reset,
        AnsiColor::Black => TermColor::Black,
        AnsiColor::DarkGrey => TermColor::DarkGray,
        AnsiColor::Red => TermColor::Red,
        AnsiColor::DarkRed => TermColor::Red,
        AnsiColor::Green => TermColor::Green,
        AnsiColor::DarkGreen => TermColor::Green,
        AnsiColor::Yellow => TermColor::Yellow,
        AnsiColor::DarkYellow => TermColor::Yellow,
        AnsiColor::Blue => TermColor::Blue,
        AnsiColor::DarkBlue => TermColor::Blue,
        AnsiColor::Magenta => TermColor::Magenta,
        AnsiColor::DarkMagenta => TermColor::Magenta,
        AnsiColor::Cyan => TermColor::Cyan,
        AnsiColor::DarkCyan => TermColor::Cyan,
        AnsiColor::White => TermColor::White,
        AnsiColor::Grey => TermColor::Gray,
        AnsiColor::Rgb { r, g, b } => TermColor::Rgb(r, g, b),
        AnsiColor::AnsiValue(value) => TermColor::Indexed(value),
    }
}

/// The colour with the given number among the eight colours of the basic palette.
pub open spec fn basic_color(number: int) -> TermColor {
    if number == 0 {
        TermColor::Black
    } else if number == 1 {
        TermColor::Red
    } else if number == 2 {
        TermColor::Green
    } else if number == 3 {
        TermColor::Yellow
    } else if number == 4 {
        TermColor::Blue
    } else if number == 5 {
        TermColor::Magenta
    } else if number == 6 {
        TermColor::Cyan
    } else {
        TermColor::Gray
    }
}

/// The colour with the given number among the eight bright colours.
pub open spec fn bright_color(number: int) -> TermColor {
    if number == 0 {
        TermColor::DarkGray
    } else if number == 1 {
        TermColor::LightRed
    } else if number == 2 {
        TermColor::LightGreen
    } else if number == 3 {
        TermColor::LightYellow
    } else if number == 4 {
        TermColor::LightBlue
    } else if number == 5 {
        TermColor::LightMagenta
    } else if number == 6 {
        TermColor::LightCyan
    } else {
        TermColor::White
    }
}

/// The digit that the character stands for.
pub open spec fn digit_value(c: char) -> Option<int> {
    if '0' <= c && c <= '9' {
        Some(c as int - '0' as int)
    } else {
        None
    }
}

/// What the style parameters of the fixed table do. An empty parameter and `0` reset
/// the style; `1` to `9` and `22` to `29` switch attributes on and off; `30` to `37`
/// and `40` to `47` set the foreground and the background to a basic colour; `90` to
/// `97`, and `100` to `107` as well, set the foreground to a bright colour. A
/// parameter that the table does not hold gives nothing.
pub open spec fn sgr_table(code: Seq<char>) -> Option<StyleChange> {
    if code.len() == 0 {
        Some(StyleChange::Reset)
    } else if code.len() == 1 {
        match digit_value(code[0]) {
            Some(digit) => if digit == 0 {
                Some(StyleChange::Reset)
            } else if digit == 1 {
                Some(StyleChange::Bold)
            } else if digit == 3 {
                Some(StyleChange::Italic)
            } else if digit == 4 {
                Some(StyleChange::Underlined)
            } else if digit == 5 {
                Some(StyleChange::RapidBlink)
            } else if digit == 6 {
                Some(StyleChange::SlowBlink)
            } else if digit == 7 {
                Some(StyleChange::Reversed)
            } else if digit == 9 {
                Some(StyleChange::CrossedOut)
            } else {
                None
            },
            None => None,
        }
    } else if code.len() == 2 {
        match (digit_value(code[0]), digit_value(code[1])) {
            (Some(tens), Some(ones)) => if tens == 2 {
                if ones == 2 {
                    Some(StyleChange::NotBold)
                } else if ones == 3 {
                    Some(StyleChange::NotItalic)
                } else if ones == 4 {
                    Some(StyleChange::NotUnderlined)
                } else if ones == 5 {
                    Some(StyleChange::NotBlink)
                } else if ones == 7 {
                    Some(StyleChange::NotReversed)
                } else if ones == 9 {
                    Some(StyleChange::NotCrossedOut)
                } else {
                    None
                }
            } else if tens == 3 && ones <= 7 {
                Some(StyleChange::Foreground(basic_color(ones)))
            } else if tens == 4 && ones <= 7 {
                Some(StyleChange::Background(basic_color(ones)))
            } else if tens == 9 && ones <= 7 {
                Some(StyleChange::Foreground(bright_color(ones)))
            } else {
                None
            },
            _ => None,
        }
    } else if code.len() == 3 {
        match (digit_value(code[0]), digit_value(code[1]), digit_value(code[2])) {
            (Some(hundreds), Some(tens), Some(ones)) => if hundreds == 1 && tens == 0 && ones
                <= 7 {
                Some(StyleChange::Foreground(bright_color(ones)))
            } else {
                None
            },
            _ => None,
        }
    } else {
        None
    }
}

fn digit_of(c: char) -> (value: Option<u8>)
    ensures
        match value {
            Some(digit) => digit_value(c) == Some(digit as int) && digit <= 9,
            None => digit_value(c) is None,
        },
{
    if '0' <= c && c <= '9' {
        Some(((c as u32) - ('0' as u32)) as u8)
    } else {
        None
    }
}

fn basic(number: u8) -> (color: TermColor)
    ensures
        color == basic_color(number as int),
{
    if number == 0 {
        TermColor::Black
    } else if number == 1 {
        TermColor::Red
    } else if number == 2 {
        TermColor::Green
    } else if number == 3 {
        TermColor::Yellow
    } else if number == 4 {
        TermColor::Blue
    } else if number == 5 {
        TermColor::Magenta
    } else if number == 6 {
        TermColor::Cyan
    } else {
        TermColor::Gray
    }
}

fn bright(number: u8) -> (color: TermColor)
    ensures
        color == bright_color(number as int),
{
    if number == 0 {
        TermColor::DarkGray
    } else if number == 1 {
        TermColor::LightRed
    } else if number == 2 {
        TermColor::LightGreen
    } else if number == 3 {
        TermColor::LightYellow
    } else if number == 4 {
        TermColor::LightBlue
    } else if number == 5 {
        TermColor::LightMagenta
    } else if number == 6 {
        TermColor::LightCyan
    } else {
        TermColor::White
    }
}

/// What a style parameter of the fixed table does; nothing for any other parameter.
pub fn table_change(code: &str) -> (change: Option<StyleChange>)
    ensures
        change == sgr_table(code@),
{
    let chars = chars_of(code);
    if chars.len() == 0 {
        return Some(StyleChange::Reset);
    }
    if chars.len() == 1 {
        return match digit_of(chars[0]) {
            Some(0) => Some(StyleChange::Reset),
            Some(1) => Some(StyleChange::Bold),
            Some(3) => Some(StyleChange::Italic),
            Some(4) => Some(StyleChange::Underlined),
            Some(5) => Some(StyleChange::RapidBlink),
            Some(6) => Some(StyleChange::SlowBlink),
            Some(7) => Some(StyleChange::Reversed),
            Some(9) => Some(StyleChange::CrossedOut),
            _ => None,
        };
    }
    if chars.len() == 2 {
        return match (digit_of(chars[0]), digit_of(chars[1])) {
            (Some(2), Some(2)) => Some(StyleChange::NotBold),
            (Some(2), Some(3)) => Some(StyleChange::NotItalic),
            (Some(2), Some(4)) => Some(StyleChange::NotUnderlined),
            (Some(2), Some(5)) => Some(StyleChange::NotBlink),
            (Some(2), Some(7)) => Some(StyleChange::NotReversed),
            (Some(2), Some(9)) => Some(StyleChange::NotCrossedOut),
            (Some(3), Some(ones)) => if ones <= 7 {
                Some(StyleChange::Foreground(basic(ones)))
            } else {
                None
            },
            (Some(4), Some(ones)) => if ones <= 7 {
                Some(StyleChange::Background(basic(ones)))
            } else {
                None
            },
            (Some(9), Some(ones)) => if ones <= 7 {
                Some(StyleChange::Foreground(bright(ones)))
            } else {
                None
            },
            _ => None,
        };
    }
    if chars.len() == 3 {
        return match (digit_of(chars[0]), digit_of(chars[1]), digit_of(chars[2])) {
            (Some(1), Some(0), Some(ones)) => if ones <= 7 {
                Some(StyleChange::Foreground(bright(ones)))
            } else {
                None
            },
            _ => None,
        };
    }
    None
}

/// What a colour parameter does that was read as setting `parsed.1` for `parsed.0`;
/// a parameter that could not be read changes nothing.
pub open spec fn extended_spec(parsed: Option<(ColorLayer, AnsiColor)>) -> StyleChange {
    match parsed {
        Some((ColorLayer::Foreground, color)) => StyleChange::Foreground(to_color_spec(color)),
        Some((ColorLayer::Background, color)) => StyleChange::Background(to_color_spec(color)),
        Some((ColorLayer::Underline, color)) => StyleChange::UnderlineColor(to_color_spec(color)),
        None => StyleChange::Keep,
    }
}

pub fn extended_change(parsed: Option<(ColorLayer, AnsiColor)>) -> (change: StyleChange)
    ensures
        change == extended_spec(parsed),
{
    match parsed {
        Some((ColorLayer::Foreground, color)) => StyleChange::Foreground(to_color(color)),
        Some((ColorLayer::Background, color)) => StyleChange::Background(to_color(color)),
        Some((ColorLayer::Underline, color)) => StyleChange::UnderlineColor(to_color(color)),
        None => StyleChange::Keep,
    }
}

/// `crossterm::style::Colored`, a colour together with what it is set for.
#[verifier::external_type_specification]
#[verifier::external_body]
pub struct ExColored(crossterm::style::Colored);

/// `crossterm::style::Color`, a colour as `crossterm` names it.
#[verifier::external_type_specification]
#[verifier::external_body]
pub struct ExCrosstermColor(crossterm::style::Color);

/// What `Colored::parse_ansi` makes of a style parameter: what the colour is set for,
/// and the colour; nothing for a parameter that it does not take for a colour.
pub uninterp spec fn ansi_colored(code: Seq<char>) -> Option<(ColorLayer, AnsiColor)>;

/// What a `Colored` holds: the variant, and the colour in it.
pub uninterp spec fn colored_value(colored: crossterm::style::Colored) -> (ColorLayer, AnsiColor);

/// What a `Color` holds: the variant of the same name, with its fields.
pub uninterp spec fn color_value(color: crossterm::style::Color) -> AnsiColor;

/// The colour is the terminal's default, an indexed colour, or red, green and blue.
pub open spec fn is_special(color: AnsiColor) -> bool {
    color is Reset || color is Rgb || color is AnsiValue
}

/// The colour is one of the eight dark standard colours.
pub open spec fn is_dark(color: AnsiColor) -> bool {
    color is Black || color is DarkRed || color is DarkGreen || color is DarkYellow
        || color is DarkBlue || color is DarkMagenta || color is DarkCyan || color is Grey
}

/// The colour is one of the eight bright standard colours.
pub open spec fn is_bright(color: AnsiColor) -> bool {
    color is DarkGrey || color is Red || color is Green || color is Yellow || color is Blue
        || color is Magenta || color is Cyan || color is White
}

/// `Colored::parse_ansi`: reads the parameter of a colour sequence. The outcome depends
/// on the parameter alone; it goes by the name `ansi_colored`.
#[verifier::external_body]
fn parse_colored(code: &str) -> (parsed: Option<crossterm::style::Colored>)
    ensures
        match parsed {
            Some(colored) => ansi_colored(code@) == Some(colored_value(colored)),
            None => ansi_colored(code@) is None,
        },
{
    crossterm::style::Colored::parse_ansi(code)
}

/// Which of the three variants of `Colored` the value is.
#[verifier::external_body]
fn colored_layer(colored: &crossterm::style::Colored) -> (layer: ColorLayer)
    ensures
        layer == colored_value(*colored).0,
{
    match colored {
        crossterm::style::Colored::ForegroundColor(_) => ColorLayer::Foreground,
        crossterm::style::Colored::BackgroundColor(_) => ColorLayer::Background,
        crossterm::style::Colored::UnderlineColor(_) => ColorLayer::Underline,
    }
}

/// The colour that the `Colored` value holds.
#[verifier::external_body]
fn colored_color(colored: &crossterm::style::Colored) -> (color: crossterm::style::Color)
    ensures
        color_value(color) == colored_value(*colored).1,
{
    match colored {
        crossterm::style::Colored::ForegroundColor(color) => *color,
        crossterm::style::Colored::BackgroundColor(color) => *color,
        crossterm::style::Colored::UnderlineColor(color) => *color,
    }
}

/// The value of a `Color` that is no standard colour: the default, an indexed colour,
/// or red, green and blue. A standard colour gives nothing.
#[verifier::external_body]
fn special_color(color: &crossterm::style::Color) -> (found: Option<AnsiColor>)
    ensures
        found == if is_special(color_value(*color)) {
            Some(color_value(*color))
        } else {
            None
        },
{
    match color {
        crossterm::style::Color::Reset => Some(AnsiColor::Reset),
        crossterm::style::Color::Rgb { r, g, b } => Some(AnsiColor::Rgb { r: *r, g: *g, b: *b }),
        crossterm::style::Color::AnsiValue(value) => Some(AnsiColor::AnsiValue(*value)),
        _ => None,
    }
}

/// The variant of a `Color` that is one of the eight dark standard colours; any other
/// colour gives nothing.
#[verifier::external_body]
fn dark_standard_color(color: &crossterm::style::Color) -> (found: Option<AnsiColor>)
    ensures
        found == if is_dark(color_value(*color)) {
            Some(color_value(*color))
        } else {
            None
        },
{
    match color {
        crossterm::style::Color::Black => Some(AnsiColor::Black),
        crossterm::style::Color::DarkRed => Some(AnsiColor::DarkRed),
        crossterm::style::Color::DarkGreen => Some(AnsiColor::DarkGreen),
        crossterm::style::Color::DarkYellow => Some(AnsiColor::DarkYellow),
        crossterm::style::Color::DarkBlue => Some(AnsiColor::DarkBlue),
        crossterm::style::Color::DarkMagenta => Some(AnsiColor::DarkMagenta),
        crossterm::style::Color::DarkCyan => Some(AnsiColor::DarkCyan),
        crossterm::style::Color::Grey => Some(AnsiColor::Grey),
        _ => None,
    }
}

/// The variant of a `Color` that is one of the eight bright standard colours; any other
/// colour gives nothing.
#[verifier::external_body]
fn bright_standard_color(color: &crossterm::style::Color) -> (found: Option<AnsiColor>)
    ensures
        found == if is_bright(color_value(*color)) {
            Some(color_value(*color))
        } else {
            None
        },
{
    match color {
        crossterm::style::Color::DarkGrey => Some(AnsiColor::DarkGrey),
        crossterm::style::Color::Red => Some(AnsiColor::Red),
        crossterm::style::Color::Green => Some(AnsiColor::Green),
        crossterm::style::Color::Yellow => Some(AnsiColor::Yellow),
        crossterm::style::Color::Blue => Some(AnsiColor::Blue),
        crossterm::style::Color::Magenta => Some(AnsiColor::Magenta),
        crossterm::style::Color::Cyan => Some(AnsiColor::Cyan),
        crossterm::style::Color::White => Some(AnsiColor::White),
        _ => None,
    }
}

/// Reads a style parameter that sets a colour out of the 256 indexed colours or by red,
/// green and blue, or that resets one: the colour and what it is set for. A parameter
/// that cannot be read so gives nothing.
pub fn read_colored(code: &str) -> (parsed: Option<(ColorLayer, AnsiColor)>)
    ensures
        parsed == ansi_colored(code@),
{
    match parse_colored(code) {
        Some(colored) => {
            let layer = colored_layer(&colored);
            let color = colored_color(&colored);
            let found = match special_color(&color) {
                Some(found) => Some(found),
                None => match dark_standard_color(&color) {
                    Some(found) => Some(found),
                    None => bright_standard_color(&color),
                },
            };
            assert(is_special(color_value(color)) || is_dark(color_value(color)) || is_bright(
                color_value(color),
            ));
            match found {
                Some(found) => Some((layer, found)),
                None => None,
            }
        },
        None => None,
    }
}

/// What a style parameter does: what the fixed table says where it holds the parameter;
/// for any other parameter what it sets as a colour parameter, or nothing.
pub open spec fn sgr_spec(code: Seq<char>) -> StyleChange {
    match sgr_table(code) {
        Some(listed) => listed,
        None => extended_spec(ansi_colored(code)),
    }
}

/// What a style parameter does.
pub fn sgr_change(code: &str) -> (change: StyleChange)
    ensures
        change == sgr_spec(code@),
{
    match table_change(code) {
        Some(listed) => listed,
        None => extended_change(read_colored(code)),
    }
}

/// What the style parameters of a span do, in order.
pub fn style_changes(span: &StyledSpan) -> (changes: Vec<StyleChange>)
    ensures
        changes@ == span.codes@.map_values(|code: String| sgr_spec(code@)),
{
    let ghost wanted = span.codes@.map_values(|code: String| sgr_spec(code@));
    let mut changes: Vec<StyleChange> = Vec::new();
    let mut i: usize = 0;
    while i < span.codes.len()
        invariant
            i <= span.codes.len(),
            wanted == span.codes@.map_values(|code: String| sgr_spec(code@)),
            changes@ =~= wanted.take(i as int),
        decreases span.codes.len() - i,
    {
        changes.push(sgr_change(span.codes[i].as_str()));
        i += 1;
    }
    assert(wanted.take(wanted.len() as int) =~= wanted);
    changes
}

} // verus!
