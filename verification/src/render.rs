//! The progress renderer: what is painted on the one terminal row that a
//! worker owns. Every write names its row, its column and its styled text; the
//! caller routes it to the terminal.

use vstd::prelude::*;
use crate::text::{decimal, decimal_string};

verus! {

/// The interval between two frames of the spinner, in milliseconds.
pub const SPINNER_TICK_MILLIS: u64 = 100;

/// The number of glyphs in the spinner's cycle.
pub const SPINNER_FRAMES: usize = 4;

/// The column of the spinner and of the completion marker.
pub const MARKER_COLUMN: u16 = 0;

/// The column at which the progress text starts.
pub const PROGRESS_COLUMN: u16 = 2;

/// How a piece of text is shown.
#[derive(Debug, Clone, Copy, PartialEq, Eq, Structural)]
pub enum Style {
    Plain,
    Green,
    GreenBold,
}

/// A piece of text in one style.
#[derive(Debug, Clone)]
pub struct Span {
    pub style: Style,
    pub text: String,
}

/// A span as a plain value.
pub ghost struct SpanView {
    pub style: Style,
    pub text: Seq<char>,
}

impl View for Span {
    type V = SpanView;

    open spec fn view(&self) -> SpanView {
        SpanView { style: self.style, text: self.text@ }
    }
}

/// One write to the terminal: the spans are painted one after the other,
/// starting at `column` of `row`.
#[derive(Debug, Clone)]
pub struct RenderWrite {
    pub row: u16,
    pub column: u16,
    pub spans: Vec<Span>,
}

/// A write as a plain value.
pub ghost struct RenderWriteView {
    pub row: u16,
    pub column: u16,
    pub spans: Seq<SpanView>,
}

impl View for RenderWrite {
    type V = RenderWriteView;

    open spec fn view(&self) -> RenderWriteView {
        RenderWriteView {
            row: self.row,
            column: self.column,
            spans: Seq::new(self.spans@.len(), |i: int| self.spans@[i]@),
        }
    }
}

/// The glyph of the spinner at `tick`: the cycle has four glyphs.
pub open spec fn spinner_glyph(tick: nat) -> Seq<char> {
    if tick % 4 == 0 {
        "\u{2596}"@
    } else if tick % 4 == 1 {
        "\u{2598}"@
    } else if tick % 4 == 2 {
        "\u{259d}"@
    } else {
        "\u{2597}"@
    }
}

/// The frame of the spinner at `tick`: the glyph in green in the leftmost
/// cell of `row`, and a blank after it.
pub open spec fn spinner_frame(row: u16, tick: nat) -> RenderWriteView {
    RenderWriteView {
        row,
        column: MARKER_COLUMN,
        spans: seq![
            SpanView { style: Style::Green, text: spinner_glyph(tick) },
            SpanView { style: Style::Plain, text: " "@ },
        ],
    }
}

/// The progress text of a run: the preset's name, the count of finished
/// trials over the count asked for, and the running average in milliseconds.
pub open spec fn progress_line(
    row: u16,
    name: Seq<char>,
    current: nat,
    total: nat,
    average: nat,
) -> RenderWriteView {
    RenderWriteView {
        row,
        column: PROGRESS_COLUMN,
        spans: seq![
            SpanView { style: Style::Plain, text: " "@ },
            SpanView { style: Style::GreenBold, text: name },
            SpanView { style: Style::Plain, text: " ("@ },
            SpanView { style: Style::Green, text: " "@ },
            SpanView { style: Style::Plain, text: decimal(current) + "/"@ + decimal(total) },
            SpanView { style: Style::Green, text: " "@ },
            SpanView { style: Style::Plain, text: ") avg="@ + decimal(average) + "ms"@ },
        ],
    }
}

/// The completion marker of a run: a check mark in the leftmost cell of
/// `row`, and the end of the line.
pub open spec fn completion_mark(row: u16) -> RenderWriteView {
    RenderWriteView {
        row,
        column: MARKER_COLUMN,
        spans: seq![SpanView { style: Style::Plain, text: "\u{2714}\n"@ }],
    }
}

/// The control sequence that moves the cursor to `column` of `row`.
pub open spec fn cursor_sequence(row: u16, column: u16) -> Seq<char> {
    "\x1b["@ + decimal(row as nat) + ";"@ + decimal(column as nat) + "H"@
}

/// The text of all spans of a write, one after the other.
pub open spec fn joined(spans: Seq<SpanView>) -> Seq<char>
    decreases spans.len(),
{
    if spans.len() == 0 {
        Seq::<char>::empty()
    } else {
        joined(spans.drop_last()) + spans.last().text
    }
}

/// The control sequence that clears the screen before the rows are painted.
pub fn clear_screen() -> (r: &'static str)
    ensures
        r@ == "\x1b[2J"@,
{
    "\x1b[2J"
}

/// The control sequence that moves the cursor to `column` of `row`.
pub fn cursor_to(row: u16, column: u16) -> (r: String)
    ensures
        r@ == cursor_sequence(row, column),
{
    let mut r = "\x1b[".to_owned();
    r.append(decimal_string(row as u128).as_str());
    r.append(";");
    r.append(decimal_string(column as u128).as_str());
    r.append("H");
    r
}

fn span(style: Style, text: &str) -> (r: Span)
    ensures
        r@ == (SpanView { style, text: text@ }),
{
    Span { style, text: text.to_owned() }
}

impl RenderWrite {
    /// The frame of the spinner at `tick`.
    pub fn spinner(row: u16, tick: usize) -> (r: RenderWrite)
        ensures
            r@ == spinner_frame(row, tick as nat),
    {
        let glyph = if tick % SPINNER_FRAMES == 0 {
            "\u{2596}"
        } else if tick % SPINNER_FRAMES == 1 {
            "\u{2598}"
        } else if tick % SPINNER_FRAMES == 2 {
            "\u{259d}"
        } else {
            "\u{2597}"
        };
        let mut spans: Vec<Span> = Vec::new();
        spans.push(span(Style::Green, glyph));
        spans.push(span(Style::Plain, " "));
        let r = RenderWrite { row, column: MARKER_COLUMN, spans };
        assert(r@.spans =~= spinner_frame(row, tick as nat).spans);
        r
    }

    /// The progress text after `current` of `total` trials.
    pub fn progress(row: u16, name: &str, current: u16, total: u16, average: u128) -> (r:
        RenderWrite)
        ensures
            r@ == progress_line(row, name@, current as nat, total as nat, average as nat),
    {
        let mut count = decimal_string(current as u128);
        count.append("/");
        count.append(decimal_string(total as u128).as_str());
        let mut tail = ") avg=".to_owned();
        tail.append(decimal_string(average).as_str());
        tail.append("ms");
        let mut spans: Vec<Span> = Vec::new();
        spans.push(span(Style::Plain, " "));
        spans.push(span(Style::GreenBold, name));
        spans.push(span(Style::Plain, " ("));
        spans.push(span(Style::Green, " "));
        spans.push(Span { style: Style::Plain, text: count });
        spans.push(span(Style::Green, " "));
        spans.push(Span { style: Style::Plain, text: tail });
        let r = RenderWrite { row, column: PROGRESS_COLUMN, spans };
        assert(r@.spans =~= progress_line(
            row,
            name@,
            current as nat,
            total as nat,
            average as nat,
        ).spans);
        r
    }

    /// The completion marker.
    pub fn completion(row: u16) -> (r: RenderWrite)
        ensures
            r@ == completion_mark(row),
    {
        let mut spans: Vec<Span> = Vec::new();
        spans.push(span(Style::Plain, "\u{2714}\n"));
        let r = RenderWrite { row, column: MARKER_COLUMN, spans };
        assert(r@.spans =~= completion_mark(row).spans);
        r
    }

    /// The text of the write without its styles.
    pub fn plain_text(&self) -> (r: String)
        ensures
            r@ == joined(self@.spans),
    {
        let mut r = String::new();
        let mut i: usize = 0;
        while i < self.spans.len()
            invariant
                i <= self.spans.len(),
                r@ == joined(self@.spans.take(i as int)),
            decreases self.spans.len() - i,
        {
            proof {
                assert(self@.spans.take(i + 1).drop_last() == self@.spans.take(i as int));
            }
            r.append(self.spans[i].text.as_str());
            i += 1;
        }
        proof {
            assert(self@.spans.take(self@.spans.len() as int) == self@.spans);
        }
        r
    }
}

/// The spinner of one row: which glyph of the cycle comes next.
#[derive(Debug)]
pub struct Spinner {
    row: u16,
    frame: usize,
}

impl Spinner {
    #[verifier::type_invariant]
    spec fn inv(self) -> bool {
        self.frame < SPINNER_FRAMES
    }

    /// The row of the spinner.
    pub closed spec fn spec_row(self) -> u16 {
        self.row
    }

    /// The place in the cycle of the glyph that comes next.
    pub closed spec fn spec_frame(self) -> nat {
        self.frame as nat
    }

    /// A spinner on `row`, at the start of the cycle.
    pub fn new(row: u16) -> (r: Spinner)
        ensures
            r.spec_row() == row,
            r.spec_frame() == 0,
    {
        Spinner { row, frame: 0 }
    }

    /// One tick of the spinner. Once the stop signal is seen nothing is
    /// painted any more; before that, each tick paints the next glyph of the
    /// cycle on the spinner's row.
    pub fn tick(&mut self, stopped: bool) -> (r: Option<RenderWrite>)
        ensures
            final(self).spec_row() == old(self).spec_row(),
            stopped ==> r is None && final(self).spec_frame() == old(self).spec_frame(),
            !stopped ==> r is Some && r->Some_0@ == spinner_frame(
                old(self).spec_row(),
                old(self).spec_frame(),
            ) && final(self).spec_frame() == (old(self).spec_frame() + 1) % 4,
    {
        proof {
            use_type_invariant(&*self);
        }
        if stopped {
            None
        } else {
            let write = RenderWrite::spinner(self.row, self.frame);
            self.frame = (self.frame + 1) % SPINNER_FRAMES;
            Some(write)
        }
    }
}

} // verus!
