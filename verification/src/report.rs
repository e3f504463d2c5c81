//! Lines of a report, ready to be written out.
//!
//! A line is a run of spans, each a piece of text with the colour it is to
//! be shown in. The text of a line is the texts of its spans one after the
//! other.

use vstd::prelude::*;
use crate::views::lemma_views_push;
use crate::views::views;

verus! {

/// The colour of a span.
#[derive(Clone, Copy, Debug, PartialEq, Eq, Structural)]
pub enum Color {
    Plain,
    Red,
    Green,
    Yellow,
}

/// A piece of text in one colour.
#[derive(Clone, Debug)]
pub struct Span {
    pub text: String,
    pub color: Color,
}

/// A span as the contracts speak of it.
pub struct SpanView {
    pub text: Seq<char>,
    pub color: Color,
}

impl View for Span {
    type V = SpanView;

    open spec fn view(&self) -> SpanView {
        SpanView { text: self.text@, color: self.color }
    }
}

/// A span without colour.
pub open spec fn plain(text: Seq<char>) -> SpanView {
    SpanView { text, color: Color::Plain }
}

/// A span in red.
pub open spec fn red(text: Seq<char>) -> SpanView {
    SpanView { text, color: Color::Red }
}

/// A span in green.
pub open spec fn green(text: Seq<char>) -> SpanView {
    SpanView { text, color: Color::Green }
}

/// A span in yellow.
pub open spec fn yellow(text: Seq<char>) -> SpanView {
    SpanView { text, color: Color::Yellow }
}

/// The text of the first `n` spans of a line.
pub open spec fn text_upto(line: Seq<SpanView>, n: int) -> Seq<char>
    decreases n,
{
    if n <= 0 {
        Seq::empty()
    } else {
        text_upto(line, n - 1) + line[n - 1].text
    }
}

/// The text of a line.
pub open spec fn line_text(line: Seq<SpanView>) -> Seq<char> {
    text_upto(line, line.len() as int)
}

/// One line of a report.
#[derive(Clone, Debug)]
pub struct Line {
    pub spans: Vec<Span>,
}

impl View for Line {
    type V = Seq<SpanView>;

    open spec fn view(&self) -> Seq<SpanView> {
        views(self.spans@)
    }
}

impl Line {
    /// A line without spans.
    pub fn new() -> (r: Self)
        ensures
            r@ == Seq::<SpanView>::empty(),
    {
        let r = Line { spans: Vec::new() };
        assert(r@ =~= Seq::<SpanView>::empty());
        r
    }

    /// Adds a span at the end of the line.
    pub fn put(&mut self, text: &str, color: Color)
        ensures
            final(self)@ == old(self)@.push(SpanView { text: text@, color }),
    {
        let span = Span { text: String::from_str(text), color };
        proof {
            lemma_views_push(self.spans@, span);
        }
        self.spans.push(span);
    }

    /// Adds a span without colour at the end of the line.
    pub fn say(&mut self, text: &str)
        ensures
            final(self)@ == old(self)@.push(plain(text@)),
    {
        self.put(text, Color::Plain);
    }

    /// The text of the line, without its colours.
    pub fn text(&self) -> (r: String)
        ensures
            r@ == line_text(self@),
    {
        let mut r = String::new();
        let mut i: usize = 0;
        while i < self.spans.len()
            invariant
                i <= self.spans.len(),
                r@ == text_upto(self@, i as int),
            decreases self.spans.len() - i,
        {
            r.append(self.spans[i].text.as_str());
            i += 1;
        }
        r
    }
}

/// The mark of a colocated keyspace or table, empty for any other.
pub open spec fn colocation_mark(colocated: bool) -> Seq<char> {
    if colocated {
        "[colocated]"@
    } else {
        ""@
    }
}

/// Adds the mark of a colocated keyspace or table to a line.
pub fn put_colocation_mark(line: &mut Line, colocated: bool)
    ensures
        final(line)@ == old(line)@.push(plain(colocation_mark(colocated))),
{
    if colocated {
        line.say("[colocated]");
    } else {
        line.say("");
    }
}

} // verus!
