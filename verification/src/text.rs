//! Styled text (spans, lines of spans, and text made of lines), and text
//! measurement: splitting a string into grapheme clusters and the number of
//! terminal columns a string takes.

use vstd::prelude::*;
use crate::graphics::Style;
use unicode_segmentation::UnicodeSegmentation;
use unicode_width::UnicodeWidthStr;

verus! {

/// The extended grapheme clusters of a string, in order, as
/// `unicode-segmentation` splits it.
pub uninterp spec fn grapheme_clusters(s: Seq<char>) -> Seq<Seq<char>>;

/// The number of terminal columns a string takes, as `unicode-width` counts
/// them.
pub uninterp spec fn display_width(s: Seq<char>) -> nat;

/// Calls `UnicodeSegmentation::graphemes(s, true)` and collects the extended
/// grapheme clusters as strings.  The contract names the result: the
/// clusters are a function of the string alone.
#[verifier::external_body]
pub(crate) fn graphemes(s: &str) -> (r: Vec<String>)
    ensures
        r@.map_values(|g: String| g@) == grapheme_clusters(s@),
{
    s.graphemes(true).map(|g| g.to_string()).collect()
}

/// Calls `UnicodeWidthStr::width(s)`.  The contract names the result: the
/// width is a function of the string alone.
#[verifier::external_body]
pub(crate) fn width(s: &str) -> (r: usize)
    ensures
        r == display_width(s@),
{
    UnicodeWidthStr::width(s)
}

/// A run of text drawn in one style.
#[derive(Debug, PartialEq, Eq)]
pub struct Span {
    pub content: String,
    pub style: Style,
}

impl View for Span {
    type V = (Seq<char>, Style);

    open spec fn view(&self) -> (Seq<char>, Style) {
        (self.content@, self.style)
    }
}

/// One line of text: spans one after the other.
#[derive(Debug, PartialEq, Eq)]
pub struct Spans(pub Vec<Span>);

impl View for Spans {
    type V = Seq<(Seq<char>, Style)>;

    open spec fn view(&self) -> Seq<(Seq<char>, Style)> {
        self.0@.map_values(|s: Span| s@)
    }
}

/// Lines of styled text.
#[derive(Debug, PartialEq, Eq)]
pub struct Text {
    pub lines: Vec<Spans>,
}

impl View for Text {
    type V = Seq<Seq<(Seq<char>, Style)>>;

    open spec fn view(&self) -> Seq<Seq<(Seq<char>, Style)>> {
        self.lines@.map_values(|l: Spans| l@)
    }
}

/// The first place at or after `i` that holds a line feed, or the length of
/// `s` where there is none.
pub open spec fn next_line_feed(s: Seq<char>, i: int) -> int
    decreases s.len() - i,
{
    if i >= s.len() {
        s.len() as int
    } else if s[i] == '\n' {
        i
    } else {
        next_line_feed(s, i + 1)
    }
}

/// A line without the carriage return that ended it, where it has one.
pub open spec fn without_carriage_return(l: Seq<char>) -> Seq<char> {
    if l.len() > 0 && l.last() == '\r' {
        l.drop_last()
    } else {
        l
    }
}

/// The lines of `s` from place `start` on: each line runs up to the next
/// line feed, which ends it together with a carriage return just before it;
/// the text after the last line feed is a line where it is not empty.
pub open spec fn lines_from(s: Seq<char>, start: int) -> Seq<Seq<char>>
    decreases s.len() - start,
{
    if start < 0 || start >= s.len() {
        Seq::empty()
    } else {
        let e = next_line_feed(s, start);
        proof {
            lemma_next_line_feed(s, start);
        }
        if e >= s.len() {
            seq![s.subrange(start, s.len() as int)]
        } else {
            seq![without_carriage_return(s.subrange(start, e))] + lines_from(s, e + 1)
        }
    }
}

/// The lines of `s`.
pub open spec fn lines_of(s: Seq<char>) -> Seq<Seq<char>> {
    lines_from(s, 0)
}

/// The next line feed is at or after the place the search starts from, no
/// further than the end, and nothing before it is a line feed.
pub proof fn lemma_next_line_feed(s: Seq<char>, i: int)
    requires
        0 <= i <= s.len(),
    ensures
        i <= next_line_feed(s, i) <= s.len(),
        next_line_feed(s, i) < s.len() ==> s[next_line_feed(s, i)] == '\n',
        forall|k: int| i <= k < next_line_feed(s, i) ==> s[k] != '\n',
    decreases s.len() - i,
{
    if i < s.len() && s[i] != '\n' {
        lemma_next_line_feed(s, i + 1);
    }
}

/// A text of one raw span per line.
pub open spec fn raw_lines(ls: Seq<Seq<char>>) -> Seq<Seq<(Seq<char>, Style)>> {
    ls.map_values(|l: Seq<char>| seq![(l, Style::spec_default())])
}

/// A text with `style` patched over the style of every span.
pub open spec fn text_patched(t: Seq<Seq<(Seq<char>, Style)>>, style: Style) -> Seq<Seq<(Seq<char>, Style)>> {
    t.map_values(
        |l: Seq<(Seq<char>, Style)>| l.map_values(|sp: (Seq<char>, Style)| (sp.0, sp.1.spec_patch(style))),
    )
}

impl Span {
    /// A span of `content` in the default style.
    pub fn raw(content: &str) -> (r: Span)
        ensures
            r@ == (content@, Style::spec_default()),
    {
        Span { content: String::from_str(content), style: Style::new() }
    }

    /// A span of `content` in `style`.
    pub fn styled(content: &str, style: Style) -> (r: Span)
        ensures
            r@ == (content@, style),
    {
        Span { content: String::from_str(content), style }
    }
}

impl Spans {
    /// A line of one span of `content` in the default style.
    pub fn raw(content: &str) -> (r: Spans)
        ensures
            r@ == seq![(content@, Style::spec_default())],
    {
        let mut v: Vec<Span> = Vec::new();
        v.push(Span::raw(content));
        proof {
            assert(v@.map_values(|s: Span| s@) =~= seq![(content@, Style::spec_default())]);
        }
        Spans(v)
    }
}

impl Text {
    /// The lines of `content`, each one span in the default style.
    pub fn raw(content: &str) -> (r: Text)
        ensures
            r@ == raw_lines(lines_of(content@)),
    {
        let ghost s = content@;
        let n = content.unicode_len();
        let mut lines: Vec<Spans> = Vec::new();
        let mut start: usize = 0;
        while start < n
            invariant
                s == content@,
                n == s.len(),
                start <= n,
                lines@.map_values(|l: Spans| l@) + raw_lines(lines_from(s, start as int)) == raw_lines(
                    lines_of(s),
                ),
            decreases n - start,
        {
            proof {
                lemma_next_line_feed(s, start as int);
            }
            let mut e = start;
            while e < n && content.get_char(e) != '\n'
                invariant
                    s == content@,
                    n == s.len(),
                    start <= e <= n,
                    next_line_feed(s, e as int) == next_line_feed(s, start as int),
                decreases n - e,
            {
                e = e + 1;
            }
            proof {
                assert(next_line_feed(s, e as int) == e);
            }
            let line = if e < n && e > start && content.get_char(e - 1) == '\r' {
                content.substring_char(start, e - 1)
            } else {
                content.substring_char(start, e)
            };
            let ghost before = lines@;
            lines.push(Spans::raw(line));
            proof {
                let rest = lines_from(s, start as int);
                assert(line@ == (if e < n { without_carriage_return(s.subrange(start as int, e as int)) } else {
                    s.subrange(start as int, n as int)
                }));
                assert(rest[0] == line@);
                if e < n {
                    assert(rest.drop_first() =~= lines_from(s, e + 1));
                } else {
                    assert(rest.drop_first() =~= lines_from(s, n as int));
                }
                assert(lines@.map_values(|l: Spans| l@) =~= before.map_values(|l: Spans| l@).push(
                    seq![(line@, Style::spec_default())],
                ));
                assert(raw_lines(rest) =~= seq![seq![(line@, Style::spec_default())]] + raw_lines(
                    rest.drop_first(),
                ));
            }
            start = if e < n { e + 1 } else { n };
        }
        proof {
            assert(raw_lines(lines_from(s, start as int)) =~= Seq::<Seq<(Seq<char>, Style)>>::empty());
            assert(lines@.map_values(|l: Spans| l@) =~= raw_lines(lines_of(s)));
        }
        Text { lines }
    }

    /// The lines of `content`, each one span with `style` patched over the
    /// default style.
    pub fn styled(content: &str, style: Style) -> (r: Text)
        ensures
            r@ == text_patched(raw_lines(lines_of(content@)), style),
    {
        let mut t = Text::raw(content);
        t.patch_style(style);
        t
    }

    /// A text of the one line `line`.
    pub fn from_spans(line: Spans) -> (r: Text)
        ensures
            r@ == seq![line@],
    {
        let ghost l = line@;
        let mut lines: Vec<Spans> = Vec::new();
        lines.push(line);
        proof {
            assert(lines@.map_values(|x: Spans| x@) =~= seq![l]);
        }
        Text { lines }
    }

    /// The number of lines.
    pub fn height(&self) -> (r: usize)
        ensures
            r == self@.len(),
    {
        self.lines.len()
    }

    /// Patches `style` over the style of every span.
    pub fn patch_style(&mut self, style: Style)
        ensures
            final(self)@ == text_patched(old(self)@, style),
    {
        let ghost start = self@;
        let n = self.lines.len();
        let mut fresh: Vec<Spans> = Vec::new();
        let mut i: usize = 0;
        while i < n
            invariant
                n == self.lines@.len(),
                start == self@,
                i <= n,
                fresh@.map_values(|l: Spans| l@) =~= text_patched(start, style).take(i as int),
            decreases n - i,
        {
            let line = &self.lines[i];
            let m = line.0.len();
            let mut spans: Vec<Span> = Vec::new();
            let mut j: usize = 0;
            while j < m
                invariant
                    n == self.lines@.len(),
                    i < n,
                    start == self@,
                    line == self.lines@[i as int],
                    m == line.0@.len(),
                    j <= m,
                    spans@.map_values(|s: Span| s@) =~= text_patched(start, style)[i as int].take(j as int),
                decreases m - j,
            {
                let sp = &line.0[j];
                let ghost b = spans@;
                spans.push(Span { content: sp.content.clone(), style: sp.style.patch(style) });
                proof {
                    assert(spans@.map_values(|s: Span| s@) =~= b.map_values(|s: Span| s@).push(
                        text_patched(start, style)[i as int][j as int],
                    ));
                }
                j = j + 1;
            }
            proof {
                assert(start[i as int] == line@);
                assert(text_patched(start, style)[i as int].take(m as int) =~= text_patched(start, style)[i as int]);
            }
            let ghost b = fresh@;
            fresh.push(Spans(spans));
            proof {
                assert(fresh@.map_values(|l: Spans| l@) =~= b.map_values(|l: Spans| l@).push(
                    text_patched(start, style)[i as int],
                ));
            }
            i = i + 1;
        }
        proof {
            assert(text_patched(start, style).take(n as int) =~= text_patched(start, style));
        }
        self.lines = fresh;
    }
}

impl Clone for Span {
    fn clone(&self) -> (r: Span)
        ensures
            r@ == self@,
    {
        Span { content: self.content.clone(), style: self.style }
    }
}

impl Clone for Spans {
    fn clone(&self) -> (r: Spans)
        ensures
            r@ == self@,
    {
        let n = self.0.len();
        let mut v: Vec<Span> = Vec::new();
        let mut i: usize = 0;
        while i < n
            invariant
                n == self.0@.len(),
                i <= n,
                v@.map_values(|s: Span| s@) =~= self@.take(i as int),
            decreases n - i,
        {
            let ghost b = v@;
            v.push(self.0[i].clone());
            proof {
                assert(v@.map_values(|s: Span| s@) =~= b.map_values(|s: Span| s@).push(self@[i as int]));
            }
            i = i + 1;
        }
        proof {
            assert(self@.take(n as int) =~= self@);
        }
        Spans(v)
    }
}

impl Clone for Text {
    fn clone(&self) -> (r: Text)
        ensures
            r@ == self@,
    {
        let n = self.lines.len();
        let mut v: Vec<Spans> = Vec::new();
        let mut i: usize = 0;
        while i < n
            invariant
                n == self.lines@.len(),
                i <= n,
                v@.map_values(|l: Spans| l@) =~= self@.take(i as int),
            decreases n - i,
        {
            let ghost b = v@;
            v.push(self.lines[i].clone());
            proof {
                assert(v@.map_values(|l: Spans| l@) =~= b.map_values(|l: Spans| l@).push(self@[i as int]));
            }
            i = i + 1;
        }
        proof {
            assert(self@.take(n as int) =~= self@);
        }
        Text { lines: v }
    }
}

} // verus!
