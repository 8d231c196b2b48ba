//! Rendering of XHTML content documents as Markdown-like plain text.
//!
//! Inline emphasis becomes `**`, `*`, `~~` or a backtick, headings become `## `
//! lines, block elements end paragraphs, `script`, `style` and `svg` are dropped,
//! and only the `body` is read.  Each paragraph is trimmed, followed by a blank
//! line, and recorded as a segment of the text.
use vstd::prelude::*;
use vstd::string::StringExecFns;
use vstd::utf8::encode_utf8;
use crate::epubscan::xml::{events_view, xml_events, xml_tokens, XmlEvent, XmlEventView};
use crate::text::{chars_of, str_eq, string_of, trim, trim_exec};

verus! {

/// An inline style whose closing marker is still owed.
#[derive(Debug, Clone, Copy, PartialEq, Eq, Structural)]
pub enum InlineMarker {
    Bold,
    Italic,
    Strike,
    Code,
}

/// The Markdown marker of an inline style.
pub open spec fn marker_text(m: InlineMarker) -> Seq<char> {
    match m {
        InlineMarker::Bold => "**"@,
        InlineMarker::Italic => "*"@,
        InlineMarker::Strike => "~~"@,
        InlineMarker::Code => "`"@,
    }
}

impl InlineMarker {
    /// The Markdown marker of this style.
    pub fn marker(&self) -> (r: &'static str)
        ensures
            r@ == marker_text(*self),
    {
        match self {
            InlineMarker::Bold => "**",
            InlineMarker::Italic => "*",
            InlineMarker::Strike => "~~",
            InlineMarker::Code => "`",
        }
    }
}

/// Elements whose whole content is dropped.
pub open spec fn is_skipped_tag(n: Seq<char>) -> bool {
    n == "script"@ || n == "style"@ || n == "svg"@
}

/// The inline style an opening tag starts, if any.
pub open spec fn opening_marker(n: Seq<char>) -> Option<InlineMarker> {
    if n == "strong"@ || n == "b"@ {
        Some(InlineMarker::Bold)
    } else if n == "em"@ || n == "i"@ {
        Some(InlineMarker::Italic)
    } else if n == "s"@ || n == "del"@ || n == "strike"@ {
        Some(InlineMarker::Strike)
    } else if n == "code"@ {
        Some(InlineMarker::Code)
    } else {
        None
    }
}

/// Closing tags that close the innermost inline style.
pub open spec fn is_inline_tag(n: Seq<char>) -> bool {
    opening_marker(n) is Some
}

/// Closing tags that end a paragraph.
pub open spec fn is_block_tag(n: Seq<char>) -> bool {
    ||| n == "p"@ || n == "li"@ || n == "dt"@ || n == "dd"@ || n == "th"@ || n == "td"@
    ||| n == "blockquote"@ || n == "div"@ || n == "section"@ || n == "article"@
    ||| n == "header"@ || n == "footer"@ || n == "main"@ || n == "nav"@
}

/// Heading tags `h1` to `h6`.
pub open spec fn is_heading_tag(n: Seq<char>) -> bool {
    n == "h1"@ || n == "h2"@ || n == "h3"@ || n == "h4"@ || n == "h5"@ || n == "h6"@
}

/// The number of bytes of the UTF-8 encoding of `s`.
pub open spec fn utf8_len(s: Seq<char>) -> int {
    encode_utf8(s).len() as int
}

/// A list of `usize` pairs as integers.
pub open spec fn int_pairs(v: Seq<(usize, usize)>) -> Seq<(int, int)> {
    v.map_values(|p: (usize, usize)| (p.0 as int, p.1 as int))
}

/// The byte offsets of character spans of `text`: the UTF-8 length of the text
/// before each end.
pub open spec fn byte_spans(text: Seq<char>, spans: Seq<(int, int)>) -> Seq<(int, int)> {
    spans.map_values(|p: (int, int)| (utf8_len(text.take(p.0)), utf8_len(text.take(p.1))))
}

/// Every span lies inside `text` and starts before it ends.
pub open spec fn spans_inside(text: Seq<char>, spans: Seq<(int, int)>) -> bool {
    forall|k: int| 0 <= k < spans.len() ==> 0 <= #[trigger] spans[k].0 <= spans[k].1 <= text.len()
}

/// The text and segments after adding one paragraph: nothing when the trimmed
/// content is empty, else the trimmed content and a blank line, recorded as a
/// segment covering both.
pub open spec fn appended(text: Seq<char>, spans: Seq<(int, int)>, content: Seq<char>) -> (Seq<char>, Seq<(int, int)>) {
    let t = trim(content);
    if t.len() == 0 {
        (text, spans)
    } else {
        (text + t + "\n\n"@, spans.push((text.len() as int, (text.len() + t.len() + 2) as int)))
    }
}

/// The state of the renderer: the text so far with its paragraph spans (in
/// characters), the paragraph being built, the open inline styles, the depth
/// inside a skipped element, and whether the body has been entered.
pub ghost struct Render {
    pub text: Seq<char>,
    pub spans: Seq<(int, int)>,
    pub current: Seq<char>,
    pub inline: Seq<InlineMarker>,
    pub skip: int,
    pub in_body: bool,
}

/// The renderer before any event.
pub open spec fn render_start() -> Render {
    Render { text: seq![], spans: seq![], current: seq![], inline: seq![], skip: 0, in_body: false }
}

/// What one event does to the renderer.
pub open spec fn render_step(m: Render, e: XmlEventView) -> Render {
    match e {
        XmlEventView::Start(name, _) => {
            if name == "body"@ {
                Render { in_body: true, ..m }
            } else if !m.in_body {
                m
            } else if m.skip > 0 {
                Render { skip: m.skip + 1, ..m }
            } else if is_skipped_tag(name) {
                Render { skip: 1, ..m }
            } else {
                match opening_marker(name) {
                    Some(k) => Render { current: m.current + marker_text(k), inline: m.inline.push(k), ..m },
                    None => m,
                }
            }
        },
        XmlEventView::Empty(name, _) => {
            if m.in_body && m.skip == 0 && name == "br"@ {
                Render { current: m.current + "  \n"@, ..m }
            } else {
                m
            }
        },
        XmlEventView::End(name) => {
            if name == "body"@ {
                let (t, s) = appended(m.text, m.spans, m.current);
                Render { text: t, spans: s, current: seq![], in_body: false, ..m }
            } else if !m.in_body {
                m
            } else if m.skip > 0 {
                Render { skip: m.skip - 1, ..m }
            } else if is_inline_tag(name) {
                if m.inline.len() > 0 {
                    Render { current: m.current + marker_text(m.inline.last()), inline: m.inline.drop_last(), ..m }
                } else {
                    m
                }
            } else if is_block_tag(name) {
                let (t, s) = appended(m.text, m.spans, m.current);
                Render { text: t, spans: s, current: seq![], inline: seq![], ..m }
            } else if is_heading_tag(name) {
                let h = trim(m.current);
                let (t, s) = if h.len() > 0 {
                    appended(m.text, m.spans, "## "@ + h)
                } else {
                    (m.text, m.spans)
                };
                Render { text: t, spans: s, current: seq![], inline: seq![], ..m }
            } else {
                m
            }
        },
        XmlEventView::Text(c) => {
            if m.in_body && m.skip == 0 {
                Render { current: m.current + c, ..m }
            } else {
                m
            }
        },
        _ => m,
    }
}

/// The renderer after the events from `i` on, stopping at the first parse error.
pub open spec fn render_from(events: Seq<XmlEventView>, i: nat, m: Render) -> Render
    decreases events.len() - i,
{
    if i >= events.len() || events[i as int] is Error {
        m
    } else {
        render_from(events, i + 1, render_step(m, events[i as int]))
    }
}

/// The renderer after a whole event sequence.
pub open spec fn render_events(events: Seq<XmlEventView>) -> Render {
    render_from(events, 0, render_start())
}

/// The UTF-8 encoding never has fewer bytes than characters.
pub proof fn lemma_utf8_len_at_least_chars(s: Seq<char>)
    ensures
        utf8_len(s) >= s.len(),
    decreases s.len(),
{
    if s.len() > 0 {
        lemma_utf8_len_at_least_chars(s.drop_first());
    }
}

/// Extending a text does not move the byte offsets of spans inside it.
pub proof fn lemma_byte_spans_extend(text: Seq<char>, extra: Seq<char>, spans: Seq<(int, int)>)
    requires
        spans_inside(text, spans),
    ensures
        byte_spans(text + extra, spans) == byte_spans(text, spans),
        spans_inside(text + extra, spans),
{
    assert forall|k: int| 0 <= k < spans.len() implies #[trigger] byte_spans(text + extra, spans)[k]
        == byte_spans(text, spans)[k] by {
        assert((text + extra).take(spans[k].0) =~= text.take(spans[k].0));
        assert((text + extra).take(spans[k].1) =~= text.take(spans[k].1));
    }
    assert(byte_spans(text + extra, spans) =~= byte_spans(text, spans));
}

/// Exact form of a tag test.
fn is_skipped_tag_exec(n: &str) -> (r: bool)
    ensures
        r == is_skipped_tag(n@),
{
    str_eq(n, "script") || str_eq(n, "style") || str_eq(n, "svg")
}

fn opening_marker_exec(n: &str) -> (r: Option<InlineMarker>)
    ensures
        r == opening_marker(n@),
{
    if str_eq(n, "strong") || str_eq(n, "b") {
        Some(InlineMarker::Bold)
    } else if str_eq(n, "em") || str_eq(n, "i") {
        Some(InlineMarker::Italic)
    } else if str_eq(n, "s") || str_eq(n, "del") || str_eq(n, "strike") {
        Some(InlineMarker::Strike)
    } else if str_eq(n, "code") {
        Some(InlineMarker::Code)
    } else {
        None
    }
}

fn is_block_tag_exec(n: &str) -> (r: bool)
    ensures
        r == is_block_tag(n@),
{
    str_eq(n, "p") || str_eq(n, "li") || str_eq(n, "dt") || str_eq(n, "dd") || str_eq(n, "th")
        || str_eq(n, "td") || str_eq(n, "blockquote") || str_eq(n, "div") || str_eq(n, "section")
        || str_eq(n, "article") || str_eq(n, "header") || str_eq(n, "footer") || str_eq(n, "main")
        || str_eq(n, "nav")
}

fn is_heading_tag_exec(n: &str) -> (r: bool)
    ensures
        r == is_heading_tag(n@),
{
    str_eq(n, "h1") || str_eq(n, "h2") || str_eq(n, "h3") || str_eq(n, "h4") || str_eq(n, "h5")
        || str_eq(n, "h6")
}

/// The text being built, with its paragraph spans in characters and in bytes.
pub struct Segmented {
    pub text: String,
    pub chars: usize,
    pub spans: Vec<(usize, usize)>,
    pub bytes: Vec<(usize, usize)>,
}

impl Segmented {
    /// The spans line up with the text: `chars` counts its characters, every
    /// character span lies inside it, and the byte spans are their UTF-8 offsets.
    pub open spec fn wf(&self) -> bool {
        &&& self.chars == self.text@.len()
        &&& spans_inside(self.text@, int_pairs(self.spans@))
        &&& int_pairs(self.bytes@) == byte_spans(self.text@, int_pairs(self.spans@))
    }

    /// No text and no segments.
    pub fn new() -> (r: Self)
        ensures
            r.wf(),
            r.text@ == Seq::<char>::empty(),
            r.spans@ == Seq::<(usize, usize)>::empty(),
    {
        let r = Segmented { text: String::new(), chars: 0, spans: Vec::new(), bytes: Vec::new() };
        assert(int_pairs(r.bytes@) =~= byte_spans(r.text@, int_pairs(r.spans@)));
        r
    }

    /// Adds `content` as a paragraph: trimmed, followed by a blank line, and
    /// recorded as a segment; content that is blank once trimmed adds nothing.
    pub fn append_segment(&mut self, content: &str)
        requires
            old(self).wf(),
        ensures
            final(self).wf(),
            (final(self).text@, int_pairs(final(self).spans@)) == appended(old(self).text@, int_pairs(old(self).spans@), content@),
    {
        let trimmed = trim_exec(&chars_of(content));
        if trimmed.len() == 0 {
            return;
        }
        let ghost t0 = self.text@;
        let ghost sp0 = int_pairs(self.spans@);
        let ghost b0 = self.bytes@;
        let start = self.text.as_str().as_bytes().len();
        let piece = string_of(&trimmed);
        self.text.append(piece.as_str());
        self.text.append("\n\n");
        proof {
            reveal_strlit("\n\n");
            lemma_utf8_len_at_least_chars(self.text@);
            assert(self.text@ == t0 + trimmed@ + "\n\n"@);
        }
        let end = self.text.as_str().as_bytes().len();
        let start_char = self.chars;
        self.chars = self.chars + trimmed.len() + 2;
        self.spans.push((start_char, self.chars));
        self.bytes.push((start, end));
        proof {
            let t1 = self.text@;
            lemma_byte_spans_extend(t0, trimmed@ + "\n\n"@, sp0);
            assert(t0 + (trimmed@ + "\n\n"@) =~= t1);
            assert(int_pairs(self.spans@) =~= sp0.push((start_char as int, self.chars as int)));
            assert(t1.take(start_char as int) =~= t0);
            assert(t1.take(self.chars as int) =~= t1);
            assert(start as int == utf8_len(t0));
            assert(end as int == utf8_len(t1));
            let p = (start_char as int, self.chars as int);
            assert(int_pairs(self.bytes@) =~= int_pairs(b0).push((start as int, end as int)));
            assert(byte_spans(t1, sp0.push(p)) =~= byte_spans(t1, sp0).push(
                (utf8_len(t1.take(p.0)), utf8_len(t1.take(p.1)))));
            assert(int_pairs(self.bytes@) =~= byte_spans(t1, int_pairs(self.spans@)));
        }
    }
}

/// The model of the renderer's executable state.
pub open spec fn render_model(
    seg: &Segmented,
    current: Seq<char>,
    inline: Seq<InlineMarker>,
    skip: usize,
    in_body: bool,
) -> Render {
    Render { text: seg.text@, spans: int_pairs(seg.spans@), current, inline, skip: skip as int, in_body }
}

/// Renders a sequence of XML events; the result holds the text and both the
/// character and the byte spans of its paragraphs.
pub fn render_events_exec(events: &[XmlEvent]) -> (res: Segmented)
    ensures
        res.wf(),
        res.text@ == render_events(events_view(events@)).text,
        int_pairs(res.spans@) == render_events(events_view(events@)).spans,
{
    let ghost ev = events_view(events@);
    let mut seg = Segmented::new();
    let mut current = String::new();
    let mut inline: Vec<InlineMarker> = Vec::new();
    let mut skip: usize = 0;
    let mut in_body = false;
    let mut i: usize = 0;
    assert(int_pairs(seg.spans@) =~= Seq::<(int, int)>::empty());
    assert(render_model(&seg, current@, inline@, skip, in_body) == render_start());
    while i < events.len() && !events[i].is_error()
        invariant
            ev == events_view(events@),
            i <= events.len(),
            skip <= i,
            seg.wf(),
            render_from(ev, i as nat, render_model(&seg, current@, inline@, skip, in_body)) == render_events(ev),
        decreases events.len() - i,
    {
        let ghost m0 = render_model(&seg, current@, inline@, skip, in_body);
        assert(ev[i as int] == events@[i as int]@);
        match &events[i] {
            XmlEvent::Start(name, _) => {
                if str_eq(name.as_str(), "body") {
                    in_body = true;
                } else if !in_body {
                } else if skip > 0 {
                    skip = skip + 1;
                } else if is_skipped_tag_exec(name.as_str()) {
                    skip = 1;
                } else {
                    match opening_marker_exec(name.as_str()) {
                        Some(k) => {
                            current.append(k.marker());
                            inline.push(k);
                        },
                        None => {},
                    }
                }
            },
            XmlEvent::Empty(name, _) => {
                if in_body && skip == 0 && str_eq(name.as_str(), "br") {
                    current.append("  \n");
                }
            },
            XmlEvent::End(name) => {
                if str_eq(name.as_str(), "body") {
                    seg.append_segment(current.as_str());
                    current = String::new();
                    in_body = false;
                } else if !in_body {
                } else if skip > 0 {
                    skip = skip - 1;
                } else if opening_marker_exec(name.as_str()).is_some() {
                    if inline.len() > 0 {
                        let m = inline.pop().unwrap();
                        current.append(m.marker());
                    }
                } else if is_block_tag_exec(name.as_str()) {
                    seg.append_segment(current.as_str());
                    current = String::new();
                    inline = Vec::new();
                } else if is_heading_tag_exec(name.as_str()) {
                    let h = trim_exec(&chars_of(current.as_str()));
                    current = String::new();
                    inline = Vec::new();
                    if h.len() > 0 {
                        let mut heading = String::from_str("## ");
                        heading.append(string_of(&h).as_str());
                        seg.append_segment(heading.as_str());
                    }
                }
            },
            XmlEvent::Text(t) => {
                if in_body && skip == 0 {
                    current.append(t.as_str());
                }
            },
            _ => {},
        }
        proof {
            assert(render_model(&seg, current@, inline@, skip, in_body) =~= render_step(m0, ev[i as int]));
        }
        i = i + 1;
    }
    proof {
        if i < events.len() {
            assert(ev[i as int] == events@[i as int]@);
        }
    }
    seg
}

impl XmlEvent {
    /// Whether this is a parse error.
    pub fn is_error(&self) -> (r: bool)
        ensures
            r == (self@ is Error),
    {
        match self {
            XmlEvent::Error => true,
            _ => false,
        }
    }
}

/// Renders an XHTML document: the text and the byte offsets (start, end) of each
/// paragraph in it.  Parsing stops at the first syntax error.
pub fn parse_xhtml(xml: &str) -> (res: (String, Vec<(usize, usize)>))
    ensures
        res.0@ == render_events(xml_tokens(xml@, false)).text,
        int_pairs(res.1@) == byte_spans(res.0@, render_events(xml_tokens(xml@, false)).spans),
{
    let events = xml_events(xml, false);
    let seg = render_events_exec(&events);
    (seg.text, seg.bytes)
}

} // verus!
