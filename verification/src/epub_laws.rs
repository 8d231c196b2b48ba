//! Laws on reading books: block elements end paragraphs, and the first title a
//! table of contents gives a target is the one it keeps.
use vstd::prelude::*;
use crate::epubscan::package::{insert_if_absent, ncx_scan_from, ncx_step, pair_get, pair_index, NcxScan};
use crate::epubscan::xhtml::{
    is_block_tag, is_heading_tag, is_inline_tag, is_skipped_tag, opening_marker, render_step, InlineMarker, Render,
};
use crate::epubscan::xml::XmlEventView;
use crate::epubscan::xhtml::marker_text;
use crate::text::{is_ws, lemma_trim_is_trimmed, trim, trim_end, trim_start};

verus! {

// ---------------------------------------------------------------------------
// Paragraphs

/// The names of the block elements whose closing tag ends a paragraph.
pub open spec fn block_element(name: Seq<char>) -> bool {
    ||| name == "p"@ || name == "li"@ || name == "dt"@ || name == "dd"@ || name == "th"@
    ||| name == "td"@ || name == "blockquote"@ || name == "div"@ || name == "section"@
    ||| name == "article"@ || name == "header"@ || name == "footer"@ || name == "main"@
    ||| name == "nav"@
}

/// Inside the body and outside skipped content, the closing tag of every block
/// element (`p`, `li`, `dt`, `dd`, `th`, `td`, `blockquote`, `div`, `section`,
/// `article`, `header`, `footer`, `main`, `nav`) ends the paragraph being built:
/// its trimmed content, if any, is added to the text as a paragraph of its own
/// followed by a blank line, and the next paragraph starts empty with no open
/// inline style.  So `<li>A</li><li>B</li>` gives the paragraphs `A` and `B`.
pub proof fn law_block_end_closes_paragraph(m: Render, name: Seq<char>)
    requires
        m.in_body,
        m.skip == 0,
        block_element(name),
    ensures
        ({
            let r = render_step(m, XmlEventView::End(name));
            &&& r.current == Seq::<char>::empty()
            &&& r.inline == Seq::<InlineMarker>::empty()
            &&& r.in_body
            &&& trim(m.current).len() > 0 ==> r.text == m.text + trim(m.current) + "\n\n"@ && r.spans == m.spans.push(
                (m.text.len() as int, (m.text.len() + trim(m.current).len() + 2) as int),
            )
            &&& trim(m.current).len() == 0 ==> r.text == m.text && r.spans == m.spans
        }),
{
    reveal_strlit("p");
    reveal_strlit("li");
    reveal_strlit("dt");
    reveal_strlit("dd");
    reveal_strlit("th");
    reveal_strlit("td");
    reveal_strlit("blockquote");
    reveal_strlit("div");
    reveal_strlit("section");
    reveal_strlit("article");
    reveal_strlit("header");
    reveal_strlit("footer");
    reveal_strlit("main");
    reveal_strlit("nav");
    reveal_strlit("body");
    reveal_strlit("strong");
    reveal_strlit("b");
    reveal_strlit("em");
    reveal_strlit("i");
    reveal_strlit("s");
    reveal_strlit("del");
    reveal_strlit("strike");
    reveal_strlit("code");
    assert(name.len() != 1 || name[0] == 'p');
    assert(name.len() != 2 || name[0] != 'e');
    assert(name.len() != 3 || name[1] != 'e');
    assert(name.len() != 4 || name[0] == 'm');
    assert(name.len() != 6 || name[0] != 's');
    assert(name != "body"@) by {
        if name == "body"@ {
            assert(name[0] == "body"@[0]);
        }
    }
    assert(!is_inline_tag(name)) by {
        if name == "b"@ {
            assert(name[0] == "b"@[0]);
        } else if name == "i"@ {
            assert(name[0] == "i"@[0]);
        } else if name == "s"@ {
            assert(name[0] == "s"@[0]);
        } else if name == "em"@ {
            assert(name[0] == "em"@[0]);
        } else if name == "del"@ {
            assert(name[1] == "del"@[1]);
        } else if name == "code"@ {
            assert(name[0] == "code"@[0]);
        } else if name == "strong"@ {
            assert(name[0] == "strong"@[0]);
        } else if name == "strike"@ {
            assert(name[0] == "strike"@[0]);
        }
    }
    assert(is_block_tag(name));
}

/// Reveals the element names the renderer knows.
pub proof fn lemma_reveal_element_names()
    ensures
        "body"@.len() == 4 && "body"@[0] == 'b',
        "script"@.len() == 6 && "script"@[1] == 'c',
        "style"@.len() == 5,
        "svg"@.len() == 3 && "svg"@[0] == 's',
        "strong"@.len() == 6 && "strong"@[1] == 't',
        "strike"@.len() == 6 && "strike"@[1] == 't',
        "b"@.len() == 1 && "i"@.len() == 1 && "s"@.len() == 1,
        "em"@.len() == 2 && "em"@[0] == 'e',
        "del"@.len() == 3 && "del"@[0] == 'd',
        "code"@.len() == 4 && "code"@[0] == 'c',
        "br"@.len() == 2,
{
    reveal_strlit("body");
    reveal_strlit("script");
    reveal_strlit("style");
    reveal_strlit("svg");
    reveal_strlit("strong");
    reveal_strlit("strike");
    reveal_strlit("b");
    reveal_strlit("i");
    reveal_strlit("s");
    reveal_strlit("em");
    reveal_strlit("del");
    reveal_strlit("code");
    reveal_strlit("br");
}

/// Inside the body, `script`, `style` and `svg` open skipped content: nothing
/// inside them, text or nested elements, reaches the rendered text.
pub proof fn law_skipped_elements_are_dropped(m: Render, name: Seq<char>, raw: Seq<char>, c: Seq<char>, inner: Seq<char>)
    requires
        m.in_body,
        name == "script"@ || name == "style"@ || name == "svg"@,
        inner != "body"@,
    ensures
        m.skip == 0 ==> render_step(m, XmlEventView::Start(name, raw)) == (Render { skip: 1, ..m }),
        m.skip > 0 ==> render_step(m, XmlEventView::Text(c)) == m,
        m.skip > 0 ==> render_step(m, XmlEventView::Start(inner, raw)) == (Render { skip: m.skip + 1, ..m }),
        m.skip > 0 ==> render_step(m, XmlEventView::Empty(inner, raw)) == m,
{
    lemma_reveal_element_names();
    assert(name != "body"@) by {
        assert(name.len() != 4);
    }
    assert(is_skipped_tag(name));
}

/// Inside the body, outside skipped content, the closing tag of a heading
/// (`h1` to `h6`) adds the trimmed content as a paragraph of its own, prefixed
/// with `## `, and starts the next paragraph empty.
pub proof fn law_heading_end_adds_heading(m: Render, name: Seq<char>)
    requires
        m.in_body,
        m.skip == 0,
        name == "h1"@ || name == "h2"@ || name == "h3"@ || name == "h4"@ || name == "h5"@ || name == "h6"@,
    ensures
        ({
            let r = render_step(m, XmlEventView::End(name));
            let h = trim(m.current);
            &&& r.current == Seq::<char>::empty()
            &&& r.inline == Seq::<InlineMarker>::empty()
            &&& h.len() > 0 ==> r.text == m.text + "## "@ + h + "\n\n"@
            &&& h.len() == 0 ==> r.text == m.text && r.spans == m.spans
        }),
{
    lemma_reveal_element_names();
    reveal_strlit("h1");
    reveal_strlit("h2");
    reveal_strlit("h3");
    reveal_strlit("h4");
    reveal_strlit("h5");
    reveal_strlit("h6");
    reveal_strlit("li");
    reveal_strlit("dt");
    reveal_strlit("dd");
    reveal_strlit("th");
    reveal_strlit("td");
    reveal_strlit("p");
    reveal_strlit("blockquote");
    reveal_strlit("div");
    reveal_strlit("section");
    reveal_strlit("article");
    reveal_strlit("header");
    reveal_strlit("footer");
    reveal_strlit("main");
    reveal_strlit("nav");
    reveal_strlit("## ");
    assert(name.len() == 2 && name[0] == 'h');
    assert(name != "body"@) by {
        assert(name.len() != 4);
    }
    assert(!is_inline_tag(name)) by {
        if name == "em"@ {
            assert(name[0] == "em"@[0]);
        }
    }
    assert(!is_block_tag(name)) by {
        if name == "li"@ {
            assert(name[0] == "li"@[0]);
        } else if name == "dt"@ {
            assert(name[0] == "dt"@[0]);
        } else if name == "dd"@ {
            assert(name[0] == "dd"@[0]);
        } else if name == "th"@ {
            assert(name[0] == "th"@[0]);
        } else if name == "td"@ {
            assert(name[0] == "td"@[0]);
        }
    }
    assert(is_heading_tag(name));
    let h = trim(m.current);
    if h.len() > 0 {
        lemma_trim_is_trimmed(m.current);
        let hd = "## "@ + h;
        assert(hd[0] == '#');
        assert(!is_ws('#'));
        assert(hd.last() == h.last());
        assert(trim_start(hd) == hd);
        assert(trim_end(hd) == hd);
        assert(trim(hd) == hd);
    }
}

/// The Markdown marker that an opening inline element writes, by its name:
/// `**` for `strong` and `b`, `*` for `em` and `i`, `~~` for `s`, `del` and
/// `strike`, a backtick for `code`.
pub open spec fn markdown_marker(name: Seq<char>) -> Option<Seq<char>> {
    if name == "strong"@ || name == "b"@ {
        Some("**"@)
    } else if name == "em"@ || name == "i"@ {
        Some("*"@)
    } else if name == "s"@ || name == "del"@ || name == "strike"@ {
        Some("~~"@)
    } else if name == "code"@ {
        Some("`"@)
    } else {
        None
    }
}

/// An inline element's name is neither `body` nor that of skipped content.
pub proof fn lemma_inline_name_plain(name: Seq<char>)
    requires
        markdown_marker(name) is Some,
    ensures
        name != "body"@,
        !is_skipped_tag(name),
{
    lemma_reveal_element_names();
    if name == "body"@ {
        if name == "code"@ {
            assert(name[0] == "code"@[0]);
        }
    }
    if name == "svg"@ {
        if name == "del"@ {
            assert(name[0] == "del"@[0]);
        }
    }
    if name == "script"@ {
        if name == "strong"@ {
            assert(name[1] == "strong"@[1]);
        }
        if name == "strike"@ {
            assert(name[1] == "strike"@[1]);
        }
    }
}

/// Inside the body, outside skipped content, an opening inline element writes
/// its Markdown marker, and its closing tag writes the same marker again; a `br`
/// writes a Markdown line break.
pub proof fn law_inline_elements_write_markers(m: Render, name: Seq<char>, raw: Seq<char>)
    requires
        m.in_body,
        m.skip == 0,
    ensures
        markdown_marker(name) matches Some(k) ==> render_step(m, XmlEventView::Start(name, raw)).current == m.current + k,
        markdown_marker(name) matches Some(k) ==> render_step(
            render_step(m, XmlEventView::Start(name, raw)),
            XmlEventView::End(name),
        ).current == m.current + k + k,
        render_step(m, XmlEventView::Empty("br"@, raw)).current == m.current + "  \n"@,
{
    lemma_reveal_element_names();
    reveal_strlit("**");
    reveal_strlit("*");
    reveal_strlit("~~");
    reveal_strlit("`");
    if markdown_marker(name) is Some {
        lemma_inline_name_plain(name);
        assert(opening_marker(name) is Some);
        let mk = opening_marker(name)->0;
        assert(marker_text(mk) == markdown_marker(name)->0);
        let r1 = render_step(m, XmlEventView::Start(name, raw));
        assert(r1.inline.last() == mk);
        assert(is_inline_tag(name));
    }
}

// ---------------------------------------------------------------------------
// Table of contents

/// Adding an entry at the end does not move the first entry of a key present
/// before.
pub proof fn lemma_pair_index_push(m: Seq<(Seq<char>, Seq<char>)>, x: (Seq<char>, Seq<char>), key: Seq<char>)
    ensures
        pair_index(m.push(x), key) == (match pair_index(m, key) {
            Some(i) => Some(i),
            None => if x.0 == key { Some(m.len() as int) } else { None },
        }),
{
    assert(m.push(x).drop_last() =~= m);
}

/// The first entry of a key lies inside the list.
pub proof fn lemma_pair_index_inside(m: Seq<(Seq<char>, Seq<char>)>, key: Seq<char>)
    ensures
        pair_index(m, key) matches Some(i) ==> 0 <= i < m.len() && m[i].0 == key,
    decreases m.len(),
{
    if m.len() > 0 {
        lemma_pair_index_inside(m.drop_last(), key);
    }
}

/// Once a target has a title, no event of the NCX changes it.
pub proof fn law_ncx_title_stays(dir: Seq<char>, s: NcxScan, e: XmlEventView, key: Seq<char>)
    requires
        pair_get(s.toc, key) is Some,
    ensures
        pair_get(ncx_step(dir, s, e).toc, key) == pair_get(s.toc, key),
{
    lemma_pair_index_inside(s.toc, key);
    let t = trim(s.label);
    if pair_index(s.toc, s.src) is None {
        lemma_pair_index_push(s.toc, (s.src, t), key);
        assert(insert_if_absent(s.toc, s.src, t) == s.toc.push((s.src, t)));
    }
}

/// The end of a navigation point that names a target without a title yet gives
/// that target the point's trimmed label.
pub proof fn law_ncx_first_label_titles_target(dir: Seq<char>, s: NcxScan)
    requires
        s.src.len() > 0,
        s.label.len() > 0,
        pair_get(s.toc, s.src) is None,
    ensures
        pair_get(ncx_step(dir, s, XmlEventView::End("navPoint"@)).toc, s.src) == Some(trim(s.label)),
{
    reveal_strlit("navPoint");
    reveal_strlit("navLabel");
    reveal_strlit("text");
    let t = trim(s.label);
    assert(pair_index(s.toc, s.src) is None);
    assert("navPoint"@ != "navLabel"@) by {
        assert("navPoint"@[3] != "navLabel"@[3]);
    }
    assert("navPoint"@ != "text"@) by {
        assert("navPoint"@.len() != "text"@.len());
    }
    assert(ncx_step(dir, s, XmlEventView::End("navPoint"@)).toc == s.toc.push((s.src, t)));
    lemma_pair_index_push(s.toc, (s.src, t), s.src);
    assert(s.toc.push((s.src, t))[s.toc.len() as int] == (s.src, t));
}

/// Through the rest of the NCX, a target's title stays the first one it got: a
/// later navigation point into the same target does not overwrite it.
pub proof fn law_ncx_titles_never_change(
    dir: Seq<char>,
    events: Seq<XmlEventView>,
    i: nat,
    s: NcxScan,
    key: Seq<char>,
)
    requires
        pair_get(s.toc, key) is Some,
    ensures
        pair_get(ncx_scan_from(dir, events, i, s).toc, key) == pair_get(s.toc, key),
    decreases events.len() - i,
{
    if i < events.len() {
        law_ncx_title_stays(dir, s, events[i as int], key);
        law_ncx_titles_never_change(dir, events, i + 1, ncx_step(dir, s, events[i as int]), key);
    }
}

} // verus!
