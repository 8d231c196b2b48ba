//! Properties that relate several operations of the library.
use vstd::prelude::*;
use crate::answer::split_answer_text;
use crate::epubscan::archive::{detected_language, read_entry_spec};
use crate::epubscan::book::{section_for, sections_spec, spine_sections, toc_spec};
use crate::epubscan::package::{container_spec, manifest_index, opf_spec};
use crate::epubscan::paths::{join_slash, normalize_parts, normalize_step, normalize_path_spec, resolve_spec, split_pieces};
use crate::epubscan::package::OpfModel;
use crate::epubscan::xhtml::{
    appended, byte_spans, lemma_utf8_len_at_least_chars, render_events, render_from, render_start, render_step, utf8_len,
    Render,
};
use vstd::utf8::{encode_scalar, encode_utf8};
use crate::epubscan::xml::{xml_tokens, XmlEventView};
use crate::generation::{rolled_back_positions, rolled_back_tokens};
use crate::formatter::{thought_of, thought_split, DynamicFormatter, Formatter, Role};
use crate::oracle::{
    answered, cleared, fresh_core, generation_started, prompt_spec, prompted, released, rolled_back, saved, OracleCore,
};
use crate::text::{bounds_ok, find_from, is_trimmed, lemma_trim_is_trimmed, matches_at, split_reasoning, trim};

verus! {

// ---------------------------------------------------------------------------
// Reasoning blocks

/// A reasoning block at the start of a text, whose closing marker first occurs at
/// its end, followed by text without an opening marker, is split off whole: the
/// following text stays outside and the block's content is the thought.
pub proof fn lemma_split_reasoning_wrapped(a: Seq<char>, t: Seq<char>, b: Seq<char>, x: Seq<char>)
    requires
        bounds_ok(a, b),
        find_from(t + b + x, b, 0) == Some(t.len() as int),
        find_from(x, a, 0) is None,
    ensures
        split_reasoning(a + t + b + x, a, b) == (x, t),
{
    let s = a + t + b + x;
    assert(s.subrange(0, a.len() as int) =~= a);
    assert(matches_at(s, a, 0));
    assert(find_from(s, a, 0) == Some(0int));
    let u = s.subrange(a.len() as int, s.len() as int);
    assert(u =~= t + b + x);
    let rest = u.subrange((t.len() + b.len()) as int, u.len() as int);
    assert(rest =~= x);
    assert(split_reasoning(rest, a, b) == (rest, Seq::<char>::empty()));
    assert(s.subrange(0, 0) + rest =~= x);
    assert(u.subrange(0, t.len() as int) + Seq::<char>::empty() =~= t);
}

/// What a built-in formatter wraps as reasoning is recognised as reasoning again,
/// also when an answer follows it: splitting leaves the answer outside and gives
/// the trimmed content as the thought, so `strip_thought` gives back the answer
/// without markup and the content.  The closing marker must not occur earlier,
/// overlapping the content, and the answer must hold no opening marker.
pub proof fn law_wrapped_reasoning_is_split_back(f: DynamicFormatter, c: Seq<char>, x: Seq<char>)
    requires
        f.reasoning_bounds_text() matches Some((a, b)) && find_from(trim(c) + b + x, b, 0) == Some(
            trim(c).len() as int,
        ) && find_from(x, a, 0) is None,
    ensures
        thought_split(&f, f.wrap_reasoning_text(c) + x) == (x, trim(c)),
        split_answer_text(&f, f.wrap_reasoning_text(c) + x) == (trim(f.strip_tags_text(x)), thought_of(trim(c))),
{
    f.lemma_reasoning_bounds();
    let (a, b) = f.reasoning_bounds_text()->0;
    assert(f.wrap_reasoning_text(c) == a + trim(c) + b);
    lemma_split_reasoning_wrapped(a, trim(c), b, x);
}

// ---------------------------------------------------------------------------
// Turn sequencing

/// Rolling back to a snapshot reopens the turn that was open when it was taken,
/// whatever happened in between.
pub proof fn law_rollback_restores_saved_turn(core: OracleCore, later: OracleCore, pos: usize)
    ensures
        rolled_back(later, saved(core, pos)).active_turn == core.active_turn,
        saved(core, pos).pos == pos,
{
}

/// An `ask` (a generation with `reset`) leaves the context as it found it:
/// whatever the answer, releasing the reset point that starting the generation
/// took rolls the engine back to the position before the prompt and restores the
/// conversation state (open turn, freshness) from before the prompt.
pub proof fn law_ask_leaves_context_unchanged(core: OracleCore, pos: usize, complete: bool, think: bool)
    requires
        core.reset_point is None,
        !core.reset_fresh,
    ensures
        released(answered(generation_started(core, pos), complete, think, true)) == (Some(pos), core),
{
}

/// A `turn` (a generation without `reset`) keeps its exchange once it completes
/// without thinking: nothing is rolled back and no turn stays open.
pub proof fn law_completed_turn_keeps_exchange(core: OracleCore, pos: usize)
    ensures
        released(answered(generation_started(core, pos), true, false, false)) == (
            None::<usize>,
            OracleCore { is_fresh_context: false, active_turn: None, reset_point: None, reset_fresh: false, ..core },
        ),
{
}

/// Rolling back to a position saved earlier gives back the token sequence as it
/// was then, whatever tokens were added since.
pub proof fn law_rollback_restores_tokens(saved: Seq<i32>, added: Seq<i32>)
    ensures
        rolled_back_tokens(saved + added, saved.len() as int) == saved,
{
    if added.len() > 0 {
        assert((saved + added).take(saved.len() as int) =~= saved);
    } else {
        assert(saved + added =~= saved);
    }
}

/// After `clear`, a prompt renders exactly as the first prompt of a new
/// conversation, and leaves the same turn open.
pub proof fn law_clear_renders_like_new<F: Formatter>(f: &F, core: OracleCore, role: Role, text: Seq<char>)
    ensures
        prompt_spec(f, cleared(core), role, text) == prompt_spec(f, fresh_core(core.max_answer_tokens), role, text),
{
}

/// Once a prompt of `role` has been sent, a further prompt of the same role adds
/// just its text: no BOS, no delimiters.
pub proof fn law_open_turn_takes_text<F: Formatter>(f: &F, core: OracleCore, role: Role, t1: Seq<char>, t2: Seq<char>)
    ensures
        prompt_spec(f, prompted(f, core, role, t1), role, t2).0 == t2,
        prompted(f, prompted(f, core, role, t1), role, t2).active_turn == Some(role),
{
    let c1 = prompted(f, core, role, t1);
    assert(c1.active_turn == Some(role));
    assert(Seq::<char>::empty() + Seq::<char>::empty() + t2 =~= t2);
    assert(Seq::<char>::empty() + t2 =~= t2);
}

// ---------------------------------------------------------------------------
// Rendered text

/// The paragraph spans tile the text: they follow each other without gap or
/// overlap from its start to its end, each is non-empty, ends with a blank line,
/// and its content before the blank line is trimmed.
pub open spec fn spans_tile(text: Seq<char>, spans: Seq<(int, int)>) -> bool {
    &&& spans.len() == 0 ==> text.len() == 0
    &&& spans.len() > 0 ==> spans[0].0 == 0 && spans.last().1 == text.len()
    &&& forall|k: int| 0 <= k < spans.len() - 1 ==> #[trigger] spans[k].1 == spans[k + 1].0
    &&& forall|k: int| 0 <= k < spans.len() ==> 0 <= #[trigger] spans[k].0 && spans[k].0 + 2 < spans[k].1
        && spans[k].1 <= text.len() && text.subrange(spans[k].1 - 2, spans[k].1) == "\n\n"@
        && is_trimmed(text.subrange(spans[k].0, spans[k].1 - 2))
}

/// The pieces joined in order.
pub open spec fn joined(pieces: Seq<Seq<char>>) -> Seq<char>
    decreases pieces.len(),
{
    if pieces.len() == 0 {
        Seq::empty()
    } else {
        joined(pieces.drop_last()) + pieces.last()
    }
}

/// The pieces of `text` that the spans cut out, in order.
pub open spec fn span_pieces(text: Seq<char>, spans: Seq<(int, int)>) -> Seq<Seq<char>> {
    Seq::new(spans.len(), |k: int| text.subrange(spans[k].0, spans[k].1))
}

/// The first `k` paragraphs of a tiling, joined, are the text up to the end of the
/// last of them.
pub proof fn lemma_joined_prefix(text: Seq<char>, spans: Seq<(int, int)>, k: int)
    requires
        spans_tile(text, spans),
        0 < k <= spans.len(),
    ensures
        joined(span_pieces(text, spans).take(k)) == text.subrange(0, spans[k - 1].1),
    decreases k,
{
    let ps = span_pieces(text, spans).take(k);
    assert(ps.drop_last() =~= span_pieces(text, spans).take(k - 1));
    assert(ps.last() == text.subrange(spans[k - 1].0, spans[k - 1].1));
    assert(joined(ps) == joined(ps.drop_last()) + ps.last());
    assert(0 <= spans[k - 1].0 && spans[k - 1].0 + 2 < spans[k - 1].1 && spans[k - 1].1 <= text.len());
    if k == 1 {
        assert(span_pieces(text, spans).take(0) =~= Seq::<Seq<char>>::empty());
        assert(joined(Seq::<Seq<char>>::empty()) == Seq::<char>::empty());
        assert(spans[0].0 == 0);
        assert(Seq::<char>::empty() + text.subrange(0, spans[0].1) =~= text.subrange(0, spans[0].1));
    } else {
        lemma_joined_prefix(text, spans, k - 1);
        assert(spans[k - 2].1 == spans[k - 1].0);
        assert(text.subrange(0, spans[k - 2].1) + text.subrange(spans[k - 1].0, spans[k - 1].1)
            =~= text.subrange(0, spans[k - 1].1));
    }
}

/// The paragraphs of a tiling, joined in order, give the text back.
pub proof fn law_tiling_paragraphs_join_to_text(text: Seq<char>, spans: Seq<(int, int)>)
    requires
        spans_tile(text, spans),
    ensures
        joined(span_pieces(text, spans)) == text,
{
    if spans.len() == 0 {
        assert(span_pieces(text, spans) =~= Seq::<Seq<char>>::empty());
        assert(text =~= Seq::<char>::empty());
    } else {
        lemma_joined_prefix(text, spans, spans.len() as int);
        assert(span_pieces(text, spans).take(spans.len() as int) =~= span_pieces(text, spans));
        assert(text.subrange(0, text.len() as int) =~= text);
    }
}

/// Adding a paragraph keeps the spans tiling the text.
pub proof fn lemma_appended_tiles(text: Seq<char>, spans: Seq<(int, int)>, content: Seq<char>)
    requires
        spans_tile(text, spans),
    ensures
        spans_tile(appended(text, spans, content).0, appended(text, spans, content).1),
{
    let t = trim(content);
    lemma_trim_is_trimmed(content);
    if t.len() > 0 {
        reveal_strlit("\n\n");
        let nt = text + t + "\n\n"@;
        let ns = spans.push((text.len() as int, (text.len() + t.len() + 2) as int));
        assert(nt.len() == text.len() + t.len() + 2);
        assert forall|k: int| 0 <= k < ns.len() implies 0 <= #[trigger] ns[k].0 && ns[k].0 + 2 < ns[k].1
            && ns[k].1 <= nt.len() && nt.subrange(ns[k].1 - 2, ns[k].1) == "\n\n"@
            && is_trimmed(nt.subrange(ns[k].0, ns[k].1 - 2)) by {
            if k < spans.len() {
                assert(ns[k] == spans[k]);
                assert(0 <= spans[k].0 && spans[k].0 + 2 < spans[k].1 && spans[k].1 <= text.len());
                assert(nt.subrange(ns[k].1 - 2, ns[k].1) =~= text.subrange(spans[k].1 - 2, spans[k].1));
                assert(nt.subrange(ns[k].0, ns[k].1 - 2) =~= text.subrange(spans[k].0, spans[k].1 - 2));
            } else {
                assert(nt.subrange(ns[k].1 - 2, ns[k].1) =~= "\n\n"@);
                assert(nt.subrange(ns[k].0, ns[k].1 - 2) =~= t);
            }
        }
        assert forall|k: int| 0 <= k < ns.len() - 1 implies #[trigger] ns[k].1 == ns[k + 1].0 by {
            if k < spans.len() - 1 {
                assert(ns[k] == spans[k] && ns[k + 1] == spans[k + 1]);
            } else {
                assert(ns[k] == spans.last());
            }
        }
    }
}

/// One event keeps the paragraph spans tiling the text.
pub proof fn lemma_render_step_tiles(m: Render, e: XmlEventView)
    requires
        spans_tile(m.text, m.spans),
    ensures
        spans_tile(render_step(m, e).text, render_step(m, e).spans),
{
    lemma_appended_tiles(m.text, m.spans, m.current);
    lemma_appended_tiles(m.text, m.spans, "## "@ + trim(m.current));
}

/// The rest of the events keep the paragraph spans tiling the text.
pub proof fn lemma_render_from_tiles(events: Seq<XmlEventView>, i: nat, m: Render)
    requires
        spans_tile(m.text, m.spans),
    ensures
        spans_tile(render_from(events, i, m).text, render_from(events, i, m).spans),
    decreases events.len() - i,
{
    if i < events.len() && !(events[i as int] is Error) {
        lemma_render_step_tiles(m, events[i as int]);
        lemma_render_from_tiles(events, i + 1, render_step(m, events[i as int]));
    }
}

/// The rendered text is exactly its paragraphs one after the other: the spans
/// tile it, and each paragraph is non-empty, trimmed, and ends with a blank line.
pub proof fn law_rendered_paragraphs_tile_text(events: Seq<XmlEventView>)
    ensures
        spans_tile(render_events(events).text, render_events(events).spans),
{
    lemma_render_from_tiles(events, 0, render_start());
}

/// The UTF-8 encoding of a concatenation is the concatenation of the encodings.
pub proof fn lemma_encode_utf8_concat(a: Seq<char>, b: Seq<char>)
    ensures
        encode_utf8(a + b) == encode_utf8(a) + encode_utf8(b),
    decreases a.len(),
{
    if a.len() > 0 {
        assert((a + b).drop_first() =~= a.drop_first() + b);
        lemma_encode_utf8_concat(a.drop_first(), b);
        assert(encode_utf8(a + b) =~= encode_utf8(a) + encode_utf8(b));
    } else {
        assert(a + b =~= b);
        assert(encode_utf8(a) =~= Seq::<u8>::empty());
        assert(encode_utf8(a) + encode_utf8(b) =~= encode_utf8(b));
    }
}

/// A blank line is two newline bytes.
pub proof fn lemma_blank_line_bytes()
    ensures
        encode_utf8("\n\n"@) == seq![10u8, 10u8],
{
    reveal_strlit("\n\n");
    let s = "\n\n"@;
    assert(10u32 & 0x7Fu32 == 10u32) by (bit_vector);
    assert(s[0] as u32 == 10u32 && s[1] as u32 == 10u32);
    assert(encode_scalar(10u32) =~= seq![10u8]);
    assert(s.drop_first().drop_first() =~= Seq::<char>::empty());
    assert(encode_utf8(s.drop_first().drop_first()) =~= Seq::<u8>::empty());
    assert(encode_utf8(s.drop_first()) =~= seq![10u8]);
    assert(encode_utf8(s) =~= seq![10u8, 10u8]);
}

/// The bytes of a later prefix extend those of an earlier one by the bytes of the
/// characters between them.
pub proof fn lemma_utf8_take(text: Seq<char>, i: int, j: int)
    requires
        0 <= i <= j <= text.len(),
    ensures
        encode_utf8(text.take(j)) == encode_utf8(text.take(i)) + encode_utf8(text.subrange(i, j)),
        utf8_len(text.take(j)) - utf8_len(text.take(i)) >= j - i,
{
    assert(text.take(j) =~= text.take(i) + text.subrange(i, j));
    lemma_encode_utf8_concat(text.take(i), text.subrange(i, j));
    lemma_utf8_len_at_least_chars(text.subrange(i, j));
}

/// A paragraph `s..e` ending with a blank line, in bytes: it covers more than two
/// bytes of the encoded text and ends with two newline bytes.
#[verifier::spinoff_prover]
pub proof fn lemma_paragraph_bytes(text: Seq<char>, s: int, e: int)
    requires
        0 <= s,
        s + 2 < e <= text.len(),
        text.subrange(e - 2, e) == "\n\n"@,
    ensures
        utf8_len(text.take(s)) + 2 < utf8_len(text.take(e)),
        utf8_len(text.take(e)) <= encode_utf8(text).len(),
        encode_utf8(text).subrange(utf8_len(text.take(e)) - 2, utf8_len(text.take(e))) == seq![10u8, 10u8],
{
    let bytes = encode_utf8(text);
    lemma_utf8_take(text, s, e);
    lemma_utf8_take(text, e - 2, e);
    lemma_utf8_take(text, e, text.len() as int);
    lemma_blank_line_bytes();
    assert(text.take(text.len() as int) =~= text);
    let pre = encode_utf8(text.take(e - 2));
    assert(encode_utf8(text.take(e)) == pre + seq![10u8, 10u8]);
    assert(bytes == encode_utf8(text.take(e)) + encode_utf8(text.subrange(e, text.len() as int)));
    assert(bytes.subrange(utf8_len(text.take(e)) - 2, utf8_len(text.take(e))) =~= seq![10u8, 10u8]);
}

/// The rendered paragraphs tile the text also in UTF-8 bytes, as `parse_xhtml`
/// reports them: the byte spans run from 0 to the byte length of the text without
/// gap or overlap, each covers more than two bytes and ends with the two newline
/// bytes of a blank line.
#[verifier::spinoff_prover]
pub proof fn law_paragraph_bytes_tile_text(events: Seq<XmlEventView>)
    ensures
        ({
            let r = render_events(events);
            let bs = byte_spans(r.text, r.spans);
            let bytes = encode_utf8(r.text);
            &&& bs.len() == r.spans.len()
            &&& bs.len() == 0 ==> bytes.len() == 0
            &&& bs.len() > 0 ==> bs[0].0 == 0 && bs.last().1 == bytes.len()
            &&& forall|k: int| 0 <= k < bs.len() - 1 ==> #[trigger] bs[k].1 == bs[k + 1].0
            &&& forall|k: int| 0 <= k < bs.len() ==> #[trigger] bs[k].0 + 2 < bs[k].1 && bs[k].1 <= bytes.len()
                && bytes.subrange(bs[k].1 - 2, bs[k].1) == seq![10u8, 10u8]
        }),
{
    let r = render_events(events);
    law_rendered_paragraphs_tile_text(events);
    let bs = byte_spans(r.text, r.spans);
    assert(r.text.take(r.text.len() as int) =~= r.text);
    assert(r.text.take(0) =~= Seq::<char>::empty());
    assert(encode_utf8(Seq::<char>::empty()) =~= Seq::<u8>::empty());
    assert forall|k: int| 0 <= k < bs.len() implies #[trigger] bs[k].0 + 2 < bs[k].1 && bs[k].1 <= encode_utf8(
        r.text,
    ).len() && encode_utf8(r.text).subrange(bs[k].1 - 2, bs[k].1) == seq![10u8, 10u8] by {
        lemma_paragraph_bytes(r.text, r.spans[k].0, r.spans[k].1);
    }
    assert forall|k: int| 0 <= k < bs.len() - 1 implies #[trigger] bs[k].1 == bs[k + 1].0 by {
        assert(r.spans[k].1 == r.spans[k + 1].0);
    }
    if bs.len() == 0 {
        assert(r.text.len() == 0);
        assert(r.text =~= Seq::<char>::empty());
    }
}

// ---------------------------------------------------------------------------
// Books

/// The sections of the first `n` spine items have text, their paragraphs tile it,
/// and their language is the package's when it declares one, else the one detected
/// in their text.
pub proof fn lemma_spine_sections(archive: Seq<u8>, opf: OpfModel, toc: Seq<(Seq<char>, Seq<char>)>, n: nat)
    ensures
        forall|k: int| 0 <= k < spine_sections(archive, opf, toc, n).len() ==> {
            let s = #[trigger] spine_sections(archive, opf, toc, n)[k];
            &&& s.text.len() > 0
            &&& spans_tile(s.text, s.spans)
            &&& s.language == (if opf.language is Some { opf.language } else { detected_language(s.text) })
        },
    decreases n,
{
    if n > 0 && n <= opf.spine.len() {
        lemma_spine_sections(archive, opf, toc, (n - 1) as nat);
        let prev = spine_sections(archive, opf, toc, (n - 1) as nat);
        match section_for(archive, opf, toc, opf.spine[n - 1]) {
            Some(s) => {
                let i = manifest_index(opf.manifest, opf.spine[n - 1])->0;
                let path = resolve_spec(opf.opf_dir, opf.manifest[i].1);
                law_rendered_paragraphs_tile_text(xml_tokens(read_entry_spec(archive, path)->Ok_0, false));
                assert forall|k: int| 0 <= k < prev.push(s).len() implies {
                    let x = #[trigger] prev.push(s)[k];
                    &&& x.text.len() > 0
                    &&& spans_tile(x.text, x.spans)
                    &&& x.language == (if opf.language is Some { opf.language } else { detected_language(x.text) })
                } by {
                    if k < prev.len() {
                        assert(prev.push(s)[k] == prev[k]);
                    }
                }
            },
            None => {},
        }
    }
}

/// Every section of a book has text, the paragraphs of each tile its text, and
/// each carries the language the package declares, or else the language detected
/// in its text.
pub proof fn law_sections_are_nonempty_and_tiled(archive: Seq<u8>)
    ensures
        sections_spec(archive) matches Ok(v) ==> forall|k: int| 0 <= k < v.len() ==> {
            &&& (#[trigger] v[k]).text.len() > 0
            &&& spans_tile(v[k].text, v[k].spans)
            &&& v[k].language == (match opf_spec(archive, container_spec(archive)->Ok_0) {
                Ok(opf) => if opf.language is Some { opf.language } else { detected_language(v[k].text) },
                Err(_) => None,
            })
        },
{
    if let Ok(v) = sections_spec(archive) {
        let p = container_spec(archive)->Ok_0;
        let opf = opf_spec(archive, p)->Ok_0;
        let toc = toc_spec(archive, opf);
        lemma_spine_sections(archive, opf, toc, opf.spine.len());
        assert forall|k: int| 0 <= k < v.len() implies {
            &&& (#[trigger] v[k]).text.len() > 0
            &&& spans_tile(v[k].text, v[k].spans)
            &&& v[k].language == (match opf_spec(archive, container_spec(archive)->Ok_0) {
                Ok(opf) => if opf.language is Some { opf.language } else { detected_language(v[k].text) },
                Err(_) => None,
            })
        } by {
            assert(v[k] == spine_sections(archive, opf, toc, opf.spine.len())[k]);
        }
    }
}

// ---------------------------------------------------------------------------
// Archive paths

/// A component that survives normalisation unchanged: non-empty, not `.` or
/// `..`, and without `/`.
pub open spec fn plain_component(c: Seq<char>) -> bool {
    c.len() > 0 && c != "."@ && c != ".."@ && !c.contains('/')
}

/// Text without `/` extends the last piece of a split.
pub proof fn lemma_split_append_plain(x: Seq<char>, t: Seq<char>)
    requires
        !t.contains('/'),
    ensures
        split_pieces(x + t, '/') == split_pieces(x, '/').update(
            split_pieces(x, '/').len() - 1,
            split_pieces(x, '/').last() + t,
        ),
        split_pieces(x, '/').len() > 0,
    decreases t.len(),
{
    lemma_split_nonempty(x);
    if t.len() == 0 {
        assert(x + t =~= x);
        assert(split_pieces(x, '/').last() + t =~= split_pieces(x, '/').last());
        assert(split_pieces(x, '/').update(split_pieces(x, '/').len() - 1, split_pieces(x, '/').last())
            =~= split_pieces(x, '/'));
    } else {
        let t0 = t.drop_last();
        assert(!t0.contains('/')) by {
            if t0.contains('/') {
                let i = choose|i: int| 0 <= i < t0.len() && t0[i] == '/';
                assert(t[i] == '/');
            }
        }
        assert(t.last() != '/') by {
            assert(t[t.len() - 1] == t.last());
        }
        lemma_split_append_plain(x, t0);
        assert((x + t).drop_last() =~= x + t0);
        assert((x + t).last() == t.last());
        let sp = split_pieces(x, '/');
        let r0 = split_pieces(x + t0, '/');
        assert(r0.len() == sp.len());
        assert(split_pieces(x + t, '/') == r0.update(r0.len() - 1, r0.last().push(t.last())));
        assert(r0.last() == sp.last() + t0);
        assert(sp.last() + t0 + seq![t.last()] =~= sp.last() + t);
        let a = r0.update(r0.len() - 1, r0.last().push(t.last()));
        let b = sp.update(sp.len() - 1, sp.last() + t);
        assert forall|k: int| 0 <= k < a.len() implies a[k] == b[k] by {
            if k < a.len() - 1 {
                assert(r0[k] == sp[k]);
            } else {
                assert(r0[r0.len() - 1] == sp.last() + t0);
                assert(r0.last().push(t.last()) =~= sp.last() + t);
            }
        }
        assert(a =~= b);
    }
}

/// A split always has at least one piece.
pub proof fn lemma_split_nonempty(x: Seq<char>)
    ensures
        split_pieces(x, '/').len() > 0,
    decreases x.len(),
{
    if x.len() > 0 {
        lemma_split_nonempty(x.drop_last());
    }
}

/// Splitting components joined with `/` gives them back, when none holds `/`.
pub proof fn lemma_split_join(parts: Seq<Seq<char>>)
    requires
        parts.len() > 0,
        forall|k: int| 0 <= k < parts.len() ==> !(#[trigger] parts[k]).contains('/'),
    ensures
        split_pieces(join_slash(parts), '/') == parts,
    decreases parts.len(),
{
    if parts.len() == 1 {
        lemma_split_append_plain(Seq::empty(), parts[0]);
        assert(Seq::<char>::empty() + parts[0] =~= parts[0]);
        assert(split_pieces(Seq::<char>::empty(), '/') =~= seq![Seq::<char>::empty()]);
        assert(Seq::<char>::empty() + parts[0] =~= parts[0]);
        assert(seq![Seq::<char>::empty()].update(0, Seq::<char>::empty() + parts[0]) =~= parts);
    } else {
        let dl = parts.drop_last();
        assert forall|k: int| 0 <= k < dl.len() implies !(#[trigger] dl[k]).contains('/') by {
            assert(dl[k] == parts[k]);
        }
        lemma_split_join(dl);
        let x = join_slash(dl) + seq!['/'];
        assert(x.drop_last() =~= join_slash(dl));
        assert(x.last() == '/');
        assert(split_pieces(x, '/') == split_pieces(join_slash(dl), '/').push(Seq::empty()));
        assert(!parts.last().contains('/')) by {
            assert(parts[parts.len() - 1] == parts.last());
        }
        lemma_split_append_plain(x, parts.last());
        assert(join_slash(parts) == x + parts.last());
        assert(Seq::<char>::empty() + parts.last() =~= parts.last());
        assert(dl.push(Seq::empty()).update(dl.len() as int, Seq::<char>::empty() + parts.last()) =~= parts);
    }
}

/// Folding plain components keeps them all.
pub proof fn lemma_normalize_plain(parts: Seq<Seq<char>>)
    requires
        forall|k: int| 0 <= k < parts.len() ==> plain_component(#[trigger] parts[k]),
    ensures
        normalize_parts(parts) == parts,
    decreases parts.len(),
{
    if parts.len() > 0 {
        let dl = parts.drop_last();
        assert forall|k: int| 0 <= k < dl.len() implies plain_component(#[trigger] dl[k]) by {
            assert(dl[k] == parts[k]);
        }
        lemma_normalize_plain(dl);
        assert(plain_component(parts[parts.len() - 1]));
        assert(dl.push(parts.last()) =~= parts);
    }
}

/// The pieces of a split hold no separator.
pub proof fn lemma_split_pieces_plain(s: Seq<char>)
    ensures
        forall|k: int| 0 <= k < split_pieces(s, '/').len() ==> !(#[trigger] split_pieces(s, '/')[k]).contains('/'),
    decreases s.len(),
{
    if s.len() > 0 {
        lemma_split_pieces_plain(s.drop_last());
        let rest = split_pieces(s.drop_last(), '/');
        lemma_split_nonempty(s.drop_last());
        if s.last() != '/' {
            let nl = rest.last().push(s.last());
            assert(!nl.contains('/')) by {
                if nl.contains('/') {
                    let i = choose|i: int| 0 <= i < nl.len() && nl[i] == '/';
                    if i < rest.last().len() {
                        assert(rest[rest.len() - 1] == rest.last());
                        assert(rest.last()[i] == '/');
                    }
                }
            }
            assert forall|k: int| 0 <= k < split_pieces(s, '/').len() implies !(#[trigger] split_pieces(s, '/')[k]).contains('/') by {
                if k < rest.len() - 1 {
                    assert(split_pieces(s, '/')[k] == rest[k]);
                }
            }
        } else {
            assert forall|k: int| 0 <= k < split_pieces(s, '/').len() implies !(#[trigger] split_pieces(s, '/')[k]).contains('/') by {
                if k < rest.len() {
                    assert(split_pieces(s, '/')[k] == rest[k]);
                } else {
                    assert(split_pieces(s, '/')[k] =~= Seq::<char>::empty());
                }
            }
        }
    }
}

/// Folding components without separators leaves only plain components.
pub proof fn lemma_normalize_gives_plain(comps: Seq<Seq<char>>)
    requires
        forall|k: int| 0 <= k < comps.len() ==> !(#[trigger] comps[k]).contains('/'),
    ensures
        forall|k: int| 0 <= k < normalize_parts(comps).len() ==> plain_component(#[trigger] normalize_parts(comps)[k]),
    decreases comps.len(),
{
    if comps.len() > 0 {
        let dl = comps.drop_last();
        assert forall|k: int| 0 <= k < dl.len() implies !(#[trigger] dl[k]).contains('/') by {
            assert(dl[k] == comps[k]);
        }
        lemma_normalize_gives_plain(dl);
        assert(!comps.last().contains('/')) by {
            assert(comps[comps.len() - 1] == comps.last());
        }
        let acc = normalize_parts(dl);
        assert forall|k: int| 0 <= k < normalize_parts(comps).len() implies plain_component(#[trigger] normalize_parts(comps)[k]) by {
            if k < acc.len() {
                assert(normalize_parts(comps)[k] == acc[k]);
            }
        }
    }
}

/// Normalising an archive path twice gives the same path as normalising it once.
pub proof fn law_normalize_path_idempotent(path: Seq<char>)
    ensures
        normalize_path_spec(normalize_path_spec(path)) == normalize_path_spec(path),
{
    let parts = normalize_parts(split_pieces(path, '/'));
    lemma_split_pieces_plain(path);
    lemma_normalize_gives_plain(split_pieces(path, '/'));
    if parts.len() == 0 {
        assert(join_slash(parts) =~= Seq::<char>::empty());
        assert(split_pieces(Seq::<char>::empty(), '/') =~= seq![Seq::<char>::empty()]);
        assert(normalize_parts(seq![Seq::<char>::empty()]) =~= Seq::<Seq<char>>::empty()) by {
            reveal_strlit("..");
            reveal_strlit(".");
            let c = seq![Seq::<char>::empty()];
            assert(c.drop_last() =~= Seq::<Seq<char>>::empty());
            assert(normalize_parts(c.drop_last()) =~= Seq::<Seq<char>>::empty());
            assert(c.last() =~= Seq::<char>::empty());
            assert(Seq::<char>::empty() != ".."@);
            assert(normalize_step(Seq::<Seq<char>>::empty(), Seq::<char>::empty()) =~= Seq::<Seq<char>>::empty());
        }
    } else {
        assert forall|k: int| 0 <= k < parts.len() implies !(#[trigger] parts[k]).contains('/') by {
            assert(plain_component(parts[k]));
        }
        lemma_split_join(parts);
        lemma_normalize_plain(parts);
    }
}

} // verus!
