//! Laws on model markup: `strip_tags` takes off the turn delimiters (and, for
//! Gemma, the tool calls and tool responses) that the formatter itself writes,
//! from any text that holds none of the model's markup strings.
use vstd::prelude::*;
use crate::formatter::{Formatter, Role};
use crate::models::gemma4::{gemma_tags, Gemma4Flavor, GemmaFormatter};
use crate::models::phi4::{phi4_tags, Phi4Formatter};
use crate::text::{
    find_from, is_ws, lemma_find_from, lemma_trim_end_shape, lemma_trim_start_shape, matches_at, remove_blocks, remove_each,
    trim_end,
    replace_all, replace_from, trim, trim_start,
};

verus! {

// ---------------------------------------------------------------------------
// Occurrences

/// `q` occurs nowhere in `s`.
pub open spec fn absent(s: Seq<char>, q: Seq<char>) -> bool {
    forall|i: int| !#[trigger] matches_at(s, q, i)
}

/// `s` holds no `<`.
pub open spec fn lt_free(s: Seq<char>) -> bool {
    forall|i: int| 0 <= i < s.len() ==> s[i] != '<'
}

/// `s` starts with `<` and holds no other `<`.
pub open spec fn one_lt(s: Seq<char>) -> bool {
    s.len() > 0 && s[0] == '<' && forall|i: int| 1 <= i < s.len() ==> s[i] != '<'
}

/// Markup that opens with its only `<` and holds no brace.
pub open spec fn plain_markup(q: Seq<char>) -> bool {
    &&& one_lt(q)
    &&& forall|j: int| 1 <= j < q.len() ==> q[j] != '{' && q[j] != '}'
}

/// Every markup string of Gemma: the tags that `strip_tags` removes one by one,
/// then the delimiters of tool-call and tool-response blocks.
pub open spec fn gemma_markup() -> Seq<Seq<char>> {
    gemma_tags() + seq!["<|tool_call>"@, "<tool_call|>"@, "<|tool_response>"@, "<tool_response|>"@]
}

/// `s` holds none of Gemma's markup strings.
pub open spec fn markup_free(s: Seq<char>) -> bool {
    forall|k: int| 0 <= k < gemma_markup().len() ==> absent(s, #[trigger] gemma_markup()[k])
}

/// The Gemma markup strings: sixteen plain markup strings, the first twelve the
/// tags, all but two of which are longer than eight characters.
pub proof fn lemma_gemma_markup_shape()
    ensures
        gemma_tags().len() == 12,
        gemma_markup().len() == 16,
        forall|k: int| 0 <= k < 12 ==> #[trigger] gemma_markup()[k] == gemma_tags()[k],
        forall|k: int| 0 <= k < 16 ==> plain_markup(#[trigger] gemma_markup()[k]),
        forall|k: int| 0 <= k < 12 ==> plain_markup(#[trigger] gemma_tags()[k]),
        forall|k: int| 0 <= k < 12 && k != 5 && k != 6 ==> (#[trigger] gemma_tags()[k]).len() > 8,
        gemma_markup()[12] == "<|tool_call>"@,
        gemma_markup()[13] == "<tool_call|>"@,
        gemma_markup()[14] == "<|tool_response>"@,
        gemma_markup()[15] == "<tool_response|>"@,
{
    reveal_strlit("<|begin_of_text|>");
    reveal_strlit("<|end_of_text|>");
    reveal_strlit("<|turn>user\n");
    reveal_strlit("<|turn>model\n");
    reveal_strlit("<|turn>system\n");
    reveal_strlit("<turn|>\n");
    reveal_strlit("<turn|>");
    reveal_strlit("<|channel>thought\n");
    reveal_strlit("<|channel>code\n");
    reveal_strlit("<|channel>custom\n");
    reveal_strlit("<channel|>\n");
    reveal_strlit("<channel|>");
    reveal_strlit("<|tool_call>");
    reveal_strlit("<tool_call|>");
    reveal_strlit("<|tool_response>");
    reveal_strlit("<tool_response|>");
    assert forall|k: int| 0 <= k < 12 implies #[trigger] gemma_markup()[k] == gemma_tags()[k] by {}
}

/// A match of a pattern starting with `<` sits on a `<`.
pub proof fn lemma_match_on_lt(x: Seq<char>, q: Seq<char>, i: int)
    requires
        q.len() > 0,
        q[0] == '<',
        matches_at(x, q, i),
    ensures
        x[i] == '<',
{
    assert(x.subrange(i, i + q.len())[0] == q[0]);
}

/// A match in the second part of a concatenation is a match in that part.
pub proof fn lemma_match_shift(u: Seq<char>, w: Seq<char>, q: Seq<char>, i: int)
    requires
        i >= u.len(),
    ensures
        matches_at(u + w, q, i) == matches_at(w, q, i - u.len()),
{
    if matches_at(u + w, q, i) {
        assert((u + w).subrange(i, i + q.len()) =~= w.subrange(i - u.len(), i - u.len() + q.len()));
    }
    if matches_at(w, q, i - u.len()) {
        assert((u + w).subrange(i, i + q.len()) =~= w.subrange(i - u.len(), i - u.len() + q.len()));
    }
}

/// No match starts in `a` of `a + b` when `q` holds nowhere but at its start the
/// first character of `b`, and does not occur in `a`.
pub proof fn lemma_no_start_in(a: Seq<char>, b: Seq<char>, q: Seq<char>, i: int)
    requires
        absent(a, q),
        b.len() > 0,
        forall|j: int| 1 <= j < q.len() ==> q[j] != b[0],
        0 <= i < a.len(),
    ensures
        !matches_at(a + b, q, i),
{
    if matches_at(a + b, q, i) {
        if i + q.len() <= a.len() {
            assert((a + b).subrange(i, i + q.len()) =~= a.subrange(i, i + q.len()));
            assert(matches_at(a, q, i));
        } else {
            let j = a.len() - i;
            assert((a + b).subrange(i, i + q.len())[j] == (a + b)[a.len() as int]);
        }
    }
}

/// A pattern absent from both parts is absent from `a + b` when it cannot run
/// across the first character of `b`.
pub proof fn lemma_absent_concat(a: Seq<char>, b: Seq<char>, q: Seq<char>)
    requires
        absent(a, q),
        absent(b, q),
        b.len() > 0,
        forall|j: int| 1 <= j < q.len() ==> q[j] != b[0],
    ensures
        absent(a + b, q),
{
    assert forall|i: int| !#[trigger] matches_at(a + b, q, i) by {
        if 0 <= i < a.len() {
            lemma_no_start_in(a, b, q, i);
        } else if i >= a.len() {
            lemma_match_shift(a, b, q, i);
            assert(!matches_at(b, q, i - a.len()));
        }
    }
}

/// Text without `<` holds no markup.
pub proof fn lemma_lt_free_absent(a: Seq<char>, q: Seq<char>)
    requires
        lt_free(a),
        q.len() > 0,
        q[0] == '<',
    ensures
        absent(a, q),
{
    assert forall|i: int| !#[trigger] matches_at(a, q, i) by {
        if matches_at(a, q, i) {
            lemma_match_on_lt(a, q, i);
        }
    }
}

/// Prefixing text without `<` adds no occurrence of markup.
pub proof fn lemma_absent_after_plain(a: Seq<char>, b: Seq<char>, q: Seq<char>)
    requires
        lt_free(a),
        absent(b, q),
        q.len() > 0,
        q[0] == '<',
    ensures
        absent(a + b, q),
{
    assert forall|i: int| !#[trigger] matches_at(a + b, q, i) by {
        if matches_at(a + b, q, i) {
            lemma_match_on_lt(a + b, q, i);
            if 0 <= i < a.len() {
                assert((a + b)[i] == a[i]);
            } else {
                lemma_match_shift(a, b, q, i);
            }
        }
    }
}

/// Prefixing a literal that starts with `<` and differs from `q` at `m` adds no
/// occurrence of `q`.
pub proof fn lemma_absent_after_head(p: Seq<char>, y: Seq<char>, q: Seq<char>, m: int)
    requires
        one_lt(p),
        q.len() > 0,
        q[0] == '<',
        0 <= m < p.len(),
        m < q.len(),
        p[m] != q[m],
        absent(y, q),
    ensures
        absent(p + y, q),
{
    assert forall|i: int| !#[trigger] matches_at(p + y, q, i) by {
        if matches_at(p + y, q, i) {
            lemma_match_on_lt(p + y, q, i);
            if i == 0 {
                assert((p + y).subrange(0, q.len() as int)[m] == p[m]);
            } else if 0 < i < p.len() {
                assert((p + y)[i] == p[i]);
            } else {
                lemma_match_shift(p, y, q, i);
            }
        }
    }
}

/// A part of a text holds no markup the text does not hold.
pub proof fn lemma_absent_subrange(a: Seq<char>, s: int, e: int, q: Seq<char>)
    requires
        absent(a, q),
        0 <= s <= e <= a.len(),
    ensures
        absent(a.subrange(s, e), q),
{
    assert forall|i: int| !#[trigger] matches_at(a.subrange(s, e), q, i) by {
        if matches_at(a.subrange(s, e), q, i) {
            assert(a.subrange(s, e).subrange(i, i + q.len()) =~= a.subrange(s + i, s + i + q.len()));
            assert(matches_at(a, q, s + i));
        }
    }
}

/// Trimming keeps markup out.
pub proof fn lemma_absent_trim(a: Seq<char>, q: Seq<char>)
    requires
        absent(a, q),
    ensures
        absent(trim(a), q),
{
    lemma_trim_start_shape(a);
    let u = trim_start(a);
    lemma_trim_end_shape(u);
    let off = a.len() - u.len();
    assert(trim(a) =~= a.subrange(off, off + trim(a).len()));
    lemma_absent_subrange(a, off, off + trim(a).len(), q);
}

/// The middle of a tool block, `n + lo + t + lc` with `lo` opening and `lc`
/// closing braces, holds no plain markup that `n` and `t` do not hold.
pub proof fn lemma_absent_middle(n: Seq<char>, lo: Seq<char>, t: Seq<char>, lc: Seq<char>, q: Seq<char>)
    requires
        plain_markup(q),
        absent(n, q),
        absent(t, q),
        lt_free(lo),
        lo.len() > 0,
        lo[0] == '{',
        lt_free(lc),
        lc.len() > 0,
        lc[0] == '}',
    ensures
        absent(n + lo + t + lc, q),
{
    lemma_lt_free_absent(lc, q);
    lemma_absent_concat(t, lc, q);
    lemma_absent_after_plain(lo, t + lc, q);
    lemma_absent_concat(n, lo + (t + lc), q);
    assert(n + (lo + (t + lc)) =~= n + lo + t + lc);
}

// ---------------------------------------------------------------------------
// Replacing and removing

/// Replacing a pattern that occurs nowhere changes nothing.
pub proof fn lemma_replace_none(x: Seq<char>, q: Seq<char>)
    requires
        q.len() > 0,
        absent(x, q),
    ensures
        replace_all(x, q, Seq::empty()) == x,
{
    lemma_find_from(x, q, 0);
    assert(x.subrange(0, x.len() as int) =~= x);
}

/// Replacing a pattern that occurs exactly once, at `k`, by nothing cuts it out.
pub proof fn lemma_replace_one(x: Seq<char>, q: Seq<char>, k: int)
    requires
        q.len() > 0,
        matches_at(x, q, k),
        forall|i: int| i != k ==> !#[trigger] matches_at(x, q, i),
    ensures
        replace_all(x, q, Seq::empty()) == x.subrange(0, k) + x.subrange(k + q.len(), x.len() as int),
{
    lemma_find_from(x, q, 0);
    lemma_find_from(x, q, k + q.len());
    let rest = replace_from(x, q, Seq::empty(), k + q.len());
    assert(rest == x.subrange(k + q.len(), x.len() as int));
    assert(replace_all(x, q, Seq::empty()) =~= x.subrange(0, k) + Seq::<char>::empty() + rest);
}

/// Patterns that occur nowhere are removed without change.
pub proof fn lemma_remove_each_absent(x: Seq<char>, ps: Seq<Seq<char>>)
    requires
        forall|k: int| 0 <= k < ps.len() ==> (#[trigger] ps[k]).len() > 0 && absent(x, ps[k]),
    ensures
        remove_each(x, ps) == x,
    decreases ps.len(),
{
    if ps.len() > 0 {
        assert(ps[0].len() > 0 && absent(x, ps[0]));
        lemma_replace_none(x, ps[0]);
        let rest = ps.drop_first();
        assert forall|k: int| 0 <= k < rest.len() implies (#[trigger] rest[k]).len() > 0 && absent(x, rest[k]) by {
            assert(rest[k] == ps[k + 1]);
        }
        lemma_remove_each_absent(x, rest);
    }
}

/// Blocks whose opening does not occur are not there to remove.
pub proof fn lemma_remove_blocks_absent(y: Seq<char>, open: Seq<char>, close: Seq<char>)
    requires
        absent(y, open),
    ensures
        remove_blocks(y, open, close) == y,
{
    lemma_find_from(y, open, 0);
}

/// The first occurrence of a pattern from `k` on is at `j` when it occurs at `j`
/// and nowhere in `k..j`.
pub proof fn lemma_find_is(s: Seq<char>, pat: Seq<char>, k: int, j: int)
    requires
        0 <= k <= j,
        matches_at(s, pat, j),
        forall|i: int| k <= i < j ==> !#[trigger] matches_at(s, pat, i),
    ensures
        find_from(s, pat, k) == Some(j),
{
    lemma_find_from(s, pat, k);
}

/// Removing the block `p + m + q` (opened by `open` at the start of `p`, closed
/// by `q`) from `c + p + m + q` leaves `c`, when `c` holds no opening, `m` no
/// closing, and `p` differs from the closing at its second character.
pub proof fn lemma_remove_block(
    c: Seq<char>,
    p: Seq<char>,
    m: Seq<char>,
    q: Seq<char>,
    open: Seq<char>,
)
    requires
        absent(c, open),
        absent(m, q),
        one_lt(p),
        plain_markup(open),
        plain_markup(q),
        q.len() >= 2,
        p.len() >= open.len(),
        p.len() >= 2,
        p.subrange(0, open.len() as int) == open,
        p[1] != q[1],
    ensures
        remove_blocks(c + p + m + q, open, q) == c,
{
    let x = c + p + m + q;
    let s1 = c.len() as int;
    let s2 = (c.len() + p.len() + m.len()) as int;
    assert(x =~= c + (p + m + q));
    assert(x.subrange(s1, s1 + open.len()) =~= open);
    assert forall|i: int| 0 <= i < s1 implies !#[trigger] matches_at(x, open, i) by {
        lemma_no_start_in(c, p + m + q, open, i);
    }
    lemma_find_is(x, open, 0, s1);
    assert(x.subrange(s2, s2 + q.len()) =~= q);
    assert forall|i: int| s1 <= i < s2 implies !#[trigger] matches_at(x, q, i) by {
        if matches_at(x, q, i) {
            lemma_match_on_lt(x, q, i);
            if i == s1 {
                assert(x.subrange(i, i + q.len())[1] == p[1]);
            } else if s1 < i < s1 + p.len() {
                assert(x[i] == p[i - s1]);
            } else {
                assert(x =~= (c + p) + (m + q));
                lemma_match_shift(c + p, m + q, q, i);
                lemma_no_start_in(m, q, q, i - s1 - p.len());
            }
        }
    }
    lemma_find_is(x, q, s1, s2);
    assert(x.subrange(0, s1) + x.subrange(s2 + q.len(), x.len() as int) =~= c);
    lemma_remove_blocks_absent(c, open, q);
}

// ---------------------------------------------------------------------------
// Turn delimiters

/// The text while the Gemma tags `0..k` have been removed from a turn
/// `tags[s] + c + "<turn|>\n"`.
pub open spec fn turn_stage(s: int, c: Seq<char>, k: int) -> Seq<char> {
    if k <= s {
        gemma_tags()[s] + c + gemma_tags()[5]
    } else if k <= 5 {
        c + gemma_tags()[5]
    } else {
        c
    }
}

/// No tag but the end delimiter itself occurs in `c + "<turn|>\n"`, for a tag
/// that starts with `<|`.
pub proof fn lemma_turn_end_absent(c: Seq<char>, k: int)
    requires
        markup_free(c),
        0 <= k < 5,
    ensures
        absent(c + gemma_tags()[5], gemma_tags()[k]),
{
    lemma_gemma_markup_shape();
    reveal_strlit("<|begin_of_text|>");
    reveal_strlit("<|end_of_text|>");
    reveal_strlit("<|turn>user\n");
    reveal_strlit("<|turn>model\n");
    reveal_strlit("<|turn>system\n");
    reveal_strlit("<turn|>\n");
    let q = gemma_tags()[k];
    let e = gemma_tags()[5];
    assert(absent(c, gemma_markup()[k]));
    lemma_absent_after_head(e, Seq::<char>::empty(), q, 1);
    assert(e + Seq::<char>::empty() =~= e);
    lemma_absent_concat(c, e, q);
}

/// Removing Gemma tag `k` takes a turn from stage `k` to stage `k + 1`.
pub proof fn lemma_turn_step(s: int, c: Seq<char>, k: int)
    requires
        2 <= s <= 4,
        0 <= k < 12,
        markup_free(c),
    ensures
        replace_all(turn_stage(s, c, k), gemma_tags()[k], Seq::empty()) == turn_stage(s, c, k + 1),
{
    lemma_gemma_markup_shape();
    reveal_strlit("<|begin_of_text|>");
    reveal_strlit("<|end_of_text|>");
    reveal_strlit("<|turn>user\n");
    reveal_strlit("<|turn>model\n");
    reveal_strlit("<|turn>system\n");
    reveal_strlit("<turn|>\n");
    let ts = gemma_tags();
    let q = ts[k];
    let st = ts[s];
    let e = ts[5];
    if k < s {
        let m: int = if k < 2 { 2 } else { 7 };
        lemma_turn_end_absent(c, k);
        lemma_absent_after_head(st, c + e, q, m);
        assert(st + (c + e) =~= st + c + e);
        lemma_replace_none(st + c + e, q);
    } else if k == s {
        let x = st + c + e;
        lemma_turn_end_absent(c, k);
        assert(x.subrange(0, q.len() as int) =~= q);
        assert forall|i: int| i != 0 implies !#[trigger] matches_at(x, q, i) by {
            if matches_at(x, q, i) {
                lemma_match_on_lt(x, q, i);
                if 0 < i < st.len() {
                    assert(x[i] == st[i]);
                } else if i >= st.len() {
                    assert(x =~= st + (c + e));
                    lemma_match_shift(st, c + e, q, i);
                }
            }
        }
        lemma_replace_one(x, q, 0);
        assert(x.subrange(0, 0) + x.subrange(q.len() as int, x.len() as int) =~= c + e);
    } else if k < 5 {
        lemma_turn_end_absent(c, k);
        lemma_replace_none(c + e, q);
    } else if k == 5 {
        let x = c + e;
        assert(x.subrange(c.len() as int, (c.len() + q.len()) as int) =~= q);
        assert forall|i: int| i != c.len() implies !#[trigger] matches_at(x, q, i) by {
            if matches_at(x, q, i) {
                lemma_match_on_lt(x, q, i);
                if 0 <= i < c.len() {
                    assert(absent(c, gemma_markup()[5]));
                    lemma_no_start_in(c, e, q, i);
                } else if i > c.len() {
                    assert(x[i] == e[i - c.len()]);
                }
            }
        }
        lemma_replace_one(x, q, c.len() as int);
        assert(x.subrange(0, c.len() as int) + x.subrange((c.len() + q.len()) as int, x.len() as int) =~= c);
    } else {
        assert(absent(c, gemma_markup()[k]));
        lemma_replace_none(c, q);
    }
}

/// Removing the Gemma tags `k..` from a turn at stage `k` leaves its content.
pub proof fn lemma_turn_rest(s: int, c: Seq<char>, k: int)
    requires
        2 <= s <= 4,
        0 <= k <= 12,
        markup_free(c),
    ensures
        remove_each(turn_stage(s, c, k), gemma_tags().subrange(k, 12)) == c,
    decreases 12 - k,
{
    lemma_gemma_markup_shape();
    if k < 12 {
        let ps = gemma_tags().subrange(k, 12);
        assert(ps[0] == gemma_tags()[k]);
        assert(ps.drop_first() =~= gemma_tags().subrange(k + 1, 12));
        lemma_turn_step(s, c, k);
        lemma_turn_rest(s, c, k + 1);
    } else {
        assert(turn_stage(s, c, 12) == c);
    }
}

/// Gemma's `strip_tags` takes its own turn delimiters off a turn whose content
/// holds none of Gemma's markup strings, leaving the trimmed content.
pub proof fn law_gemma_strips_turn_delimiters(f: GemmaFormatter, r: Role, c: Seq<char>)
    requires
        markup_free(c),
    ensures
        f.strip_tags_text(f.turn_start_text(r) + c + f.turn_end_text(r)) == trim(c),
{
    lemma_gemma_markup_shape();
    reveal_strlit("<|turn>user\n");
    reveal_strlit("<|turn>model\n");
    reveal_strlit("<|turn>system\n");
    reveal_strlit("<turn|>\n");
    let s: int = match r {
        Role::User => 2,
        Role::Assistant => 3,
        Role::System => 4,
    };
    assert(f.turn_start_text(r) + c + f.turn_end_text(r) == turn_stage(s, c, 0));
    lemma_turn_rest(s, c, 0);
    assert(gemma_tags().subrange(0, 12) =~= gemma_tags());
    assert(absent(c, gemma_markup()[12]));
    assert(absent(c, gemma_markup()[14]));
    lemma_remove_blocks_absent(c, "<|tool_call>"@, "<tool_call|>"@);
    lemma_remove_blocks_absent(c, "<|tool_response>"@, "<tool_response|>"@);
}

// ---------------------------------------------------------------------------
// Tool blocks

/// No Gemma tag, nor the markup `q0`, occurs in a tool block `c + p + m + q`
/// whose opening `p` starts with `<|to` and whose closing `q` starts with `<to`,
/// when `c` and `m` hold neither.
pub proof fn lemma_tool_block_absent(c: Seq<char>, p: Seq<char>, m: Seq<char>, q: Seq<char>, pat: Seq<char>, m1: int, m2: int)
    requires
        plain_markup(pat),
        absent(c, pat),
        absent(m, pat),
        one_lt(p),
        one_lt(q),
        0 <= m1 < p.len(),
        m1 < pat.len(),
        p[m1] != pat[m1],
        0 <= m2 < q.len(),
        m2 < pat.len(),
        q[m2] != pat[m2],
    ensures
        absent(c + p + m + q, pat),
{
    lemma_absent_after_head(q, Seq::<char>::empty(), pat, m2);
    assert(q + Seq::<char>::empty() =~= q);
    lemma_absent_concat(m, q, pat);
    lemma_absent_after_head(p, m + q, pat, m1);
    lemma_absent_concat(c, p + (m + q), pat);
    assert(c + (p + (m + q)) =~= c + p + m + q);
}

/// No Gemma tag occurs in such a tool block.
pub proof fn lemma_tool_block_has_no_tag(c: Seq<char>, p: Seq<char>, m: Seq<char>, q: Seq<char>)
    requires
        markup_free(c),
        forall|k: int| 0 <= k < 12 ==> absent(m, #[trigger] gemma_tags()[k]),
        one_lt(p),
        one_lt(q),
        p.len() >= 4,
        q.len() >= 3,
        p.subrange(0, 4) == "<|to"@,
        q.subrange(0, 3) == "<to"@,
    ensures
        remove_each(c + p + m + q, gemma_tags()) == c + p + m + q,
{
    reveal_strlit("<|to");
    reveal_strlit("<to");
    reveal_strlit("<|begin_of_text|>");
    reveal_strlit("<|end_of_text|>");
    reveal_strlit("<|turn>user\n");
    reveal_strlit("<|turn>model\n");
    reveal_strlit("<|turn>system\n");
    reveal_strlit("<turn|>\n");
    reveal_strlit("<turn|>");
    reveal_strlit("<|channel>thought\n");
    reveal_strlit("<|channel>code\n");
    reveal_strlit("<|channel>custom\n");
    reveal_strlit("<channel|>\n");
    reveal_strlit("<channel|>");
    lemma_gemma_markup_shape();
    let ts = gemma_tags();
    let x = c + p + m + q;
    assert(p.subrange(0, 4)[1] == p[1] && p.subrange(0, 4)[2] == p[2] && p.subrange(0, 4)[3] == p[3]);
    assert(q.subrange(0, 3)[1] == q[1] && q.subrange(0, 3)[2] == q[2]);
    assert(p[1] == '|' && p[2] == 't' && p[3] == 'o');
    assert(q[1] == 't' && q[2] == 'o');
    assert forall|k: int| 0 <= k < ts.len() implies (#[trigger] ts[k]).len() > 0 && absent(x, ts[k]) by {
        let pat = ts[k];
        let m1: int = if k == 5 || k == 6 || k == 10 || k == 11 { 1 } else if 2 <= k <= 4 { 3 } else { 2 };
        let m2: int = if k == 5 || k == 6 { 2 } else { 1 };
        assert(absent(c, gemma_markup()[k]));
        lemma_tool_block_absent(c, p, m, q, pat, m1, m2);
    }
    lemma_remove_each_absent(x, ts);
}

/// A text holding no Gemma markup keeps holding none when trimmed.
pub proof fn lemma_markup_free_trim(a: Seq<char>)
    requires
        markup_free(a),
    ensures
        markup_free(trim(a)),
{
    assert forall|k: int| 0 <= k < gemma_markup().len() implies absent(trim(a), #[trigger] gemma_markup()[k]) by {
        lemma_absent_trim(a, gemma_markup()[k]);
    }
}

/// The middle `n + lo + t + lc` of a tool block holds none of the markup.
pub proof fn lemma_middle_markup_free(n: Seq<char>, lo: Seq<char>, t: Seq<char>, lc: Seq<char>)
    requires
        markup_free(n),
        markup_free(t),
        lt_free(lo),
        lo.len() > 0,
        lo[0] == '{',
        lt_free(lc),
        lc.len() > 0,
        lc[0] == '}',
    ensures
        markup_free(n + lo + t + lc),
{
    lemma_gemma_markup_shape();
    assert forall|k: int| 0 <= k < gemma_markup().len() implies absent(n + lo + t + lc, #[trigger] gemma_markup()[k]) by {
        lemma_absent_middle(n, lo, t, lc, gemma_markup()[k]);
    }
}

/// Gemma's `strip_tags` takes a tool call the formatter wrote off the text before
/// it, leaving that text trimmed, when the text, the tool name and the arguments
/// hold none of Gemma's markup strings.
pub proof fn law_gemma_strips_tool_calls(f: GemmaFormatter, c: Seq<char>, n: Seq<char>, a: Seq<char>)
    requires
        markup_free(c),
        markup_free(n),
        markup_free(a),
    ensures
        f.strip_tags_text(c + f.tool_call_text(n, a)) == trim(c),
{
    reveal_strlit("<|tool_call>call:");
    reveal_strlit("<|tool_call>");
    reveal_strlit("<tool_call|>");
    reveal_strlit("}<tool_call|>");
    reveal_strlit("}}<tool_call|>");
    reveal_strlit("{");
    reveal_strlit("{{");
    reveal_strlit("}");
    reveal_strlit("}}");
    reveal_strlit("<|to");
    reveal_strlit("<to");
    reveal_strlit("<|tool_response>");
    reveal_strlit("<tool_response|>");
    lemma_gemma_markup_shape();
    lemma_markup_free_trim(a);
    let p = "<|tool_call>call:"@;
    let q = "<tool_call|>"@;
    let google = f.flavor_kind() == Gemma4Flavor::GoogleOfficial;
    let lo = if google { "{{"@ } else { "{"@ };
    let lc = if google { "}}"@ } else { "}"@ };
    let m = n + lo + trim(a) + lc;
    lemma_middle_markup_free(n, lo, trim(a), lc);
    assert(f.tool_call_text(n, a) =~= p + m + q);
    let x = c + p + m + q;
    assert(c + f.tool_call_text(n, a) =~= x);
    assert(p.subrange(0, 4) =~= "<|to"@);
    assert(q.subrange(0, 3) =~= "<to"@);
    assert forall|k: int| 0 <= k < 12 implies absent(m, #[trigger] gemma_tags()[k]) by {
        assert(absent(m, gemma_markup()[k]));
    }
    lemma_tool_block_has_no_tag(c, p, m, q);
    assert(p.subrange(0, 12) =~= "<|tool_call>"@);
    assert(absent(c, gemma_markup()[12]));
    assert(absent(m, gemma_markup()[13]));
    lemma_remove_block(c, p, m, q, "<|tool_call>"@);
    assert(absent(c, gemma_markup()[14]));
    lemma_remove_blocks_absent(c, "<|tool_response>"@, "<tool_response|>"@);
}

/// Gemma's `strip_tags` removes a tool response the formatter wrote whole, when
/// the tool name and the content hold none of Gemma's markup strings.
pub proof fn law_gemma_strips_tool_responses(f: GemmaFormatter, n: Seq<char>, v: Seq<char>)
    requires
        markup_free(n),
        markup_free(v),
    ensures
        f.strip_tags_text(f.tool_response_text(n, v)) == Seq::<char>::empty(),
{
    reveal_strlit("<|tool_response>response:");
    reveal_strlit("<|tool_response>");
    reveal_strlit("<tool_response|>");
    reveal_strlit("}<tool_response|>");
    reveal_strlit("{value:");
    reveal_strlit("}");
    reveal_strlit("<|to");
    reveal_strlit("<to");
    reveal_strlit("<|tool_call>");
    reveal_strlit("<tool_call|>");
    lemma_gemma_markup_shape();
    lemma_markup_free_trim(v);
    let c = Seq::<char>::empty();
    let p = "<|tool_response>response:"@;
    let q = "<tool_response|>"@;
    let m = n + "{value:"@ + trim(v) + "}"@;
    lemma_middle_markup_free(n, "{value:"@, trim(v), "}"@);
    assert(f.tool_response_text(n, v) =~= c + p + m + q);
    let x = c + p + m + q;
    assert(p.subrange(0, 4) =~= "<|to"@);
    assert(q.subrange(0, 3) =~= "<to"@);
    assert forall|k: int| 0 <= k < 12 implies absent(m, #[trigger] gemma_tags()[k]) by {
        assert(absent(m, gemma_markup()[k]));
    }
    lemma_tool_block_has_no_tag(c, p, m, q);
    let open = "<|tool_call>"@;
    assert(absent(c, open)) by {
        assert forall|i: int| !#[trigger] matches_at(c, open, i) by {}
    }
    assert(absent(m, gemma_markup()[12]));
    lemma_tool_block_absent(c, p, m, q, open, 7, 1);
    lemma_remove_blocks_absent(x, open, "<tool_call|>"@);
    assert(p.subrange(0, 16) =~= "<|tool_response>"@);
    assert(absent(m, gemma_markup()[15]));
    lemma_remove_block(c, p, m, q, "<|tool_response>"@);
    assert(trim(Seq::<char>::empty()) =~= Seq::<char>::empty());
}

// ---------------------------------------------------------------------------
// Phi-4 turn delimiters

/// `s` holds none of Phi-4's markup strings.
pub open spec fn phi4_markup_free(s: Seq<char>) -> bool {
    forall|k: int| 0 <= k < phi4_tags().len() ==> absent(s, #[trigger] phi4_tags()[k])
}

/// The Phi-4 tags: seven strings, each opening with its only `<` and holding no
/// newline.
pub proof fn lemma_phi4_tags_shape()
    ensures
        phi4_tags().len() == 7,
        forall|k: int| 0 <= k < 7 ==> one_lt(#[trigger] phi4_tags()[k]),
        forall|k: int, j: int| 0 <= k < 7 && 1 <= j < phi4_tags()[k].len() ==> #[trigger] phi4_tags()[k][j] != '\n',
{
    reveal_strlit("<|system|>");
    reveal_strlit("<|user|>");
    reveal_strlit("<|assistant|>");
    reveal_strlit("<|end|>");
    reveal_strlit("<|tool_response|>");
    reveal_strlit("<think>");
    reveal_strlit("</think>");
}

/// Leading whitespace of a concatenation: that of the first part when the first
/// part is not all whitespace, else that of the second part.
pub proof fn lemma_trim_start_concat(x: Seq<char>, y: Seq<char>)
    ensures
        trim_start(x + y) == (if trim_start(x).len() > 0 { trim_start(x) + y } else { trim_start(y) }),
    decreases x.len(),
{
    if x.len() == 0 {
        assert(x + y =~= y);
    } else {
        assert((x + y)[0] == x[0]);
        if is_ws(x[0]) {
            assert((x + y).drop_first() =~= x.drop_first() + y);
            lemma_trim_start_concat(x.drop_first(), y);
        } else {
            assert(trim_start(x) == x);
        }
    }
}

/// Trimming ignores one newline on either side.
pub proof fn lemma_trim_newlines(x: Seq<char>)
    ensures
        trim("\n"@ + x + "\n"@) == trim(x),
{
    reveal_strlit("\n");
    let nl = "\n"@;
    assert(is_ws('\n'));
    let s = nl + x + nl;
    assert(s[0] == '\n');
    assert(s.drop_first() =~= x + nl);
    assert(trim_start(s) == trim_start(x + nl));
    lemma_trim_start_concat(x, nl);
    if trim_start(x).len() > 0 {
        let u = trim_start(x) + nl;
        assert(u.last() == '\n');
        assert(u.drop_last() =~= trim_start(x));
        assert(trim_end(u) == trim_end(trim_start(x)));
    } else {
        assert(nl.drop_first() =~= Seq::<char>::empty());
        assert(nl[0] == '\n');
        assert(trim_start(Seq::<char>::empty()) == Seq::<char>::empty());
        assert(trim_start(nl) == trim_start(nl.drop_first()));
        assert(trim_start(nl) == Seq::<char>::empty());
        assert(trim_end(Seq::<char>::empty()) == Seq::<char>::empty());
    }
}

/// The text while the Phi-4 tags `0..k` have been removed from a turn
/// `tags[s] + "\n" + x + "<|end|>\n"`.
pub open spec fn phi4_stage(s: int, x: Seq<char>, k: int) -> Seq<char> {
    if k <= s {
        phi4_tags()[s] + "\n"@ + x + phi4_tags()[3] + "\n"@
    } else if k <= 3 {
        "\n"@ + x + phi4_tags()[3] + "\n"@
    } else {
        "\n"@ + x + "\n"@
    }
}

/// No Phi-4 role tag occurs in `x + "<|end|>\n"`.
pub proof fn lemma_phi4_end_absent(x: Seq<char>, k: int)
    requires
        phi4_markup_free(x),
        0 <= k < 3,
    ensures
        absent(x + (phi4_tags()[3] + "\n"@), phi4_tags()[k]),
{
    lemma_phi4_tags_shape();
    reveal_strlit("<|system|>");
    reveal_strlit("<|user|>");
    reveal_strlit("<|assistant|>");
    reveal_strlit("<|end|>");
    reveal_strlit("\n");
    let q = phi4_tags()[k];
    let e = phi4_tags()[3] + "\n"@;
    assert(one_lt(e));
    assert(absent(x, phi4_tags()[k]));
    lemma_absent_after_head(e, Seq::<char>::empty(), q, 2);
    assert(e + Seq::<char>::empty() =~= e);
    lemma_absent_concat(x, e, q);
}

/// Removing Phi-4 tag `k` takes a turn from stage `k` to stage `k + 1`.
pub proof fn lemma_phi4_step(s: int, x: Seq<char>, k: int)
    requires
        0 <= s < 3,
        0 <= k < 7,
        phi4_markup_free(x),
    ensures
        replace_all(phi4_stage(s, x, k), phi4_tags()[k], Seq::empty()) == phi4_stage(s, x, k + 1),
{
    lemma_phi4_tags_shape();
    reveal_strlit("<|system|>");
    reveal_strlit("<|user|>");
    reveal_strlit("<|assistant|>");
    reveal_strlit("<|end|>");
    reveal_strlit("\n");
    let ts = phi4_tags();
    let q = ts[k];
    let nl = "\n"@;
    let st = ts[s] + nl;
    let e = ts[3] + nl;
    assert(one_lt(st));
    assert(one_lt(e));
    assert(lt_free(nl));
    if k < s {
        lemma_phi4_end_absent(x, k);
        lemma_absent_after_head(st, x + e, q, 2);
        assert(st + (x + e) =~= phi4_stage(s, x, k));
        lemma_replace_none(phi4_stage(s, x, k), q);
    } else if k == s {
        let y = st + (x + e);
        assert(y =~= phi4_stage(s, x, k));
        lemma_phi4_end_absent(x, k);
        assert(y.subrange(0, q.len() as int) =~= q);
        assert forall|i: int| i != 0 implies !#[trigger] matches_at(y, q, i) by {
            if matches_at(y, q, i) {
                lemma_match_on_lt(y, q, i);
                if 0 < i < st.len() {
                    assert(y[i] == st[i]);
                } else if i >= st.len() {
                    lemma_match_shift(st, x + e, q, i);
                }
            }
        }
        lemma_replace_one(y, q, 0);
        assert(y.subrange(0, 0) + y.subrange(q.len() as int, y.len() as int) =~= phi4_stage(s, x, k + 1));
    } else if k < 3 {
        lemma_phi4_end_absent(x, k);
        lemma_absent_after_plain(nl, x + e, q);
        assert(nl + (x + e) =~= phi4_stage(s, x, k));
        lemma_replace_none(phi4_stage(s, x, k), q);
    } else if k == 3 {
        let a = nl + x;
        let y = a + e;
        assert(y =~= phi4_stage(s, x, k));
        assert(absent(x, ts[3]));
        lemma_absent_after_plain(nl, x, q);
        assert(y.subrange(a.len() as int, (a.len() + q.len()) as int) =~= q);
        assert forall|i: int| i != a.len() implies !#[trigger] matches_at(y, q, i) by {
            if matches_at(y, q, i) {
                lemma_match_on_lt(y, q, i);
                if 0 <= i < a.len() {
                    lemma_no_start_in(a, e, q, i);
                } else if i > a.len() {
                    assert(y[i] == e[i - a.len()]);
                }
            }
        }
        lemma_replace_one(y, q, a.len() as int);
        assert(y.subrange(0, a.len() as int) + y.subrange((a.len() + q.len()) as int, y.len() as int) =~= phi4_stage(s, x, k + 1));
    } else {
        assert(absent(x, ts[k]));
        lemma_lt_free_absent(nl, q);
        lemma_absent_concat(x, nl, q);
        lemma_absent_after_plain(nl, x + nl, q);
        assert(nl + (x + nl) =~= phi4_stage(s, x, k));
        lemma_replace_none(phi4_stage(s, x, k), q);
    }
}

/// Removing the Phi-4 tags `k..` from a turn at stage `k` leaves the content
/// between two newlines.
pub proof fn lemma_phi4_rest(s: int, x: Seq<char>, k: int)
    requires
        0 <= s < 3,
        0 <= k <= 7,
        phi4_markup_free(x),
    ensures
        remove_each(phi4_stage(s, x, k), phi4_tags().subrange(k, 7)) == "\n"@ + x + "\n"@,
    decreases 7 - k,
{
    lemma_phi4_tags_shape();
    if k < 7 {
        let ps = phi4_tags().subrange(k, 7);
        assert(ps[0] == phi4_tags()[k]);
        assert(ps.drop_first() =~= phi4_tags().subrange(k + 1, 7));
        lemma_phi4_step(s, x, k);
        lemma_phi4_rest(s, x, k + 1);
    }
}

/// Phi-4's `strip_tags` takes its own turn delimiters (role tag, `<|end|>` and
/// their newlines) off a turn whose content holds none of Phi-4's markup strings,
/// leaving the trimmed content.
pub proof fn law_phi4_strips_turn_delimiters(f: Phi4Formatter, r: Role, x: Seq<char>)
    requires
        phi4_markup_free(x),
    ensures
        f.strip_tags_text(f.turn_start_text(r) + x + f.turn_end_text(r)) == trim(x),
{
    lemma_phi4_tags_shape();
    reveal_strlit("<|system|>");
    reveal_strlit("<|user|>");
    reveal_strlit("<|assistant|>");
    reveal_strlit("<|end|>");
    reveal_strlit("<|system|>\n");
    reveal_strlit("<|user|>\n");
    reveal_strlit("<|assistant|>\n");
    reveal_strlit("<|end|>\n");
    reveal_strlit("\n");
    let s: int = match r {
        Role::System => 0,
        Role::User => 1,
        Role::Assistant => 2,
    };
    assert(f.turn_start_text(r) + x + f.turn_end_text(r) =~= phi4_stage(s, x, 0));
    lemma_phi4_rest(s, x, 0);
    assert(phi4_tags().subrange(0, 7) =~= phi4_tags());
    lemma_trim_newlines(x);
}

} // verus!
