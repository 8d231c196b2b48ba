//! Character-level text algorithms with their mathematical models.
//!
//! Text is modelled as `Seq<char>` (the view of `str` / `String`).
use vstd::prelude::*;
use vstd::string::StringExecFns;

verus! {

/// `String::push` from std: appends one character.
#[verifier::external_body]
pub(crate) fn push_char(s: &mut String, c: char)
    ensures
        final(s)@ == old(s)@.push(c),
{
    s.push(c)
}

/// The characters of `s`, in order.
pub fn chars_of(s: &str) -> (res: Vec<char>)
    ensures
        res@ == s@,
{
    let mut res: Vec<char> = Vec::new();
    for c in it: s.chars()
        invariant
            res@ == it.seq().take(it.index() as int),
            it.seq() == s@,
    {
        res.push(c);
        assert(res@ == it.seq().take(it.index() + 1));
    }
    assert(res@ =~= s@);
    res
}

/// A `String` holding exactly the characters of `v`.
pub fn string_of(v: &[char]) -> (res: String)
    ensures
        res@ == v@,
{
    let mut res = String::new();
    let mut i: usize = 0;
    while i < v.len()
        invariant
            i <= v.len(),
            res@ == v@.take(i as int),
        decreases v.len() - i,
    {
        push_char(&mut res, v[i]);
        i = i + 1;
        assert(res@ =~= v@.take(i as int));
    }
    assert(v@.take(v@.len() as int) =~= v@);
    res
}


/// Unicode `White_Space` characters (the set `str::trim` removes).
pub open spec fn is_ws(c: char) -> bool {
    let u = c as u32;
    (0x9 <= u && u <= 0xd) || u == 0x20 || u == 0x85 || u == 0xa0 || u == 0x1680
        || (0x2000 <= u && u <= 0x200a) || u == 0x2028 || u == 0x2029 || u == 0x202f
        || u == 0x205f || u == 0x3000
}

/// Executable test for [`is_ws`].
pub fn is_ws_exec(c: char) -> (res: bool)
    ensures
        res == is_ws(c),
{
    let u = c as u32;
    (0x9 <= u && u <= 0xd) || u == 0x20 || u == 0x85 || u == 0xa0 || u == 0x1680
        || (0x2000 <= u && u <= 0x200a) || u == 0x2028 || u == 0x2029 || u == 0x202f
        || u == 0x205f || u == 0x3000
}

/// `s` without its leading whitespace.
pub open spec fn trim_start(s: Seq<char>) -> Seq<char>
    decreases s.len(),
{
    if s.len() > 0 && is_ws(s[0]) {
        trim_start(s.drop_first())
    } else {
        s
    }
}

/// `s` without its trailing whitespace.
pub open spec fn trim_end(s: Seq<char>) -> Seq<char>
    decreases s.len(),
{
    if s.len() > 0 && is_ws(s.last()) {
        trim_end(s.drop_last())
    } else {
        s
    }
}

/// `s` without leading and trailing whitespace (what `str::trim` returns).
pub open spec fn trim(s: Seq<char>) -> Seq<char> {
    trim_end(trim_start(s))
}

/// `s` neither starts nor ends with whitespace.
pub open spec fn is_trimmed(s: Seq<char>) -> bool {
    s.len() == 0 || (!is_ws(s[0]) && !is_ws(s.last()))
}

/// Removing leading whitespace leaves a suffix that does not start with whitespace.
pub proof fn lemma_trim_start_shape(s: Seq<char>)
    ensures
        trim_start(s).len() <= s.len(),
        trim_start(s) == s.subrange(s.len() - trim_start(s).len(), s.len() as int),
        trim_start(s).len() == 0 || !is_ws(trim_start(s)[0]),
    decreases s.len(),
{
    if s.len() > 0 && is_ws(s[0]) {
        lemma_trim_start_shape(s.drop_first());
        assert(s.drop_first().subrange(s.drop_first().len() - trim_start(s).len(), s.drop_first().len() as int)
            =~= s.subrange(s.len() - trim_start(s).len(), s.len() as int));
    } else {
        assert(s.subrange(0, s.len() as int) =~= s);
    }
}

/// Removing trailing whitespace leaves a prefix that does not end with whitespace.
pub proof fn lemma_trim_end_shape(s: Seq<char>)
    ensures
        trim_end(s).len() <= s.len(),
        trim_end(s) == s.subrange(0, trim_end(s).len() as int),
        trim_end(s).len() == 0 || !is_ws(trim_end(s).last()),
    decreases s.len(),
{
    if s.len() > 0 && is_ws(s.last()) {
        lemma_trim_end_shape(s.drop_last());
        assert(s.drop_last().subrange(0, trim_end(s).len() as int) =~= s.subrange(0, trim_end(s).len() as int));
    } else {
        assert(s.subrange(0, s.len() as int) =~= s);
    }
}

/// What `trim` returns is trimmed.
pub proof fn lemma_trim_is_trimmed(s: Seq<char>)
    ensures
        is_trimmed(trim(s)),
{
    let u = trim_start(s);
    lemma_trim_start_shape(s);
    lemma_trim_end_shape(u);
    let v = trim_end(u);
    if v.len() > 0 {
        assert(v[0] == u[0]);
    }
}

/// `p` occurs in `s` at position `i`.
pub open spec fn matches_at(s: Seq<char>, p: Seq<char>, i: int) -> bool {
    0 <= i && i + p.len() <= s.len() && s.subrange(i, i + p.len()) == p
}

/// The first position `j >= i` at which `p` occurs in `s` (what `str::find` on the
/// suffix starting at `i` reports, shifted by `i`).
pub open spec fn find_from(s: Seq<char>, p: Seq<char>, i: int) -> Option<int>
    decreases s.len() + 1 - i,
{
    if i < 0 || i + p.len() > s.len() {
        None
    } else if matches_at(s, p, i) {
        Some(i)
    } else {
        find_from(s, p, i + 1)
    }
}

/// `p` occurs somewhere in `s`.
pub open spec fn contains(s: Seq<char>, p: Seq<char>) -> bool {
    find_from(s, p, 0) is Some
}

/// Widening of an optional index.
pub open spec fn opt_int(o: Option<usize>) -> Option<int> {
    match o {
        Some(j) => Some(j as int),
        None => None,
    }
}

/// The value `find_from` reports is a match, at or after `i`, with no match in between.
pub proof fn lemma_find_from(s: Seq<char>, p: Seq<char>, i: int)
    ensures
        find_from(s, p, i) is Some ==> i <= find_from(s, p, i)->0 && find_from(s, p, i)->0
            + p.len() <= s.len() && matches_at(s, p, find_from(s, p, i)->0) && forall|k: int|
            i <= k < find_from(s, p, i)->0 ==> !matches_at(s, p, k),
        find_from(s, p, i) is None && 0 <= i ==> forall|k: int| i <= k ==> !matches_at(s, p, k),
    decreases s.len() + 1 - i,
{
    if i < 0 || i + p.len() > s.len() {
    } else if matches_at(s, p, i) {
    } else {
        lemma_find_from(s, p, i + 1);
    }
}

/// The result of replacing, from position `i` on, every non-overlapping occurrence
/// of `p` (scanning left to right) by `r`.
pub open spec fn replace_from(s: Seq<char>, p: Seq<char>, r: Seq<char>, i: int) -> Seq<char>
    decreases s.len() + 1 - i,
{
    if p.len() == 0 || i < 0 || i > s.len() {
        s.subrange(i, s.len() as int)
    } else {
        match find_from(s, p, i) {
            None => s.subrange(i, s.len() as int),
            Some(j) => {
                proof {
                    lemma_find_from(s, p, i);
                }
                s.subrange(i, j) + r + replace_from(s, p, r, j + p.len())
            },
        }
    }
}

/// `str::replace(s, p, r)` for a non-empty pattern `p`.
pub open spec fn replace_all(s: Seq<char>, p: Seq<char>, r: Seq<char>) -> Seq<char> {
    replace_from(s, p, r, 0)
}

/// Whether `p` occurs in `s` at `i` (executable).
pub fn matches_at_exec(s: &[char], p: &[char], i: usize) -> (res: bool)
    ensures
        res == matches_at(s@, p@, i as int),
{
    if i > s.len() || p.len() > s.len() - i {
        return false;
    }
    let mut k: usize = 0;
    while k < p.len()
        invariant
            i + p.len() <= s.len(),
            k <= p.len(),
            forall|m: int| 0 <= m < k ==> s@[i + m] == p@[m],
        decreases p.len() - k,
    {
        if s[i + k] != p[k] {
            assert(s@.subrange(i as int, i + p.len())[k as int] != p@[k as int]);
            return false;
        }
        k = k + 1;
    }
    assert(s@.subrange(i as int, i + p.len()) =~= p@);
    true
}

/// The first occurrence of `p` in `s` at or after `start` (executable).
pub fn find_from_exec(s: &[char], p: &[char], start: usize) -> (res: Option<usize>)
    ensures
        opt_int(res) == find_from(s@, p@, start as int),
{
    let mut i = start;
    while i <= s.len() && p.len() <= s.len() - i
        invariant
            find_from(s@, p@, start as int) == find_from(s@, p@, i as int),
            start <= i,
        decreases s.len() + 1 - i,
    {
        if matches_at_exec(s, p, i) {
            return Some(i);
        }
        if i == s.len() {
            assert(find_from(s@, p@, i + 1) is None);
            return None;
        }
        i = i + 1;
    }
    None
}

/// The elements `v[i..j]` as a new vector.
pub fn sub_vec(v: &[char], i: usize, j: usize) -> (res: Vec<char>)
    requires
        i <= j <= v.len(),
    ensures
        res@ == v@.subrange(i as int, j as int),
{
    let mut res: Vec<char> = Vec::new();
    let mut k = i;
    while k < j
        invariant
            i <= k <= j <= v.len(),
            res@ == v@.subrange(i as int, k as int),
        decreases j - k,
    {
        res.push(v[k]);
        k = k + 1;
        assert(res@ =~= v@.subrange(i as int, k as int));
    }
    res
}

/// Appends `w` to `v`.
pub fn append_chars(v: &mut Vec<char>, w: &[char])
    ensures
        final(v)@ == old(v)@ + w@,
{
    let ghost v0 = v@;
    let mut k: usize = 0;
    while k < w.len()
        invariant
            k <= w.len(),
            v@ == v0 + w@.take(k as int),
        decreases w.len() - k,
    {
        v.push(w[k]);
        k = k + 1;
        assert(v@ =~= v0 + w@.take(k as int));
    }
    assert(w@.take(w.len() as int) =~= w@);
}

/// `str::replace` for a non-empty pattern (executable).
pub fn replace_all_exec(s: &[char], p: &[char], r: &[char]) -> (res: Vec<char>)
    requires
        p.len() > 0,
    ensures
        res@ == replace_all(s@, p@, r@),
{
    let mut out: Vec<char> = Vec::new();
    let mut i: usize = 0;
    while i <= s.len()
        invariant
            p@.len() > 0,
            i <= s.len() + 1,
            i <= s.len() ==> replace_all(s@, p@, r@) == out@ + replace_from(s@, p@, r@, i as int),
            i > s.len() ==> replace_all(s@, p@, r@) == out@,
        decreases s.len() + 1 - i,
    {
        proof {
            lemma_find_from(s@, p@, i as int);
        }
        match find_from_exec(s, p, i) {
            None => {
                let rest = sub_vec(s, i, s.len());
                append_chars(&mut out, &rest);
                assert(replace_from(s@, p@, r@, i as int) == s@.subrange(i as int, s@.len() as int));
                return out;
            },
            Some(j) => {
                let mid = sub_vec(s, i, j);
                let ghost out0 = out@;
                append_chars(&mut out, &mid);
                append_chars(&mut out, r);
                assert(replace_from(s@, p@, r@, i as int) == s@.subrange(i as int, j as int) + r@
                    + replace_from(s@, p@, r@, j + p@.len()));
                assert(out@ == out0 + s@.subrange(i as int, j as int) + r@);
                i = j + p.len();
            },
        }
    }
    out
}


/// `s` with leading and trailing whitespace removed (executable `str::trim`).
pub fn trim_exec(s: &[char]) -> (res: Vec<char>)
    ensures
        res@ == trim(s@),
{
    let len = s.len();
    let mut a: usize = 0;
    assert(s@.subrange(0, len as int) =~= s@);
    while a < len && is_ws_exec(s[a])
        invariant
            len == s@.len(),
            a <= len,
            trim_start(s@) == trim_start(s@.subrange(a as int, len as int)),
        decreases len - a,
    {
        assert(s@.subrange(a + 1, len as int) =~= s@.subrange(a as int, len as int).drop_first());
        a = a + 1;
    }
    let mut b: usize = len;
    while b > a && is_ws_exec(s[b - 1])
        invariant
            len == s@.len(),
            a <= b <= len,
            trim_start(s@) == s@.subrange(a as int, len as int),
            trim_end(s@.subrange(a as int, len as int)) == trim_end(s@.subrange(a as int, b as int)),
        decreases b - a,
    {
        assert(s@.subrange(a as int, b - 1) =~= s@.subrange(a as int, b as int).drop_last());
        b = b - 1;
    }
    sub_vec(s, a, b)
}

/// Repeatedly deletes the leftmost `open ... close` block (both markers included);
/// a block whose `close` is missing runs to the end of the text.
pub open spec fn remove_blocks(s: Seq<char>, open: Seq<char>, close: Seq<char>) -> Seq<char>
    decreases s.len(),
{
    if open.len() == 0 || close.len() == 0 {
        s
    } else {
        match find_from(s, open, 0) {
            None => s,
            Some(i) => match find_from(s, close, i) {
                None => s.subrange(0, i),
                Some(j) => {
                    proof {
                        lemma_find_from(s, open, 0);
                        lemma_find_from(s, close, i);
                    }
                    remove_blocks(
                        s.subrange(0, i) + s.subrange(j + close.len(), s.len() as int),
                        open,
                        close,
                    )
                },
            },
        }
    }
}

/// Executable [`remove_blocks`].
pub fn remove_blocks_exec(s: &[char], open: &[char], close: &[char]) -> (res: Vec<char>)
    ensures
        res@ == remove_blocks(s@, open@, close@),
{
    let mut cur = sub_vec(s, 0, s.len());
    assert(s@.subrange(0, s@.len() as int) =~= s@);
    if open.len() == 0 || close.len() == 0 {
        return cur;
    }
    loop
        invariant
            open@.len() > 0,
            close@.len() > 0,
            remove_blocks(s@, open@, close@) == remove_blocks(cur@, open@, close@),
        decreases cur@.len(),
    {
        proof {
            lemma_find_from(cur@, open@, 0);
        }
        match find_from_exec(&cur, open, 0) {
            None => {
                return cur;
            },
            Some(i) => {
                proof {
                    lemma_find_from(cur@, close@, i as int);
                }
                match find_from_exec(&cur, close, i) {
                    None => {
                        return sub_vec(&cur, 0, i);
                    },
                    Some(j) => {
                        assert(find_from(cur@, close@, i as int) == Some(j as int));
                        assert(j + close@.len() <= cur@.len());
                        assert(j + close.len() <= cur.len());
                        let mut next = sub_vec(&cur, 0, i);
                        let tail = sub_vec(&cur, j + close.len(), cur.len());
                        append_chars(&mut next, &tail);
                        cur = next;
                    },
                }
            },
        }
    }
}

/// Whether a text that begins with `a` can also begin with `b` (one is a prefix of the other).
pub open spec fn prefix_compatible(a: Seq<char>, b: Seq<char>) -> bool {
    if a.len() <= b.len() {
        b.subrange(0, a.len() as int) == a
    } else {
        a.subrange(0, b.len() as int) == b
    }
}

/// Markers that delimit a reasoning block: both non-empty, neither a prefix of the other.
pub open spec fn bounds_ok(a: Seq<char>, b: Seq<char>) -> bool {
    a.len() > 0 && b.len() > 0 && !prefix_compatible(a, b)
}

/// Repeatedly deletes the leftmost block that starts at `a` and ends with the next
/// `b` (markers included); with no `b` after it, the text is cut at that `a`.
pub open spec fn cut_reasoning(s: Seq<char>, a: Seq<char>, b: Seq<char>) -> Seq<char>
    decreases s.len(),
{
    if !bounds_ok(a, b) {
        s
    } else {
        match find_from(s, a, 0) {
            None => s,
            Some(i) => match find_from(s, b, i) {
                None => s.subrange(0, i),
                Some(j) => {
                    proof {
                        lemma_find_from(s, a, 0);
                        lemma_find_from(s, b, i);
                        lemma_bounds_ok_progress(s, a, b, i, j);
                    }
                    cut_reasoning(s.subrange(0, i) + s.subrange(j + b.len(), s.len() as int), a, b)
                },
            },
        }
    }
}

/// With [`bounds_ok`] markers, the closing marker never starts where the opening one does.
pub proof fn lemma_bounds_ok_progress(s: Seq<char>, a: Seq<char>, b: Seq<char>, i: int, j: int)
    requires
        bounds_ok(a, b),
        matches_at(s, a, i),
        matches_at(s, b, j),
        i <= j,
    ensures
        i < j,
{
    if i == j {
        if a.len() <= b.len() {
            assert(b.subrange(0, a.len() as int) =~= a) by {
                assert forall|k: int| 0 <= k < a.len() implies b.subrange(0, a.len() as int)[k] == a[k] by {
                    assert(s.subrange(i, i + a.len())[k] == s[i + k]);
                    assert(s.subrange(i, i + b.len())[k] == s[i + k]);
                }
            }
        } else {
            assert(a.subrange(0, b.len() as int) =~= b) by {
                assert forall|k: int| 0 <= k < b.len() implies a.subrange(0, b.len() as int)[k] == b[k] by {
                    assert(s.subrange(i, i + a.len())[k] == s[i + k]);
                    assert(s.subrange(i, i + b.len())[k] == s[i + k]);
                }
            }
        }
    }
}

/// Executable [`cut_reasoning`].
pub fn cut_reasoning_exec(s: &[char], a: &[char], b: &[char]) -> (res: Vec<char>)
    requires
        bounds_ok(a@, b@),
    ensures
        res@ == cut_reasoning(s@, a@, b@),
{
    let mut cur = sub_vec(s, 0, s.len());
    assert(s@.subrange(0, s@.len() as int) =~= s@);
    loop
        invariant
            bounds_ok(a@, b@),
            cut_reasoning(s@, a@, b@) == cut_reasoning(cur@, a@, b@),
        decreases cur@.len(),
    {
        proof {
            lemma_find_from(cur@, a@, 0);
        }
        match find_from_exec(&cur, a, 0) {
            None => {
                return cur;
            },
            Some(i) => {
                proof {
                    lemma_find_from(cur@, b@, i as int);
                }
                match find_from_exec(&cur, b, i) {
                    None => {
                        return sub_vec(&cur, 0, i);
                    },
                    Some(j) => {
                        proof {
                            lemma_bounds_ok_progress(cur@, a@, b@, i as int, j as int);
                        }
                        assert(matches_at(cur@, b@, j as int));
                        assert(j + b@.len() <= cur@.len());
                        assert(cur@.len() == cur.len());
                        let e: usize = j + b.len();
                        let mut next = sub_vec(&cur, 0, i);
                        let tail = sub_vec(&cur, e, cur.len());
                        append_chars(&mut next, &tail);
                        cur = next;
                    },
                }
            },
        }
    }
}

/// Splits `s` into the text outside reasoning blocks and the concatenated text inside
/// them: each block starts at `a` and ends at the next `b` (both markers dropped); an
/// unterminated block runs to the end.
pub open spec fn split_reasoning(s: Seq<char>, a: Seq<char>, b: Seq<char>) -> (Seq<char>, Seq<char>)
    decreases s.len(),
{
    if a.len() == 0 {
        (s, Seq::empty())
    } else {
        match find_from(s, a, 0) {
            None => (s, Seq::empty()),
            Some(i) => {
                proof {
                    lemma_find_from(s, a, 0);
                }
                let u = s.subrange(i + a.len(), s.len() as int);
                match find_from(u, b, 0) {
                    None => (s.subrange(0, i), u),
                    Some(j) => {
                        proof {
                            lemma_find_from(u, b, 0);
                        }
                        let rest = split_reasoning(u.subrange(j + b.len(), u.len() as int), a, b);
                        (s.subrange(0, i) + rest.0, u.subrange(0, j) + rest.1)
                    },
                }
            },
        }
    }
}

/// Executable [`split_reasoning`].
pub fn split_reasoning_exec(s: &[char], a: &[char], b: &[char]) -> (res: (Vec<char>, Vec<char>))
    requires
        a@.len() > 0,
    ensures
        (res.0@, res.1@) == split_reasoning(s@, a@, b@),
{
    let mut cur = sub_vec(s, 0, s.len());
    assert(s@.subrange(0, s@.len() as int) =~= s@);
    let mut kept: Vec<char> = Vec::new();
    let mut thought: Vec<char> = Vec::new();
    loop
        invariant
            a@.len() > 0,
            split_reasoning(s@, a@, b@) == (kept@ + split_reasoning(cur@, a@, b@).0, thought@
                + split_reasoning(cur@, a@, b@).1),
        decreases cur@.len(),
    {
        proof {
            lemma_find_from(cur@, a@, 0);
        }
        match find_from_exec(&cur, a, 0) {
            None => {
                append_chars(&mut kept, &cur);
                assert(kept@ + Seq::<char>::empty() =~= kept@);
                assert(thought@ + Seq::<char>::empty() =~= thought@);
                return (kept, thought);
            },
            Some(i) => {
                assert(find_from(cur@, a@, 0) == Some(i as int));
                assert(i + a@.len() <= cur@.len());
                assert(i + a.len() <= cur.len());
                let u = sub_vec(&cur, i + a.len(), cur.len());
                proof {
                    lemma_find_from(u@, b@, 0);
                }
                let head = sub_vec(&cur, 0, i);
                match find_from_exec(&u, b, 0) {
                    None => {
                        let ghost k0 = kept@;
                        let ghost t0 = thought@;
                        append_chars(&mut kept, &head);
                        append_chars(&mut thought, &u);
                        return (kept, thought);
                    },
                    Some(j) => {
                        let inner = sub_vec(&u, 0, j);
                        let rest = sub_vec(&u, j + b.len(), u.len());
                        let ghost k0 = kept@;
                        let ghost t0 = thought@;
                        let ghost r = split_reasoning(rest@, a@, b@);
                        append_chars(&mut kept, &head);
                        append_chars(&mut thought, &inner);
                        assert(k0 + (head@ + r.0) =~= kept@ + r.0);
                        assert(t0 + (inner@ + r.1) =~= thought@ + r.1);
                        cur = rest;
                    },
                }
            },
        }
    }
}

/// Replaces, in order, every occurrence of each pattern of `ps` by nothing.
pub open spec fn remove_each(s: Seq<char>, ps: Seq<Seq<char>>) -> Seq<char>
    decreases ps.len(),
{
    if ps.len() == 0 {
        s
    } else {
        remove_each(replace_all(s, ps[0], Seq::empty()), ps.drop_first())
    }
}

/// The views of a list of string slices.
pub open spec fn views(ps: Seq<&str>) -> Seq<Seq<char>> {
    ps.map_values(|p: &str| p@)
}

/// Executable [`remove_each`].
pub fn remove_each_exec(s: &[char], ps: &[&str]) -> (res: Vec<char>)
    requires
        forall|k: int| 0 <= k < ps@.len() ==> (#[trigger] ps@[k])@.len() > 0,
    ensures
        res@ == remove_each(s@, views(ps@)),
{
    let mut cur = sub_vec(s, 0, s.len());
    assert(s@.subrange(0, s@.len() as int) =~= s@);
    let empty: Vec<char> = Vec::new();
    let mut k: usize = 0;
    assert(views(ps@).subrange(0, ps@.len() as int) =~= views(ps@));
    while k < ps.len()
        invariant
            k <= ps@.len(),
            forall|m: int| 0 <= m < ps@.len() ==> (#[trigger] ps@[m])@.len() > 0,
            empty@ == Seq::<char>::empty(),
            remove_each(s@, views(ps@)) == remove_each(cur@, views(ps@).subrange(k as int, ps@.len() as int)),
        decreases ps.len() - k,
    {
        let p = chars_of(ps[k]);
        let ghost rest = views(ps@).subrange(k as int, ps@.len() as int);
        assert(rest[0] == p@);
        assert(rest.drop_first() =~= views(ps@).subrange(k + 1, ps@.len() as int));
        cur = replace_all_exec(&cur, &p, &empty);
        k = k + 1;
    }
    cur
}


/// Like [`remove_blocks`], but each terminated block also takes the one character that
/// follows its `close` marker.
pub open spec fn remove_blocks_plus(s: Seq<char>, open: Seq<char>, close: Seq<char>) -> Seq<char>
    decreases s.len(),
{
    if open.len() == 0 || close.len() == 0 {
        s
    } else {
        match find_from(s, open, 0) {
            None => s,
            Some(i) => match find_from(s, close, i) {
                None => s.subrange(0, i),
                Some(j) => {
                    proof {
                        lemma_find_from(s, open, 0);
                        lemma_find_from(s, close, i);
                    }
                    if j + close.len() + 1 > s.len() {
                        s
                    } else {
                        remove_blocks_plus(
                            s.subrange(0, i) + s.subrange(j + close.len() + 1, s.len() as int),
                            open,
                            close,
                        )
                    }
                },
            },
        }
    }
}

/// The texts on which [`remove_blocks_plus`] is defined: after every terminated block
/// there is one more character, and it is a single-byte (ASCII) one.
pub open spec fn remove_blocks_plus_ok(s: Seq<char>, open: Seq<char>, close: Seq<char>) -> bool
    decreases s.len(),
{
    if open.len() == 0 || close.len() == 0 {
        true
    } else {
        match find_from(s, open, 0) {
            None => true,
            Some(i) => match find_from(s, close, i) {
                None => true,
                Some(j) => {
                    proof {
                        lemma_find_from(s, open, 0);
                        lemma_find_from(s, close, i);
                    }
                    j + close.len() + 1 <= s.len() && (s[j + close.len()] as u32) < 0x80
                        && remove_blocks_plus_ok(
                        s.subrange(0, i) + s.subrange(j + close.len() + 1, s.len() as int),
                        open,
                        close,
                    )
                },
            },
        }
    }
}

/// Executable [`remove_blocks_plus`].
pub fn remove_blocks_plus_exec(s: &[char], open: &[char], close: &[char]) -> (res: Vec<char>)
    requires
        remove_blocks_plus_ok(s@, open@, close@),
    ensures
        res@ == remove_blocks_plus(s@, open@, close@),
{
    let mut cur = sub_vec(s, 0, s.len());
    assert(s@.subrange(0, s@.len() as int) =~= s@);
    if open.len() == 0 || close.len() == 0 {
        return cur;
    }
    loop
        invariant
            open@.len() > 0,
            close@.len() > 0,
            remove_blocks_plus(s@, open@, close@) == remove_blocks_plus(cur@, open@, close@),
            remove_blocks_plus_ok(cur@, open@, close@),
        decreases cur@.len(),
    {
        proof {
            lemma_find_from(cur@, open@, 0);
        }
        match find_from_exec(&cur, open, 0) {
            None => {
                return cur;
            },
            Some(i) => {
                proof {
                    lemma_find_from(cur@, close@, i as int);
                }
                match find_from_exec(&cur, close, i) {
                    None => {
                        return sub_vec(&cur, 0, i);
                    },
                    Some(j) => {
                        assert(find_from(cur@, close@, i as int) == Some(j as int));
                        assert(j + close@.len() + 1 <= cur@.len());
                        assert(j + close.len() + 1 <= cur.len());
                        let mut next = sub_vec(&cur, 0, i);
                        let tail = sub_vec(&cur, j + close.len() + 1, cur.len());
                        append_chars(&mut next, &tail);
                        cur = next;
                    },
                }
            },
        }
    }
}


/// Whether two character slices are equal.
pub fn chars_eq(a: &[char], b: &[char]) -> (res: bool)
    ensures
        res == (a@ == b@),
{
    if a.len() != b.len() {
        return false;
    }
    let mut k: usize = 0;
    while k < a.len()
        invariant
            a.len() == b.len(),
            k <= a.len(),
            forall|m: int| 0 <= m < k ==> a@[m] == b@[m],
        decreases a.len() - k,
    {
        if a[k] != b[k] {
            return false;
        }
        k = k + 1;
    }
    assert(a@ =~= b@);
    true
}

/// Whether two strings hold the same characters.
pub fn str_eq(a: &str, b: &str) -> (res: bool)
    ensures
        res == (a@ == b@),
{
    let x = chars_of(a);
    let y = chars_of(b);
    chars_eq(&x, &y)
}

/// Whether [`remove_blocks_plus`] is defined on `s` (executable
/// [`remove_blocks_plus_ok`]).
pub fn remove_blocks_plus_ok_exec(s: &[char], open: &[char], close: &[char]) -> (res: bool)
    ensures
        res == remove_blocks_plus_ok(s@, open@, close@),
{
    if open.len() == 0 || close.len() == 0 {
        return true;
    }
    let mut cur = sub_vec(s, 0, s.len());
    assert(s@.subrange(0, s@.len() as int) =~= s@);
    loop
        invariant
            open@.len() > 0,
            close@.len() > 0,
            remove_blocks_plus_ok(s@, open@, close@) == remove_blocks_plus_ok(cur@, open@, close@),
        decreases cur@.len(),
    {
        proof {
            lemma_find_from(cur@, open@, 0);
        }
        match find_from_exec(&cur, open, 0) {
            None => {
                return true;
            },
            Some(i) => {
                proof {
                    lemma_find_from(cur@, close@, i as int);
                }
                match find_from_exec(&cur, close, i) {
                    None => {
                        return true;
                    },
                    Some(j) => {
                        assert(find_from(cur@, close@, i as int) == Some(j as int));
                        assert(j + close@.len() <= cur@.len());
                        assert(j + close.len() <= cur.len());
                        let after = j + close.len();
                        if after >= cur.len() || (cur[after] as u32) >= 0x80 {
                            return false;
                        }
                        let mut next = sub_vec(&cur, 0, i);
                        let tail = sub_vec(&cur, j + close.len() + 1, cur.len());
                        append_chars(&mut next, &tail);
                        cur = next;
                    },
                }
            },
        }
    }
}

} // verus!
