//! Paths inside the archive: directories, normalisation of `.` and `..`, and
//! resolution of references relative to a document.
use vstd::prelude::*;
use vstd::string::{StrSliceExecFns, StringExecFns};
use crate::text::{chars_eq, chars_of, string_of};

verus! {

/// The index of the last occurrence of `c` in `s`.
pub open spec fn last_index_of(s: Seq<char>, c: char) -> Option<int>
    decreases s.len(),
{
    if s.len() == 0 {
        None
    } else if s.last() == c {
        Some(s.len() - 1)
    } else {
        last_index_of(s.drop_last(), c)
    }
}

/// The index of the first occurrence of `c` in `s`.
pub open spec fn first_index_of(s: Seq<char>, c: char) -> Option<int>
    decreases s.len(),
{
    if s.len() == 0 {
        None
    } else if s[0] == c {
        Some(0)
    } else {
        match first_index_of(s.drop_first(), c) {
            Some(i) => Some(i + 1),
            None => None,
        }
    }
}

/// The directory part of a path: everything before its last `/`, or nothing.
pub open spec fn dir_of_spec(path: Seq<char>) -> Seq<char> {
    match last_index_of(path, '/') {
        Some(i) => path.take(i),
        None => Seq::empty(),
    }
}

/// The pieces `str::split(c)` yields: the text between consecutive separators,
/// always at least one piece.
pub open spec fn split_pieces(s: Seq<char>, c: char) -> Seq<Seq<char>>
    decreases s.len(),
{
    if s.len() == 0 {
        seq![Seq::empty()]
    } else {
        let rest = split_pieces(s.drop_last(), c);
        if s.last() == c {
            rest.push(Seq::empty())
        } else {
            rest.update(rest.len() - 1, rest.last().push(s.last()))
        }
    }
}

/// One component folded into the normalised path so far: `..` drops the last
/// component (if any), `.` and empty components are ignored, others are kept.
pub open spec fn normalize_step(parts: Seq<Seq<char>>, c: Seq<char>) -> Seq<Seq<char>> {
    if c == ".."@ {
        if parts.len() > 0 {
            parts.drop_last()
        } else {
            parts
        }
    } else if c == "."@ || c.len() == 0 {
        parts
    } else {
        parts.push(c)
    }
}

/// The components left after folding all of `comps` from the left.
pub open spec fn normalize_parts(comps: Seq<Seq<char>>) -> Seq<Seq<char>>
    decreases comps.len(),
{
    if comps.len() == 0 {
        Seq::empty()
    } else {
        normalize_step(normalize_parts(comps.drop_last()), comps.last())
    }
}

/// The components joined with `/` between them.
pub open spec fn join_slash(parts: Seq<Seq<char>>) -> Seq<char>
    decreases parts.len(),
{
    if parts.len() == 0 {
        Seq::empty()
    } else if parts.len() == 1 {
        parts[0]
    } else {
        join_slash(parts.drop_last()) + seq!['/'] + parts.last()
    }
}

/// A path with `.`, empty and `..` components resolved.
pub open spec fn normalize_path_spec(path: Seq<char>) -> Seq<char> {
    join_slash(normalize_parts(split_pieces(path, '/')))
}

/// A reference without its fragment: the text before the first `#`.
pub open spec fn strip_fragment(href: Seq<char>) -> Seq<char> {
    match first_index_of(href, '#') {
        Some(i) => href.take(i),
        None => href,
    }
}

/// The archive path of `href` seen from the directory `base_dir`.
pub open spec fn resolve_spec(base_dir: Seq<char>, href: Seq<char>) -> Seq<char> {
    let h = strip_fragment(href);
    if base_dir.len() == 0 {
        normalize_path_spec(h)
    } else {
        normalize_path_spec(base_dir + seq!['/'] + h)
    }
}

/// The directory part of `path`: everything before its last `/`, or `""`.
pub fn dir_of(path: &str) -> (r: &str)
    ensures
        r@ == dir_of_spec(path@),
{
    let cs = chars_of(path);
    let mut i: usize = cs.len();
    assert(cs@.take(cs@.len() as int) =~= cs@);
    while i > 0 && cs[i - 1] != '/'
        invariant
            i <= cs@.len(),
            cs@ == path@,
            last_index_of(path@, '/') == last_index_of(cs@.take(i as int), '/'),
        decreases i,
    {
        assert(cs@.take(i - 1) =~= cs@.take(i as int).drop_last());
        i = i - 1;
    }
    if i == 0 {
        assert(cs@.take(0) =~= Seq::<char>::empty());
        path.substring_char(0, 0)
    } else {
        path.substring_char(0, i - 1)
    }
}

/// Whether the component is exactly `s`.
fn component_is(c: &Vec<char>, s: &str) -> (r: bool)
    ensures
        r == (c@ == s@),
{
    let v = chars_of(s);
    chars_eq(c.as_slice(), v.as_slice())
}

/// Folds one component into the list of kept components.
fn push_component(parts: &mut Vec<Vec<char>>, c: Vec<char>)
    ensures
        final(parts)@.map_values(|p: Vec<char>| p@) == normalize_step(old(parts)@.map_values(|p: Vec<char>| p@), c@),
{
    let ghost before = parts@.map_values(|p: Vec<char>| p@);
    if component_is(&c, "..") {
        if parts.len() > 0 {
            parts.pop();
            assert(parts@.map_values(|p: Vec<char>| p@) =~= before.drop_last());
        }
    } else if component_is(&c, ".") || c.len() == 0 {
    } else {
        parts.push(c);
        assert(parts@.map_values(|p: Vec<char>| p@) =~= before.push(c@));
    }
}

/// The components joined with `/`.
fn join_components(parts: &Vec<Vec<char>>) -> (r: String)
    ensures
        r@ == join_slash(parts@.map_values(|p: Vec<char>| p@)),
{
    let ghost ps = parts@.map_values(|p: Vec<char>| p@);
    let mut out: Vec<char> = Vec::new();
    let mut k: usize = 0;
    while k < parts.len()
        invariant
            k <= parts@.len(),
            ps == parts@.map_values(|p: Vec<char>| p@),
            out@ == join_slash(ps.take(k as int)),
        decreases parts.len() - k,
    {
        if k > 0 {
            out.push('/');
        }
        let mut j: usize = 0;
        let ghost out0 = out@;
        while j < parts[k].len()
            invariant
                k < parts@.len(),
                j <= parts@[k as int]@.len(),
                out@ == out0 + parts@[k as int]@.take(j as int),
            decreases parts[k as int]@.len() - j,
        {
            out.push(parts[k][j]);
            j = j + 1;
            assert(out@ =~= out0 + parts@[k as int]@.take(j as int));
        }
        assert(parts@[k as int]@.take(j as int) =~= parts@[k as int]@);
        assert(ps.take(k + 1).drop_last() =~= ps.take(k as int));
        assert(ps[k as int] == parts@[k as int]@);
        k = k + 1;
    }
    assert(ps.take(k as int) =~= ps);
    string_of(&out)
}

/// The path with `.`, empty and `..` components resolved (a `..` at the top is
/// dropped), joined with `/`.
pub fn normalize_path(path: &str) -> (r: String)
    ensures
        r@ == normalize_path_spec(path@),
{
    let cs = chars_of(path);
    let mut parts: Vec<Vec<char>> = Vec::new();
    let mut cur: Vec<char> = Vec::new();
    let mut k: usize = 0;
    assert(split_pieces(cs@.take(0), '/') =~= seq![Seq::<char>::empty()]);
    assert(split_pieces(cs@.take(0), '/').drop_last() =~= Seq::<Seq<char>>::empty());
    while k < cs.len()
        invariant
            k <= cs@.len(),
            cs@ == path@,
            split_pieces(cs@.take(k as int), '/').len() > 0,
            parts@.map_values(|p: Vec<char>| p@) == normalize_parts(split_pieces(cs@.take(k as int), '/').drop_last()),
            cur@ == split_pieces(cs@.take(k as int), '/').last(),
        decreases cs.len() - k,
    {
        let ghost pieces = split_pieces(cs@.take(k as int), '/');
        assert(cs@.take(k + 1).drop_last() =~= cs@.take(k as int));
        if cs[k] == '/' {
            let done = cur;
            cur = Vec::new();
            push_component(&mut parts, done);
            assert(split_pieces(cs@.take(k + 1), '/') == pieces.push(Seq::empty()));
            assert(pieces.push(Seq::empty()).drop_last() =~= pieces);
            assert(pieces =~= pieces.drop_last().push(pieces.last()));
        } else {
            cur.push(cs[k]);
            let ghost next = pieces.update(pieces.len() - 1, pieces.last().push(cs@[k as int]));
            assert(split_pieces(cs@.take(k + 1), '/') == next);
            assert(next.drop_last() =~= pieces.drop_last());
        }
        k = k + 1;
    }
    assert(cs@.take(k as int) =~= path@);
    let ghost pieces = split_pieces(path@, '/');
    push_component(&mut parts, cur);
    assert(pieces =~= pieces.drop_last().push(pieces.last()));
    join_components(&parts)
}

/// The archive path of `href` (without its `#fragment`) relative to `base_dir`.
pub fn resolve(base_dir: &str, href: &str) -> (r: String)
    ensures
        r@ == resolve_spec(base_dir@, href@),
{
    let hs = chars_of(href);
    let mut i: usize = 0;
    while i < hs.len() && hs[i] != '#'
        invariant
            i <= hs@.len(),
            hs@ == href@,
            forall|m: int| 0 <= m < i ==> hs@[m] != '#',
        decreases hs.len() - i,
    {
        i = i + 1;
    }
    proof {
        lemma_first_index_of(href@, '#', i as int);
    }
    let h = href.substring_char(0, i);
    assert(h@ == strip_fragment(href@)) by {
        if i == hs.len() {
            assert(href@.take(i as int) =~= href@);
        }
    }
    if base_dir.unicode_len() == 0 {
        normalize_path(h)
    } else {
        let mut combined = String::from_str(base_dir);
        combined.append("/");
        combined.append(h);
        proof {
            reveal_strlit("/");
            assert(combined@ =~= base_dir@ + seq!['/'] + h@);
        }
        normalize_path(combined.as_str())
    }
}

/// The first occurrence of `c` found by a scan that stopped at `i`.
pub proof fn lemma_first_index_of(s: Seq<char>, c: char, i: int)
    requires
        0 <= i <= s.len(),
        forall|m: int| 0 <= m < i ==> s[m] != c,
        i < s.len() ==> s[i] == c,
    ensures
        i < s.len() ==> first_index_of(s, c) == Some(i),
        i == s.len() ==> first_index_of(s, c) is None,
    decreases i,
{
    if s.len() > 0 && i > 0 {
        lemma_first_index_of(s.drop_first(), c, i - 1);
    } else if s.len() > 0 && i == 0 {
    }
}

} // verus!
