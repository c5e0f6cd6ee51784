//! Character-level text handling: lines, whitespace-separated words, and
//! trimming, each stated over `Seq<char>`.

use vstd::prelude::*;

verus! {

/// The Unicode `White_Space` property, which `char::is_whitespace` tests.
pub open spec fn is_ws(c: char) -> bool {
    let u = c as u32;
    u == 0x20 || (0x9 <= u && u <= 0xd) || u == 0x85 || u == 0xa0 || u == 0x1680 || (0x2000 <= u
        && u <= 0x200a) || u == 0x2028 || u == 0x2029 || u == 0x202f || u == 0x205f || u == 0x3000
}

/// Executable test of `is_ws`.
pub fn is_whitespace(c: char) -> (r: bool)
    ensures
        r == is_ws(c),
{
    let u = c as u32;
    u == 0x20 || (0x9 <= u && u <= 0xd) || u == 0x85 || u == 0xa0 || u == 0x1680 || (0x2000 <= u
        && u <= 0x200a) || u == 0x2028 || u == 0x2029 || u == 0x202f || u == 0x205f || u == 0x3000
}

/// The pieces of `s` between newline characters, as `s.split('\n')` yields them.
pub open spec fn pieces(s: Seq<char>) -> Seq<Seq<char>>
    decreases s.len(),
{
    if s.len() == 0 {
        seq![Seq::empty()]
    } else {
        let p = pieces(s.drop_last());
        if s.last() == '\n' {
            p.push(Seq::empty())
        } else {
            p.update(p.len() - 1, p.last().push(s.last()))
        }
    }
}

/// A piece that a newline ended loses one carriage return before it.
pub open spec fn strip_cr(l: Seq<char>) -> Seq<char> {
    if l.len() > 0 && l.last() == '\r' {
        l.drop_last()
    } else {
        l
    }
}

/// The lines of `s` as `str::lines` gives them: split at `\n` or `\r\n`,
/// with no empty line after a final line ending.
pub open spec fn lines(s: Seq<char>) -> Seq<Seq<char>> {
    let p = pieces(s);
    let body = p.drop_last().map_values(|l: Seq<char>| strip_cr(l));
    if p.last().len() == 0 {
        body
    } else {
        body.push(p.last())
    }
}

/// The maximal runs of non-whitespace characters of `s`, in order, as
/// `str::split_whitespace` yields them.
pub open spec fn words(s: Seq<char>) -> Seq<Seq<char>>
    decreases s.len(),
{
    if s.len() == 0 {
        Seq::empty()
    } else {
        let p = words(s.drop_last());
        let c = s.last();
        if is_ws(c) {
            p
        } else if s.len() > 1 && !is_ws(s[s.len() - 2]) {
            p.update(p.len() - 1, p.last().push(c))
        } else {
            p.push(seq![c])
        }
    }
}

/// `s` without its leading whitespace.
pub open spec fn trim_start(s: Seq<char>) -> Seq<char>
    decreases s.len(),
{
    if s.len() > 0 && is_ws(s[0]) {
        trim_start(s.drop_first())
    } else {
        s
    }
}

/// `s` without its trailing whitespace.
pub open spec fn trim_end(s: Seq<char>) -> Seq<char>
    decreases s.len(),
{
    if s.len() > 0 && is_ws(s.last()) {
        trim_end(s.drop_last())
    } else {
        s
    }
}

/// `s` without the `:` characters at its end.
pub open spec fn trim_colons(s: Seq<char>) -> Seq<char>
    decreases s.len(),
{
    if s.len() > 0 && s.last() == ':' {
        trim_colons(s.drop_last())
    } else {
        s
    }
}

/// The index of the first `#` of `s`, or its length where it has none.
pub open spec fn first_hash(s: Seq<char>) -> int
    decreases s.len(),
{
    if s.len() == 0 {
        0
    } else if s[0] == '#' {
        0
    } else {
        1 + first_hash(s.drop_first())
    }
}

/// A line whose first character after leading whitespace is `#`.
pub open spec fn is_comment_line(l: Seq<char>) -> bool {
    let t = trim_start(l);
    t.len() > 0 && t[0] == '#'
}

pub proof fn lemma_pieces_nonempty(s: Seq<char>)
    ensures
        pieces(s).len() >= 1,
    decreases s.len(),
{
    if s.len() > 0 {
        lemma_pieces_nonempty(s.drop_last());
    }
}

/// The characters of `s`, in order.
pub fn char_vec(s: &str) -> (r: Vec<char>)
    ensures
        r@ == s@,
{
    let mut v: Vec<char> = Vec::new();
    for c in it: s.chars()
        invariant
            it.seq() == s@,
            v@ == it.seq().take(it.index() as int),
    {
        v.push(c);
    }
    v
}

/// The views of a list of strings.
pub open spec fn views(v: Seq<String>) -> Seq<Seq<char>> {
    v.map_values(|x: String| x@)
}

/// The lines of `s`, as `str::lines` yields them.
pub fn split_lines(s: &str) -> (r: Vec<String>)
    ensures
        views(r@) == lines(s@),
{
    let cs = char_vec(s);
    let n = cs.len();
    let mut out: Vec<String> = Vec::new();
    let ghost mut raw: Seq<Seq<char>> = Seq::empty();
    let mut start: usize = 0;
    let mut i: usize = 0;
    assert(s@.take(0) =~= Seq::<char>::empty());
    assert(s@.subrange(0, 0) =~= Seq::<char>::empty());
    assert(pieces(Seq::<char>::empty()) == raw.push(Seq::<char>::empty()));
    while i < n
        invariant
            cs@ == s@,
            n == cs.len(),
            start <= i <= n,
            pieces(s@.take(i as int)) == raw.push(s@.subrange(start as int, i as int)),
            views(out@) == raw.map_values(|l: Seq<char>| strip_cr(l)),
        decreases n - i,
    {
        assert(s@.take(i + 1).drop_last() =~= s@.take(i as int));
        if cs[i] == '\n' {
            let end: usize = if i > start && cs[i - 1] == '\r' {
                i - 1
            } else {
                i
            };
            let piece = s.substring_char(start, end);
            let line = String::from_str(piece);
            proof {
                let full = s@.subrange(start as int, i as int);
                if i > start && cs[i - 1] == '\r' {
                    assert(full.drop_last() =~= piece@);
                } else {
                    assert(full =~= piece@);
                }
                assert(strip_cr(full) == line@);
            }
            let ghost old_out = out@;
            out.push(line);
            proof {
                assert(views(out@) =~= views(old_out).push(line@));
                raw = raw.push(s@.subrange(start as int, i as int));
                assert(views(out@) =~= raw.map_values(|l: Seq<char>| strip_cr(l)));
                assert(s@.subrange(i + 1, i + 1) =~= Seq::<char>::empty());
            }
            start = i + 1;
        } else {
            assert(s@.subrange(start as int, i + 1) =~= s@.subrange(start as int, i as int).push(
                cs@[i as int],
            ));
        }
        i = i + 1;
    }
    assert(s@.take(n as int) =~= s@);
    assert(pieces(s@).drop_last() =~= raw);
    if start < n {
        let line = String::from_str(s.substring_char(start, n));
        out.push(line);
        assert(views(out@) =~= lines(s@));
    } else {
        assert(views(out@) =~= lines(s@));
    }
    out
}

/// The whitespace-separated words of `s@[lo..hi]`, as `split_whitespace` yields them.
pub fn split_words(s: &str, cs: &Vec<char>, lo: usize, hi: usize) -> (r: Vec<String>)
    requires
        cs@ == s@,
        lo <= hi <= cs.len(),
    ensures
        views(r@) == words(s@.subrange(lo as int, hi as int)),
{
    let mut out: Vec<String> = Vec::new();
    let mut in_word = false;
    let mut start: usize = lo;
    let mut i: usize = lo;
    assert(s@.subrange(lo as int, lo as int) =~= Seq::<char>::empty());
    while i < hi
        invariant
            cs@ == s@,
            lo <= i <= hi <= cs.len(),
            in_word ==> lo <= start < i && !is_ws(s@[i - 1]) && words(
                s@.subrange(lo as int, i as int),
            ) == views(out@).push(s@.subrange(start as int, i as int)),
            !in_word ==> (i == lo || is_ws(s@[i - 1])) && words(s@.subrange(lo as int, i as int))
                == views(out@),
        decreases hi - i,
    {
        let c = cs[i];
        let ghost t = s@.subrange(lo as int, i + 1);
        assert(t.drop_last() =~= s@.subrange(lo as int, i as int));
        assert(t.last() == c);
        if is_whitespace(c) {
            if in_word {
                let w = String::from_str(s.substring_char(start, i));
                out.push(w);
                assert(views(out@) =~= words(t));
            }
            in_word = false;
        } else {
            if in_word {
                assert(t[t.len() - 2] == s@[i - 1]);
                assert(s@.subrange(start as int, i + 1) =~= s@.subrange(start as int, i as int).push(
                    c,
                ));
                assert(views(out@).push(s@.subrange(start as int, i + 1)) =~= words(t));
            } else {
                if i > lo {
                    assert(t[t.len() - 2] == s@[i - 1]);
                }
                assert(s@.subrange(i as int, i + 1) =~= seq![c]);
                start = i;
                in_word = true;
            }
        }
        i = i + 1;
    }
    if in_word {
        let w = String::from_str(s.substring_char(start, hi));
        out.push(w);
        assert(views(out@) =~= words(s@.subrange(lo as int, hi as int)));
    }
    out
}

/// The index of the first `#` in `cs`, or its length.
pub fn find_hash(cs: &Vec<char>) -> (r: usize)
    ensures
        r == first_hash(cs@),
        r <= cs.len(),
{
    let mut j: usize = 0;
    assert(cs@.skip(0) =~= cs@);
    while j < cs.len() && cs[j] != '#'
        invariant
            j <= cs.len(),
            first_hash(cs@) == j + first_hash(cs@.skip(j as int)),
        decreases cs.len() - j,
    {
        assert(cs@.skip(j as int).drop_first() =~= cs@.skip(j + 1));
        j = j + 1;
    }
    j
}

/// The number of leading whitespace characters of `cs`.
pub fn leading_ws(cs: &Vec<char>) -> (r: usize)
    ensures
        r <= cs.len(),
        trim_start(cs@) == cs@.skip(r as int),
{
    let mut j: usize = 0;
    assert(cs@.skip(0) =~= cs@);
    while j < cs.len() && is_whitespace(cs[j])
        invariant
            j <= cs.len(),
            trim_start(cs@) == trim_start(cs@.skip(j as int)),
        decreases cs.len() - j,
    {
        assert(cs@.skip(j as int).drop_first() =~= cs@.skip(j + 1));
        j = j + 1;
    }
    j
}

/// Whether `s` is a comment line.
pub fn comment_line(s: &str) -> (r: bool)
    ensures
        r == is_comment_line(s@),
{
    let cs = char_vec(s);
    let j = leading_ws(&cs);
    j < cs.len() && cs[j] == '#'
}

/// The length of `cs@[..hi]` without its trailing `:` characters.
pub fn colon_trimmed_len(cs: &Vec<char>, hi: usize) -> (r: usize)
    requires
        hi <= cs.len(),
    ensures
        r <= hi,
        trim_colons(cs@.take(hi as int)) == cs@.take(r as int),
{
    let mut k: usize = hi;
    while k > 0 && cs[k - 1] == ':'
        invariant
            k <= hi <= cs.len(),
            trim_colons(cs@.take(hi as int)) == trim_colons(cs@.take(k as int)),
        decreases k,
    {
        assert(cs@.take(k as int).drop_last() =~= cs@.take(k - 1));
        k = k - 1;
    }
    k
}

/// The length of `cs` without its trailing whitespace.
pub fn ws_trimmed_len(cs: &Vec<char>) -> (r: usize)
    ensures
        r <= cs.len(),
        trim_end(cs@) == cs@.take(r as int),
{
    let mut k: usize = cs.len();
    assert(cs@.take(k as int) =~= cs@);
    while k > 0 && is_whitespace(cs[k - 1])
        invariant
            k <= cs.len(),
            trim_end(cs@) == trim_end(cs@.take(k as int)),
        decreases k,
    {
        assert(cs@.take(k as int).drop_last() =~= cs@.take(k - 1));
        k = k - 1;
    }
    k
}

} // verus!
