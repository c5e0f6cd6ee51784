//! Canonical `.tool-versions` text, the form that writing a document out
//! produces, and the law that parsing such a text and writing it out again
//! gives the same text.

use crate::ordered_map::{has_key, lemma_key_pos, lemma_unique_push, unique_keys};
use crate::text::{
    first_hash, is_comment_line, is_ws, lemma_pieces_nonempty, lines, pieces, strip_cr, trim_colons,
    trim_end, trim_start, words,
};
use crate::tool_versions::{
    data_words, dump_text, entries_text, entry_text, is_data_line, join_spaces, line_tool,
    line_versions, parse_entries, parse_state, parse_step, preamble_of, trailing_text, Entries,
};
use vstd::prelude::*;

verus! {

/// The lines `ls`, each followed by a newline.
pub open spec fn join_lines(ls: Seq<Seq<char>>) -> Seq<char>
    decreases ls.len(),
{
    if ls.len() == 0 {
        Seq::empty()
    } else {
        join_lines(ls.drop_last()) + ls.last() + seq!['\n']
    }
}

/// `l` holds no newline.
pub open spec fn no_newline(l: Seq<char>) -> bool {
    forall|i: int| 0 <= i < l.len() ==> l[i] != '\n'
}

/// A non-empty line that keeps its characters through line splitting: no
/// newline, and no carriage return at its end.
pub open spec fn plain_line(l: Seq<char>) -> bool {
    no_newline(l) && l.len() > 0 && l.last() != '\r'
}

/// A non-empty run of characters that are neither whitespace nor `#`.
pub open spec fn is_token(t: Seq<char>) -> bool {
    t.len() > 0 && forall|i: int| 0 <= i < t.len() ==> !is_ws(t[i]) && t[i] != '#'
}

/// One tool's block of a canonical text: its name, its versions, the text of
/// its inline comment (empty for none), and the comment lines under it.
pub type Block = (Seq<char>, Seq<Seq<char>>, Seq<char>, Seq<Seq<char>>);

/// A block as writing a document out produces it: a name without trailing
/// colons, at least one version, and a non-empty inline comment where there
/// is one.
pub open spec fn canonical_block(b: Block) -> bool {
    &&& is_token(b.0)
    &&& b.0.last() != ':'
    &&& b.1.len() > 0
    &&& forall|k: int| 0 <= k < b.1.len() ==> is_token(#[trigger] b.1[k])
    &&& no_newline(b.2)
    &&& b.2.len() > 0 ==> b.2.last() != '\r'
    &&& forall|k: int|
        0 <= k < b.3.len() ==> plain_line(#[trigger] b.3[k]) && is_comment_line(b.3[k])
}

/// The inline comment of a block as written after its versions.
pub open spec fn comment_tail(b: Block) -> Seq<char> {
    if b.2.len() > 0 {
        seq![' ', '#'] + b.2
    } else {
        Seq::empty()
    }
}

/// The first line of a block: name, a space, the versions, the comment.
pub open spec fn data_line(b: Block) -> Seq<char> {
    b.0 + seq![' '] + join_spaces(b.1) + comment_tail(b)
}

/// The lines of the blocks `bs`, in order.
pub open spec fn block_lines(bs: Seq<Block>) -> Seq<Seq<char>>
    decreases bs.len(),
{
    if bs.len() == 0 {
        Seq::empty()
    } else {
        block_lines(bs.drop_last()) + seq![data_line(bs.last())] + bs.last().3
    }
}

/// Comment lines for the preamble, then tool blocks with distinct names, at
/// least one line in all, and no whitespace at the end of the last line.
pub open spec fn canonical(pre: Seq<Seq<char>>, bs: Seq<Block>) -> bool {
    &&& forall|k: int|
        0 <= k < pre.len() ==> plain_line(#[trigger] pre[k]) && is_comment_line(pre[k])
    &&& forall|k: int| 0 <= k < bs.len() ==> canonical_block(#[trigger] bs[k])
    &&& forall|i: int, j: int|
        0 <= i < bs.len() && 0 <= j < bs.len() && #[trigger] bs[i].0 == #[trigger] bs[j].0 ==> i
            == j
    &&& pre.len() + bs.len() > 0
    &&& !is_ws((pre + block_lines(bs)).last().last())
}

/// The text made of the preamble lines `pre` and the blocks `bs`.
pub open spec fn canonical_text(pre: Seq<Seq<char>>, bs: Seq<Block>) -> Seq<char> {
    join_lines(pre + block_lines(bs))
}

/// The entry that a block gives.
pub open spec fn block_entry(b: Block) -> (Seq<char>, (Seq<Seq<char>>, Seq<char>)) {
    (b.0, (b.1, comment_tail(b) + seq!['\n'] + join_lines(b.3)))
}

proof fn lemma_join_lines_append(a: Seq<Seq<char>>, b: Seq<Seq<char>>)
    ensures
        join_lines(a + b) == join_lines(a) + join_lines(b),
    decreases b.len(),
{
    if b.len() == 0 {
        assert(a + b =~= a);
        assert(join_lines(a) + join_lines(b) =~= join_lines(a));
    } else {
        lemma_join_lines_append(a, b.drop_last());
        assert((a + b).drop_last() =~= a + b.drop_last());
        assert((a + b).last() == b.last());
        assert(join_lines(a + b) =~= join_lines(a) + join_lines(b));
    }
}

proof fn lemma_join_one(l: Seq<char>)
    ensures
        join_lines(seq![l]) == l + seq!['\n'],
{
    assert(seq![l].drop_last() =~= Seq::<Seq<char>>::empty());
    assert(join_lines(Seq::<Seq<char>>::empty()) == Seq::<char>::empty());
    assert(join_lines(seq![l]) =~= l + seq!['\n']);
}

proof fn lemma_pieces_append(a: Seq<char>, b: Seq<char>)
    requires
        no_newline(b),
    ensures
        pieces(a + b) == pieces(a).update(pieces(a).len() - 1, pieces(a).last() + b),
    decreases b.len(),
{
    lemma_pieces_nonempty(a);
    let p = pieces(a);
    if b.len() == 0 {
        assert(a + b =~= a);
        assert(p.last() + b =~= p.last());
        assert(p.update(p.len() - 1, p.last() + b) =~= p);
    } else {
        let b2 = b.drop_last();
        lemma_pieces_append(a, b2);
        assert((a + b).drop_last() =~= a + b2);
        assert((a + b).last() == b.last());
        assert(b.last() != '\n');
        assert((p.last() + b2).push(b.last()) =~= p.last() + b);
        assert(pieces(a + b) =~= p.update(p.len() - 1, p.last() + b));
    }
}

proof fn lemma_pieces_joined(ls: Seq<Seq<char>>)
    requires
        forall|k: int| 0 <= k < ls.len() ==> no_newline(#[trigger] ls[k]),
    ensures
        pieces(join_lines(ls)) == ls.push(Seq::empty()),
    decreases ls.len(),
{
    if ls.len() == 0 {
        assert(pieces(Seq::<char>::empty()) =~= ls.push(Seq::empty()));
    } else {
        let l2 = ls.drop_last();
        lemma_pieces_joined(l2);
        let j = join_lines(l2);
        lemma_pieces_append(j, ls.last());
        assert(Seq::<char>::empty() + ls.last() =~= ls.last());
        assert(pieces(j + ls.last()) =~= ls);
        let t = j + ls.last() + seq!['\n'];
        assert(t.drop_last() =~= j + ls.last());
        assert(pieces(t) =~= ls.push(Seq::empty()));
    }
}

proof fn lemma_lines_joined(ls: Seq<Seq<char>>)
    requires
        forall|k: int| 0 <= k < ls.len() ==> plain_line(#[trigger] ls[k]),
    ensures
        lines(join_lines(ls)) == ls,
{
    lemma_pieces_joined(ls);
    let p = pieces(join_lines(ls));
    assert(p.drop_last() =~= ls);
    assert forall|k: int| 0 <= k < ls.len() implies strip_cr(#[trigger] ls[k]) == ls[k] by {
        assert(ls[k].last() != '\r');
    }
    assert(lines(join_lines(ls)) =~= ls);
}

proof fn lemma_words_nonempty(s: Seq<char>)
    requires
        s.len() > 0,
        !is_ws(s.last()),
    ensures
        words(s).len() > 0,
    decreases s.len(),
{
    if s.len() > 1 && !is_ws(s[s.len() - 2]) {
        lemma_words_nonempty(s.drop_last());
    }
}

proof fn lemma_words_sep(a: Seq<char>, b: Seq<char>)
    ensures
        words(a + seq![' '] + b) == words(a) + words(b),
    decreases b.len(),
{
    let s = a + seq![' '] + b;
    if b.len() == 0 {
        assert(s.drop_last() =~= a);
        assert(words(a) + words(b) =~= words(a));
    } else {
        let b2 = b.drop_last();
        let c = b.last();
        lemma_words_sep(a, b2);
        assert(s.drop_last() =~= a + seq![' '] + b2);
        assert(s.last() == c);
        if !is_ws(c) {
            if b2.len() > 0 {
                assert(s[s.len() - 2] == b2.last());
                assert(b[b.len() - 2] == b2.last());
                if !is_ws(b2.last()) {
                    lemma_words_nonempty(b2);
                }
            } else {
                assert(s[s.len() - 2] == ' ');
            }
        }
        assert(words(s) =~= words(a) + words(b));
    }
}

proof fn lemma_words_token(t: Seq<char>)
    requires
        t.len() > 0,
        forall|i: int| 0 <= i < t.len() ==> !is_ws(#[trigger] t[i]),
    ensures
        words(t) == seq![t],
    decreases t.len(),
{
    assert(!is_ws(t[t.len() - 1]));
    if t.len() > 1 {
        let t2 = t.drop_last();
        assert forall|i: int| 0 <= i < t2.len() implies !is_ws(#[trigger] t2[i]) by {
            assert(t2[i] == t[i]);
        }
        lemma_words_token(t2);
        assert(!is_ws(t[t.len() - 2]));
        assert(t2.push(t.last()) =~= t);
        assert(words(t) =~= seq![t]);
    } else {
        assert(t.drop_last() =~= Seq::<char>::empty());
        assert(words(Seq::<char>::empty()) == Seq::<Seq<char>>::empty());
        assert(seq![t.last()] =~= t);
        assert(words(t) =~= seq![t]);
    }
}

proof fn lemma_join_facts(vs: Seq<Seq<char>>)
    requires
        vs.len() > 0,
        forall|k: int| 0 <= k < vs.len() ==> is_token(#[trigger] vs[k]),
    ensures
        words(join_spaces(vs)) == vs,
        join_spaces(vs).len() > 0,
        !is_ws(join_spaces(vs).last()),
        forall|i: int|
            0 <= i < join_spaces(vs).len() ==> #[trigger] join_spaces(vs)[i] != '#'
                && join_spaces(vs)[i] != '\n',
    decreases vs.len(),
{
    let j = join_spaces(vs);
    if vs.len() == 1 {
        lemma_words_token(vs[0]);
        assert(seq![vs[0]] =~= vs);
        assert(!is_ws(vs[0][vs[0].len() - 1]));
        assert forall|i: int| 0 <= i < j.len() implies #[trigger] j[i] != '#' && j[i] != '\n' by {
            assert(!is_ws(vs[0][i]));
        }
    } else {
        let v2 = vs.drop_last();
        let j2 = join_spaces(v2);
        let last = vs.last();
        assert(is_token(vs[vs.len() - 1]));
        lemma_join_facts(v2);
        lemma_words_sep(j2, last);
        lemma_words_token(last);
        assert(v2 + seq![last] =~= vs);
        assert(j.last() == last.last());
        assert(!is_ws(last[last.len() - 1]));
        assert forall|i: int| 0 <= i < j.len() implies #[trigger] j[i] != '#' && j[i] != '\n' by {
            if i < j2.len() {
                assert(j[i] == j2[i]);
            } else if i == j2.len() {
                assert(j[i] == ' ');
            } else {
                assert(j[i] == last[i - j2.len() - 1]);
                assert(!is_ws(last[i - j2.len() - 1]));
            }
        }
    }
}

proof fn lemma_first_hash_append(a: Seq<char>, b: Seq<char>)
    requires
        forall|i: int| 0 <= i < a.len() ==> #[trigger] a[i] != '#',
    ensures
        first_hash(a + b) == a.len() + first_hash(b),
    decreases a.len(),
{
    if a.len() > 0 {
        lemma_first_hash_append(a.drop_first(), b);
        assert((a + b).drop_first() =~= a.drop_first() + b);
        assert((a + b)[0] == a[0]);
    } else {
        assert(a + b =~= b);
    }
}

proof fn lemma_data_line(b: Block)
    requires
        canonical_block(b),
    ensures
        plain_line(data_line(b)),
        is_data_line(data_line(b)),
        line_tool(data_line(b)) == b.0,
        line_versions(data_line(b)) == b.1,
        trailing_text(data_line(b)) == comment_tail(b) + seq!['\n'],
{
    let j = join_spaces(b.1);
    lemma_join_facts(b.1);
    let prefix = b.0 + seq![' '] + j;
    let tail = comment_tail(b);
    let l = data_line(b);
    assert(l == prefix + tail);
    assert forall|i: int| 0 <= i < prefix.len() implies #[trigger] prefix[i] != '#' && prefix[i]
        != '\n' by {
        if i < b.0.len() {
            assert(prefix[i] == b.0[i]);
            assert(!is_ws(b.0[i]));
        } else if i > b.0.len() {
            assert(prefix[i] == j[i - b.0.len() - 1]);
        }
    }
    lemma_first_hash_append(prefix, tail);
    lemma_words_token(b.0);
    lemma_words_sep(b.0, j);
    let h = first_hash(l);
    if b.2.len() > 0 {
        assert(tail[0] == ' ');
        assert(tail.drop_first()[0] == '#');
        assert(first_hash(tail.drop_first()) == 0);
        assert(first_hash(tail) == 1);
        assert(h == prefix.len() + 1);
        assert(l.take(h) =~= prefix + seq![' '] + Seq::<char>::empty());
        lemma_words_sep(prefix, Seq::<char>::empty());
        assert(words(prefix) + words(Seq::<char>::empty()) =~= words(prefix));
        assert(l.subrange(h + 1, l.len() as int) =~= b.2);
        assert(trailing_text(l) =~= comment_tail(b) + seq!['\n']);
        assert(l.last() == b.2.last());
    } else {
        assert(tail =~= Seq::<char>::empty());
        assert(l =~= prefix);
        assert(h == l.len());
        assert(l.take(h) =~= prefix);
        assert(l.last() == j.last());
        assert(is_ws('\r'));
        assert(trailing_text(l) =~= comment_tail(b) + seq!['\n']);
    }
    assert(data_words(l) =~= seq![b.0] + b.1);
    assert(trim_colons(b.0) == b.0);
    assert(line_versions(l) =~= b.1);
    assert(l[0] == b.0[0]);
    assert(!is_ws(b.0[0]));
    assert(trim_start(l) == l);
    assert forall|i: int| 0 <= i < l.len() implies l[i] != '\n' by {
        if i >= prefix.len() {
            assert(l[i] == tail[i - prefix.len()]);
            if b.2.len() > 0 && i >= prefix.len() + 2 {
                assert(tail[i - prefix.len()] == b.2[i - prefix.len() - 2]);
            }
        } else {
            assert(l[i] == prefix[i]);
        }
    }
}

proof fn lemma_block_lines(bs: Seq<Block>)
    requires
        forall|k: int| 0 <= k < bs.len() ==> canonical_block(#[trigger] bs[k]),
    ensures
        forall|k: int|
            0 <= k < block_lines(bs).len() ==> plain_line(#[trigger] block_lines(bs)[k]),
        bs.len() > 0 ==> block_lines(bs).len() > 0 && block_lines(bs)[0] == data_line(bs[0]),
    decreases bs.len(),
{
    if bs.len() > 0 {
        let bs2 = bs.drop_last();
        let b = bs.last();
        assert(canonical_block(bs[bs.len() - 1]));
        lemma_block_lines(bs2);
        lemma_data_line(b);
        let bl2 = block_lines(bs2);
        let bl = block_lines(bs);
        assert(bl == bl2 + seq![data_line(b)] + b.3);
        assert forall|k: int| 0 <= k < bl.len() implies plain_line(#[trigger] bl[k]) by {
            if k < bl2.len() {
                assert(bl[k] == bl2[k]);
            } else if k == bl2.len() {
                assert(bl[k] == data_line(b));
            } else {
                assert(bl[k] == b.3[k - bl2.len() - 1]);
            }
        }
        if bs2.len() > 0 {
            assert(bs2[0] == bs[0]);
            assert(bl[0] == bl2[0]);
        } else {
            assert(bl[0] == data_line(b));
        }
    }
}

proof fn lemma_preamble(pre: Seq<Seq<char>>, rest: Seq<Seq<char>>)
    requires
        forall|k: int| 0 <= k < pre.len() ==> is_comment_line(#[trigger] pre[k]),
        rest.len() == 0 || !is_comment_line(rest[0]),
    ensures
        preamble_of(pre + rest) == join_lines(pre),
    decreases pre.len(),
{
    if pre.len() == 0 {
        assert(pre + rest =~= rest);
    } else {
        let p2 = pre.drop_first();
        lemma_preamble(p2, rest);
        assert((pre + rest)[0] == pre[0]);
        assert((pre + rest).drop_first() =~= p2 + rest);
        lemma_join_lines_append(seq![pre[0]], p2);
        assert(seq![pre[0]] + p2 =~= pre);
        lemma_join_one(pre[0]);
        assert(preamble_of(pre + rest) =~= join_lines(pre));
    }
}

proof fn lemma_parse_comments(pre: Seq<Seq<char>>)
    requires
        forall|k: int| 0 <= k < pre.len() ==> is_comment_line(#[trigger] pre[k]),
    ensures
        parse_state(pre) == (Seq::<(Seq<char>, (Seq<Seq<char>>, Seq<char>))>::empty(), None::<
            Seq<char>,
        >),
    decreases pre.len(),
{
    if pre.len() > 0 {
        lemma_parse_comments(pre.drop_last());
        assert(is_comment_line(pre[pre.len() - 1]));
    }
}

proof fn lemma_parse_notes(
    x: Seq<Seq<char>>,
    es: Entries,
    name: Seq<char>,
    vs: Seq<Seq<char>>,
    post: Seq<char>,
    notes: Seq<Seq<char>>,
)
    requires
        parse_state(x) == (es.push((name, (vs, post))), Some(name)),
        unique_keys(es),
        !has_key(es, name),
        forall|k: int| 0 <= k < notes.len() ==> is_comment_line(#[trigger] notes[k]),
    ensures
        parse_state(x + notes) == (es.push((name, (vs, post + join_lines(notes)))), Some(name)),
    decreases notes.len(),
{
    if notes.len() == 0 {
        assert(x + notes =~= x);
        assert(post + join_lines(notes) =~= post);
    } else {
        let n2 = notes.drop_last();
        lemma_parse_notes(x, es, name, vs, post, n2);
        let e1 = es.push((name, (vs, post + join_lines(n2))));
        lemma_unique_push(es, name, (vs, post + join_lines(n2)));
        lemma_key_pos(e1, es.len() as int);
        assert((x + notes).drop_last() =~= x + n2);
        assert((x + notes).last() == notes.last());
        assert(is_comment_line(notes[notes.len() - 1]));
        assert(post + join_lines(n2) + notes.last() + seq!['\n'] =~= post + join_lines(notes));
        assert(parse_state(x + notes).0 =~= es.push((name, (vs, post + join_lines(notes)))));
    }
}

proof fn lemma_parse_blocks(pre: Seq<Seq<char>>, bs: Seq<Block>)
    requires
        forall|k: int| 0 <= k < pre.len() ==> is_comment_line(#[trigger] pre[k]),
        forall|k: int| 0 <= k < bs.len() ==> canonical_block(#[trigger] bs[k]),
        forall|i: int, j: int|
            0 <= i < bs.len() && 0 <= j < bs.len() && #[trigger] bs[i].0 == #[trigger] bs[j].0
                ==> i == j,
    ensures
        parse_state(pre + block_lines(bs)).0 == bs.map_values(|b: Block| block_entry(b)),
        parse_state(pre + block_lines(bs)).1 == (if bs.len() > 0 {
            Some(bs.last().0)
        } else {
            None
        }),
    decreases bs.len(),
{
    if bs.len() == 0 {
        assert(pre + block_lines(bs) =~= pre);
        lemma_parse_comments(pre);
        assert(bs.map_values(|b: Block| block_entry(b)) =~= Seq::<
            (Seq<char>, (Seq<Seq<char>>, Seq<char>)),
        >::empty());
    } else {
        let bs2 = bs.drop_last();
        let b = bs.last();
        let n = bs.len() - 1;
        assert(canonical_block(bs[n]));
        assert forall|i: int, j: int|
            0 <= i < bs2.len() && 0 <= j < bs2.len() && #[trigger] bs2[i].0 == #[trigger] bs2[j].0
                implies i == j by {
            assert(bs[i].0 == bs[j].0);
        }
        lemma_parse_blocks(pre, bs2);
        let x = pre + block_lines(bs2);
        let es = bs2.map_values(|b: Block| block_entry(b));
        assert forall|i: int, j: int|
            0 <= i < es.len() && 0 <= j < es.len() && #[trigger] es[i].0 == #[trigger] es[j].0
                implies i == j by {
            assert(bs[i].0 == bs[j].0);
        }
        lemma_data_line(b);
        let dl = data_line(b);
        assert(!has_key(es, b.0)) by {
            if has_key(es, b.0) {
                let j = choose|j: int| 0 <= j < es.len() && #[trigger] es[j].0 == b.0;
                assert(bs[j].0 == bs[n].0);
            }
        }
        let y = x + seq![dl];
        assert(y.drop_last() =~= x);
        assert(y.last() == dl);
        let head = comment_tail(b) + seq!['\n'];
        assert(parse_state(y) == parse_step(parse_state(x), dl));
        assert(parse_state(y) == (es.push((b.0, (b.1, head))), Some(b.0)));
        lemma_parse_notes(y, es, b.0, b.1, head, b.3);
        assert(pre + block_lines(bs) =~= y + b.3);
        assert(es.push((b.0, (b.1, head + join_lines(b.3)))) =~= bs.map_values(
            |b: Block| block_entry(b),
        ));
    }
}

proof fn lemma_entries_text(bs: Seq<Block>)
    ensures
        entries_text(bs.map_values(|b: Block| block_entry(b))) == join_lines(block_lines(bs)),
    decreases bs.len(),
{
    let es = bs.map_values(|b: Block| block_entry(b));
    if bs.len() == 0 {
        assert(es =~= Seq::<(Seq<char>, (Seq<Seq<char>>, Seq<char>))>::empty());
    } else {
        let bs2 = bs.drop_last();
        let b = bs.last();
        lemma_entries_text(bs2);
        assert(es.drop_last() =~= bs2.map_values(|b: Block| block_entry(b)));
        let bl2 = block_lines(bs2);
        lemma_join_lines_append(bl2 + seq![data_line(b)], b.3);
        lemma_join_lines_append(bl2, seq![data_line(b)]);
        lemma_join_one(data_line(b));
        assert(es.last() == block_entry(b));
        assert(block_lines(bs) == bl2 + seq![data_line(b)] + b.3);
        assert(entry_text(es.last()) =~= data_line(b) + seq!['\n'] + join_lines(b.3));
        assert(entries_text(es) =~= join_lines(block_lines(bs)));
    }
}

/// Parsing a canonical text and writing the document out again gives the
/// text back, character for character.
pub proof fn lemma_round_trip(pre: Seq<Seq<char>>, bs: Seq<Block>)
    requires
        canonical(pre, bs),
    ensures
        ({
            let t = canonical_text(pre, bs);
            dump_text(preamble_of(lines(t)), parse_entries(lines(t))) == t
        }),
{
    let bl = block_lines(bs);
    let all = pre + bl;
    let t = canonical_text(pre, bs);
    lemma_block_lines(bs);
    assert forall|k: int| 0 <= k < all.len() implies plain_line(#[trigger] all[k]) by {
        if k < pre.len() {
            assert(all[k] == pre[k]);
        } else {
            assert(all[k] == bl[k - pre.len()]);
        }
    }
    lemma_lines_joined(all);
    if bs.len() > 0 {
        lemma_data_line(bs[0]);
    }
    lemma_preamble(pre, bl);
    lemma_parse_blocks(pre, bs);
    lemma_entries_text(bs);
    lemma_join_lines_append(pre, bl);
    assert(preamble_of(lines(t)) + entries_text(parse_entries(lines(t))) == t);
    assert(all.len() > 0);
    let last = all.last();
    assert(plain_line(all[all.len() - 1]));
    assert(!is_ws(last.last()));
    assert(t.last() == '\n');
    assert(t.drop_last() =~= join_lines(all.drop_last()) + last);
    assert(t.drop_last().last() == last.last());
    assert(trim_end(t.drop_last()) == t.drop_last());
    assert(trim_end(t) == t.drop_last());
    assert(dump_text(preamble_of(lines(t)), parse_entries(lines(t))) =~= t);
}

} // verus!
