//! The `.tool-versions` document: a preamble of comment lines, then for each
//! tool its version specifiers and the text that follows them.

use crate::ordered_map::{
    has_key, insert_entry, key_pos, lemma_insert_here, lemma_insert_keeps, lemma_insert_keys,
    lemma_key_pos, new_plugin_map, new_version_map, plugin_at,
    plugin_entries, plugin_map_insert, plugin_map_len, plugin_map_remove, remove_key, unique_keys,
    version_lists, version_map_insert,
};
use crate::platform::{
    borrowed_path, copied_path, empty_path, owned_path, path_buf_bytes, path_bytes,
};
use crate::text::{
    char_vec, colon_trimmed_len, comment_line, find_hash, first_hash, is_comment_line, lines,
    split_lines, split_words, trim_colons, trim_end, views, words, ws_trimmed_len,
};
use std::collections::HashMap;
use color_eyre::eyre::Report;
use indexmap::IndexMap;
use std::path::{Path, PathBuf};
use vstd::prelude::*;

verus! {

/// One tool's entry: its version specifiers, and the text written after them
/// (a newline, or the line's comment and any comment lines under it).
pub struct ToolVersionPlugin {
    pub versions: Vec<String>,
    pub post: String,
}

impl View for ToolVersionPlugin {
    type V = (Seq<Seq<char>>, Seq<char>);

    open spec fn view(&self) -> (Seq<Seq<char>>, Seq<char>) {
        (views(self.versions@), self.post@)
    }
}

/// The entries of a document in order: tool name, version specifiers, and
/// trailing text.
pub type Entries = Seq<(Seq<char>, (Seq<Seq<char>>, Seq<char>))>;

/// The text kept after an entry's data: ` #`, what follows the line's first
/// `#`, and a newline; or a newline alone where that comment is empty.
pub open spec fn trailing_text(l: Seq<char>) -> Seq<char> {
    let h = first_hash(l);
    if h + 1 < l.len() {
        seq![' ', '#'] + l.subrange(h + 1, l.len() as int) + seq!['\n']
    } else {
        seq!['\n']
    }
}

/// What reading a text has built so far: the entries, and the tool named by
/// the last data line read, if any.
pub type ParseState = (Entries, Option<Seq<char>>);

/// The state after reading line `l`. A comment line joins the trailing text
/// of the tool that the last data line above it named (or is dropped where
/// no data line came before it). A data line sets the entry of its tool, less
/// trailing colons, to the words that follow and the line's trailing text,
/// and becomes the last data line. Any other line changes nothing.
pub open spec fn parse_step(st: ParseState, l: Seq<char>) -> ParseState {
    let es = st.0;
    if is_comment_line(l) {
        match st.1 {
            Some(k) => (
                insert_entry(
                    es,
                    k,
                    (entry_or_blank(es, k).0, entry_or_blank(es, k).1 + l + seq!['\n']),
                ),
                st.1,
            ),
            None => st,
        }
    } else if is_data_line(l) {
        (insert_entry(es, line_tool(l), (line_versions(l), trailing_text(l))), Some(line_tool(l)))
    } else {
        st
    }
}

/// The words of line `l` before its first `#`.
pub open spec fn data_words(l: Seq<char>) -> Seq<Seq<char>> {
    words(l.take(first_hash(l)))
}

/// A line that is no comment line and has a word before its first `#`.
pub open spec fn is_data_line(l: Seq<char>) -> bool {
    !is_comment_line(l) && data_words(l).len() > 0
}

/// The tool that a data line names: its first word less trailing colons.
pub open spec fn line_tool(l: Seq<char>) -> Seq<char> {
    trim_colons(data_words(l)[0])
}

/// The version specifiers of a data line: the words after the first.
pub open spec fn line_versions(l: Seq<char>) -> Seq<Seq<char>> {
    data_words(l).skip(1)
}

/// The state after reading the lines `ls` in order.
pub open spec fn parse_state(ls: Seq<Seq<char>>) -> ParseState
    decreases ls.len(),
{
    if ls.len() == 0 {
        (Seq::empty(), None)
    } else {
        parse_step(parse_state(ls.drop_last()), ls.last())
    }
}

/// The entries that the lines `ls` give, read in order.
pub open spec fn parse_entries(ls: Seq<Seq<char>>) -> Entries {
    parse_state(ls).0
}

/// A data line for a tool that is already present keeps that tool's place
/// and sets its versions and trailing text to the line's; every other entry
/// stays as it was. A tool seen for the first time goes last.
pub proof fn lemma_duplicate_tool(st: ParseState, l: Seq<char>)
    requires
        unique_keys(st.0),
        is_data_line(l),
    ensures
        has_key(st.0, line_tool(l)) ==> parse_step(st, l).0 == st.0.update(
            key_pos(st.0, line_tool(l)),
            (line_tool(l), (line_versions(l), trailing_text(l))),
        ),
        !has_key(st.0, line_tool(l)) ==> parse_step(st, l).0 == st.0.push(
            (line_tool(l), (line_versions(l), trailing_text(l))),
        ),
        parse_step(st, l).1 == Some(line_tool(l)),
{
}

/// No two entries that a text gives name the same tool.
pub proof fn lemma_parse_unique(ls: Seq<Seq<char>>)
    ensures
        unique_keys(parse_entries(ls)),
    decreases ls.len(),
{
    if ls.len() > 0 {
        lemma_parse_unique(ls.drop_last());
        let st = parse_state(ls.drop_last());
        let l = ls.last();
        if is_comment_line(l) {
            if let Some(k) = st.1 {
                lemma_insert_here(
                    st.0,
                    k,
                    (entry_or_blank(st.0, k).0, entry_or_blank(st.0, k).1 + l + seq!['\n']),
                );
            }
        } else if is_data_line(l) {
            lemma_insert_here(st.0, line_tool(l), (line_versions(l), trailing_text(l)));
        }
    }
}

/// A tool keeps the place it took when a text first named it: once the
/// first `m` lines hold an entry for `k`, no later line moves it.
pub proof fn lemma_first_place_kept(ls: Seq<Seq<char>>, m: int, k: Seq<char>)
    requires
        0 <= m <= ls.len(),
        has_key(parse_entries(ls.take(m)), k),
    ensures
        has_key(parse_entries(ls), k),
        key_pos(parse_entries(ls), k) == key_pos(parse_entries(ls.take(m)), k),
    decreases ls.len(),
{
    if ls.len() == m {
        assert(ls.take(m) =~= ls);
    } else {
        let l2 = ls.drop_last();
        assert(l2.take(m) =~= ls.take(m));
        lemma_first_place_kept(l2, m, k);
        lemma_parse_unique(l2);
        let st = parse_state(l2);
        let l = ls.last();
        if is_comment_line(l) {
            if let Some(k2) = st.1 {
                lemma_insert_keeps(
                    st.0,
                    k,
                    k2,
                    (entry_or_blank(st.0, k2).0, entry_or_blank(st.0, k2).1 + l + seq!['\n']),
                );
            }
        } else if is_data_line(l) {
            lemma_insert_keeps(st.0, k, line_tool(l), (line_versions(l), trailing_text(l)));
        }
    }
}

/// Where line `j` is the last data line naming its tool, that tool's entry
/// holds the line's version specifiers, and its trailing text begins with
/// the line's: nothing of an earlier line naming the tool survives.
pub proof fn lemma_last_line_wins(ls: Seq<Seq<char>>, j: int)
    requires
        0 <= j < ls.len(),
        is_data_line(ls[j]),
        forall|m: int|
            j < m < ls.len() && is_data_line(#[trigger] ls[m]) ==> line_tool(ls[m]) != line_tool(
                ls[j],
            ),
    ensures
        ({
            let es = parse_entries(ls);
            let k = line_tool(ls[j]);
            &&& has_key(es, k)
            &&& es[key_pos(es, k)].1.0 == line_versions(ls[j])
            &&& trailing_text(ls[j]).is_prefix_of(es[key_pos(es, k)].1.1)
        }),
    decreases ls.len(),
{
    let k = line_tool(ls[j]);
    let l2 = ls.drop_last();
    let st = parse_state(l2);
    let l = ls.last();
    lemma_parse_unique(l2);
    if ls.len() == j + 1 {
        lemma_insert_here(st.0, k, (line_versions(l), trailing_text(l)));
        assert(trailing_text(l).is_prefix_of(trailing_text(l)));
    } else {
        assert forall|m: int|
            j < m < l2.len() && is_data_line(#[trigger] l2[m]) implies line_tool(l2[m])
            != line_tool(l2[j]) by {
            assert(l2[m] == ls[m]);
        }
        assert(l2[j] == ls[j]);
        lemma_last_line_wins(l2, j);
        let p = key_pos(st.0, k);
        let post = st.0[p].1.1;
        if is_comment_line(l) {
            if let Some(k2) = st.1 {
                let v = (entry_or_blank(st.0, k2).0, entry_or_blank(st.0, k2).1 + l + seq!['\n']);
                lemma_insert_keeps(st.0, k, k2, v);
                if k2 == k {
                    let t = trailing_text(ls[j]);
                    assert((post + l + seq!['\n']).subrange(0, t.len() as int) =~= post.subrange(
                        0,
                        t.len() as int,
                    ));
                }
            }
        } else if is_data_line(l) {
            assert(ls[ls.len() - 1] == l);
            lemma_insert_keeps(st.0, k, line_tool(l), (line_versions(l), trailing_text(l)));
        }
    }
}

/// The tools that a text's entries hold are exactly the tools that its data
/// lines name; and the tool of the last data line read has an entry.
pub proof fn lemma_keys_are_named(ls: Seq<Seq<char>>, k: Seq<char>)
    ensures
        has_key(parse_entries(ls), k) <==> exists|j: int|
            0 <= j < ls.len() && is_data_line(#[trigger] ls[j]) && line_tool(ls[j]) == k,
        parse_state(ls).1 matches Some(c) ==> has_key(parse_entries(ls), c),
    decreases ls.len(),
{
    if ls.len() > 0 {
        let l2 = ls.drop_last();
        let st = parse_state(l2);
        let l = ls.last();
        lemma_keys_are_named(l2, k);
        if let Some(c) = st.1 {
            lemma_keys_are_named(l2, c);
        }
        assert forall|j: int| 0 <= j < l2.len() implies #[trigger] l2[j] == ls[j] by {}
        if is_comment_line(l) {
            if let Some(c) = st.1 {
                let v = (entry_or_blank(st.0, c).0, entry_or_blank(st.0, c).1 + l + seq!['\n']);
                lemma_insert_keys(st.0, k, c, v);
                lemma_insert_keys(st.0, c, c, v);
            }
        } else if is_data_line(l) {
            let v = (line_versions(l), trailing_text(l));
            lemma_insert_keys(st.0, k, line_tool(l), v);
            lemma_insert_keys(st.0, line_tool(l), line_tool(l), v);
            if let Some(c) = st.1 {
                lemma_insert_keys(st.0, c, line_tool(l), v);
            }
            if k == line_tool(l) {
                assert(ls[ls.len() - 1] == l);
            }
        }
        if exists|j: int|
            0 <= j < ls.len() && is_data_line(#[trigger] ls[j]) && line_tool(ls[j]) == k {
            let j = choose|j: int|
                0 <= j < ls.len() && is_data_line(#[trigger] ls[j]) && line_tool(ls[j]) == k;
            if j < l2.len() {
                assert(l2[j] == ls[j]);
            }
        }
    }
}

/// Tools stand in the order of the first data lines that name them: where
/// line `j` is the first to name its tool, every other tool named before
/// line `j` comes before it.
pub proof fn lemma_first_order(ls: Seq<Seq<char>>, i: int, j: int)
    requires
        0 <= i < j < ls.len(),
        is_data_line(ls[i]),
        is_data_line(ls[j]),
        line_tool(ls[i]) != line_tool(ls[j]),
        forall|m: int|
            0 <= m < j && is_data_line(#[trigger] ls[m]) ==> line_tool(ls[m]) != line_tool(ls[j]),
    ensures
        ({
            let es = parse_entries(ls);
            &&& has_key(es, line_tool(ls[i]))
            &&& has_key(es, line_tool(ls[j]))
            &&& key_pos(es, line_tool(ls[i])) < key_pos(es, line_tool(ls[j]))
        }),
{
    let ki = line_tool(ls[i]);
    let kj = line_tool(ls[j]);
    let a = ls.take(j);
    let b = ls.take(j + 1);
    assert(a[i] == ls[i]);
    lemma_keys_are_named(a, ki);
    lemma_keys_are_named(a, kj);
    assert(!has_key(parse_entries(a), kj)) by {
        if exists|m: int|
            0 <= m < a.len() && is_data_line(#[trigger] a[m]) && line_tool(a[m]) == kj {
            let m = choose|m: int|
                0 <= m < a.len() && is_data_line(#[trigger] a[m]) && line_tool(a[m]) == kj;
            assert(a[m] == ls[m]);
        }
    }
    assert(b.drop_last() =~= a);
    assert(b.last() == ls[j]);
    let ea = parse_entries(a);
    let v = (line_versions(ls[j]), trailing_text(ls[j]));
    lemma_parse_unique(a);
    lemma_parse_unique(b);
    lemma_insert_keeps(ea, ki, kj, v);
    lemma_key_pos(parse_entries(b), ea.len() as int);
    lemma_first_place_kept(ls, j + 1, ki);
    lemma_first_place_kept(ls, j + 1, kj);
}

/// With no data line between data line `j` and line `i`, the last data line
/// read before line `i` is line `j`.
pub proof fn lemma_last_tool(ls: Seq<Seq<char>>, j: int, i: int)
    requires
        0 <= j < i <= ls.len(),
        is_data_line(ls[j]),
        forall|m: int| j < m < i ==> !is_data_line(#[trigger] ls[m]),
    ensures
        parse_state(ls.take(i)).1 == Some(line_tool(ls[j])),
    decreases i,
{
    let t = ls.take(i);
    assert(t.drop_last() =~= ls.take(i - 1));
    assert(t.last() == ls[i - 1]);
    if i > j + 1 {
        lemma_last_tool(ls, j, i - 1);
    }
}

/// A comment line joins the trailing text of the tool that the last data
/// line above it named, whatever lines named that tool before: the tool
/// keeps its place and its versions.
pub proof fn lemma_comment_joins_tool(ls: Seq<Seq<char>>, j: int, i: int)
    requires
        0 <= j < i < ls.len(),
        is_data_line(ls[j]),
        forall|m: int| j < m < i ==> !is_data_line(#[trigger] ls[m]),
        is_comment_line(ls[i]),
    ensures
        ({
            let before = parse_entries(ls.take(i));
            let after = parse_entries(ls.take(i + 1));
            let k = line_tool(ls[j]);
            &&& has_key(before, k)
            &&& has_key(after, k)
            &&& key_pos(after, k) == key_pos(before, k)
            &&& after[key_pos(before, k)].1 == (
                before[key_pos(before, k)].1.0,
                before[key_pos(before, k)].1.1 + ls[i] + seq!['\n'],
            )
        }),
{
    let k = line_tool(ls[j]);
    let pre = ls.take(i);
    let st = parse_state(pre);
    lemma_last_tool(ls, j, i);
    let upto = ls.take(j + 1);
    assert(upto.drop_last() =~= ls.take(j));
    assert(upto.last() == ls[j]);
    lemma_parse_unique(ls.take(j));
    lemma_insert_here(
        parse_entries(ls.take(j)),
        k,
        (line_versions(ls[j]), trailing_text(ls[j])),
    );
    assert(pre.take(j + 1) =~= upto);
    lemma_first_place_kept(pre, j + 1, k);
    lemma_parse_unique(pre);
    let t = ls.take(i + 1);
    assert(t.drop_last() =~= pre);
    assert(t.last() == ls[i]);
    lemma_insert_keeps(
        st.0,
        k,
        k,
        (entry_or_blank(st.0, k).0, entry_or_blank(st.0, k).1 + ls[i] + seq!['\n']),
    );
}

/// The leading comment lines of `ls`, each followed by a newline.
pub open spec fn preamble_of(ls: Seq<Seq<char>>) -> Seq<char>
    decreases ls.len(),
{
    if ls.len() > 0 && is_comment_line(ls[0]) {
        ls[0] + seq!['\n'] + preamble_of(ls.drop_first())
    } else {
        Seq::empty()
    }
}

/// An entry with no versions and no trailing text.
fn blank_plugin() -> (r: ToolVersionPlugin)
    ensures
        r@ == (Seq::<Seq<char>>::empty(), Seq::<char>::empty()),
{
    let r = ToolVersionPlugin { versions: Vec::new(), post: String::new() };
    assert(views(r.versions@) =~= Seq::<Seq<char>>::empty());
    r
}

/// The leading comment lines of `ls`, each followed by a newline.
fn preamble_text(ls: &Vec<String>) -> (r: String)
    ensures
        r@ == preamble_of(views(ls@)),
{
    let ghost l = views(ls@);
    let mut pre = String::new();
    let mut i: usize = 0;
    proof {
        reveal_strlit("\n");
    }
    assert(l.skip(0) =~= l);
    assert(pre@ + preamble_of(l) =~= preamble_of(l));
    while i < ls.len() && comment_line(ls[i].as_str())
        invariant
            l == views(ls@),
            i <= ls.len(),
            preamble_of(l) == pre@ + preamble_of(l.skip(i as int)),
        decreases ls.len() - i,
    {
        assert(l.skip(i as int).drop_first() =~= l.skip(i + 1));
        assert(l.skip(i as int)[0] == ls@[i as int]@);
        proof {
            reveal_strlit("\n");
        }
        let ghost before = pre@;
        pre.append(ls[i].as_str());
        pre.append("\n");
        assert(pre@ =~= before + ls@[i as int]@ + seq!['\n']);
        assert(before + (ls@[i as int]@ + seq!['\n'] + preamble_of(l.skip(i + 1))) =~= pre@
            + preamble_of(l.skip(i + 1)));
        i = i + 1;
    }
    proof {
        if i < ls.len() {
            assert(l.skip(i as int)[0] == ls@[i as int]@);
        }
        assert(pre@ + Seq::<char>::empty() =~= pre@);
    }
    pre
}

/// The view of an optional tool name.
pub open spec fn opt_key(k: Option<String>) -> Option<Seq<char>> {
    match k {
        Some(s) => Some(s@),
        None => None,
    }
}

/// The entries that the lines of `input` give.
fn parse_plugins(input: &str) -> (r: IndexMap<String, ToolVersionPlugin>)
    ensures
        plugin_entries(r) == parse_entries(lines(input@)),
        unique_keys(plugin_entries(r)),
{
    let ls = split_lines(input);
    let ghost l = views(ls@);
    let mut plugins = new_plugin_map();
    let mut cur: Option<String> = None;
    let mut i: usize = 0;
    proof {
        reveal_strlit("\n");
        reveal_strlit(" #");
        assert(l.take(0) =~= Seq::<Seq<char>>::empty());
    }
    while i < ls.len()
        invariant
            l == views(ls@),
            l == lines(input@),
            i <= ls.len(),
            plugin_entries(plugins) == parse_entries(l.take(i as int)),
            opt_key(cur) == parse_state(l.take(i as int)).1,
            unique_keys(plugin_entries(plugins)),
        decreases ls.len() - i,
    {
        proof {
            reveal_strlit("\n");
            reveal_strlit(" #");
        }
        let line: &str = ls[i].as_str();
        let ghost es = plugin_entries(plugins);
        assert(l.take(i + 1).drop_last() =~= l.take(i as int));
        assert(l.take(i + 1).last() == line@);
        if comment_line(line) {
            match &cur {
                Some(k) => {
                    let taken = plugin_map_insert(&mut plugins, k.clone(), blank_plugin());
                    let ghost mid = plugin_entries(plugins);
                    let mut e = match taken {
                        Some(e) => e,
                        None => blank_plugin(),
                    };
                    assert(e@ == entry_or_blank(es, k@));
                    let ghost e0 = e@;
                    e.post.append(line);
                    e.post.append("\n");
                    assert(e@ == (e0.0, e0.1 + line@ + seq!['\n']));
                    proof {
                        if has_key(es, k@) {
                            lemma_key_pos(mid, key_pos(es, k@));
                        } else {
                            lemma_key_pos(mid, es.len() as int);
                        }
                    }
                    plugin_map_insert(&mut plugins, k.clone(), e);
                    proof {
                        if has_key(es, k@) {
                            assert(plugin_entries(plugins) =~= es.update(key_pos(es, k@), (k@, e@)));
                        } else {
                            assert(plugin_entries(plugins) =~= es.push((k@, e@)));
                        }
                    }
                },
                None => {},
            }
        } else {
            let cs = char_vec(line);
            let h = find_hash(&cs);
            assert(cs@.subrange(0, h as int) =~= line@.take(h as int));
            let ws = split_words(line, &cs, 0, h);
            assert(views(ws@) == data_words(line@));
            if ws.len() > 0 {
                let first: &str = ws[0].as_str();
                let ncs = char_vec(first);
                let e = colon_trimmed_len(&ncs, ncs.len());
                assert(ncs@.take(ncs.len() as int) =~= ncs@);
                let name = String::from_str(first.substring_char(0, e));
                assert(name@ =~= trim_colons(views(ws@)[0]));
                let mut versions: Vec<String> = Vec::new();
                let mut j: usize = 1;
                assert(views(ws@).subrange(1, 1) =~= views(versions@));
                while j < ws.len()
                    invariant
                        1 <= j <= ws.len(),
                        views(versions@) == views(ws@).subrange(1, j as int),
                    decreases ws.len() - j,
                {
                    let ghost before = versions@;
                    versions.push(ws[j].clone());
                    assert(views(versions@) =~= views(before).push(ws@[j as int]@));
                    assert(views(versions@) =~= views(ws@).subrange(1, j + 1));
                    j = j + 1;
                }
                assert(views(versions@) =~= views(ws@).skip(1));
                let post = if h < cs.len() && h + 1 < cs.len() {
                    let mut p = String::from_str(" #");
                    p.append(line.substring_char(h + 1, cs.len()));
                    p.append("\n");
                    p
                } else {
                    String::from_str("\n")
                };
                assert(post@ =~= trailing_text(line@));
                let tool = name.clone();
                plugin_map_insert(&mut plugins, name, ToolVersionPlugin { versions, post });
                cur = Some(tool);
            }
        }
        i = i + 1;
    }
    assert(l.take(ls.len() as int) =~= l);
    plugins
}

/// The version specifiers joined by single spaces.
pub open spec fn join_spaces(vs: Seq<Seq<char>>) -> Seq<char>
    decreases vs.len(),
{
    if vs.len() == 0 {
        Seq::empty()
    } else if vs.len() == 1 {
        vs[0]
    } else {
        join_spaces(vs.drop_last()) + seq![' '] + vs.last()
    }
}

/// One entry written out: its name, a space, its versions, its trailing text.
pub open spec fn entry_text(e: (Seq<char>, (Seq<Seq<char>>, Seq<char>))) -> Seq<char> {
    e.0 + seq![' '] + join_spaces(e.1.0) + e.1.1
}

/// The entries written out in order.
pub open spec fn entries_text(es: Entries) -> Seq<char>
    decreases es.len(),
{
    if es.len() == 0 {
        Seq::empty()
    } else {
        entries_text(es.drop_last()) + entry_text(es.last())
    }
}

/// A document's text: the preamble and the entries, without trailing
/// whitespace, and one newline.
pub open spec fn dump_text(pre: Seq<char>, es: Entries) -> Seq<char> {
    trim_end(pre + entries_text(es)) + seq!['\n']
}

/// The entry of tool `k`, or an empty one where `es` has none.
pub open spec fn entry_or_blank(es: Entries, k: Seq<char>) -> (Seq<Seq<char>>, Seq<char>) {
    if has_key(es, k) {
        es[key_pos(es, k)].1
    } else {
        (Seq::empty(), Seq::empty())
    }
}

/// The tool names with their version specifiers.
pub open spec fn version_view(es: Entries) -> Seq<(Seq<char>, Seq<Seq<char>>)> {
    es.map_values(|e: (Seq<char>, (Seq<Seq<char>>, Seq<char>))| (e.0, e.1.0))
}

/// After `replace_versions(k, vs)`, tool `k` maps to exactly `vs` in
/// `plugins()`; after `remove_plugin(k)`, `k` is no longer there; and
/// `add_version` on a tool that is missing adds it after all others.
pub proof fn lemma_mutators(es: Entries, k: Seq<char>, vs: Seq<Seq<char>>, v: Seq<char>)
    requires
        unique_keys(es),
    ensures
        ({
            let r = version_view(insert_entry(es, k, (vs, entry_or_blank(es, k).1)));
            has_key(r, k) && r[key_pos(r, k)].1 == vs
        }),
        !has_key(version_view(remove_key(es, k)), k),
        !has_key(es, k) ==> ({
            let r = version_view(
                insert_entry(es, k, (entry_or_blank(es, k).0.push(v), entry_or_blank(es, k).1)),
            );
            r.len() == es.len() + 1 && r.last() == (k, seq![v])
        }),
{
    let e = (vs, entry_or_blank(es, k).1);
    let after = insert_entry(es, k, e);
    let r = version_view(after);
    let i = if has_key(es, k) {
        key_pos(es, k)
    } else {
        es.len() as int
    };
    assert(after[i].0 == k);
    assert(r[i].0 == k);
    assert forall|a: int, b: int|
        0 <= a < r.len() && 0 <= b < r.len() && #[trigger] r[a].0 == #[trigger] r[b].0 implies a
        == b by {
        assert(r[a].0 == after[a].0 && r[b].0 == after[b].0);
        if a != i && b != i {
            assert(after[a] == es[a] && after[b] == es[b]);
        } else if a != i {
            assert(after[a] == es[a]);
        } else if b != i {
            assert(after[b] == es[b]);
        }
    }
    lemma_key_pos(r, i);
    let removed = remove_key(es, k);
    let rr = version_view(removed);
    if has_key(rr, k) {
        let j = choose|j: int| 0 <= j < rr.len() && #[trigger] rr[j].0 == k;
        let p = key_pos(es, k);
        if j < p {
            assert(removed[j] == es[j]);
        } else {
            assert(removed[j] == es[j + 1]);
        }
    }
    if !has_key(es, k) {
        let w = (entry_or_blank(es, k).0.push(v), entry_or_blank(es, k).1);
        assert(entry_or_blank(es, k).0.push(v) =~= seq![v]);
        assert(version_view(insert_entry(es, k, w)).last() == (k, seq![v]));
    }
}

/// The kinds of configuration file that a version manager reads.
#[derive(Debug, Clone, Copy, PartialEq, Eq, Structural)]
pub enum ConfigFileType {
    ToolVersions,
}

/// Where a set of tool versions came from.
pub enum PluginSource {
    ToolVersions(PathBuf),
}

/// A `.tool-versions` document.
pub struct ToolVersions {
    path: PathBuf,
    pre: String,
    plugins: IndexMap<String, ToolVersionPlugin>,
}

/// `s` with `vs` appended, joined by single spaces.
fn append_joined(s: &mut String, vs: &Vec<String>)
    ensures
        final(s)@ == old(s)@ + join_spaces(views(vs@)),
{
    let ghost start = s@;
    let mut i: usize = 0;
    proof {
        reveal_strlit(" ");
    }
    assert(views(vs@).take(0) =~= Seq::<Seq<char>>::empty());
    assert(s@ =~= start + join_spaces(views(vs@).take(0)));
    while i < vs.len()
        invariant
            i <= vs.len(),
            s@ == start + join_spaces(views(vs@).take(i as int)),
        decreases vs.len() - i,
    {
        proof {
            reveal_strlit(" ");
        }
        let ghost t = views(vs@).take(i + 1);
        assert(t.drop_last() =~= views(vs@).take(i as int));
        if i > 0 {
            s.append(" ");
        }
        s.append(vs[i].as_str());
        assert(s@ =~= start + join_spaces(t));
        i = i + 1;
    }
    assert(views(vs@).take(vs.len() as int) =~= views(vs@));
}

/// Copies of the strings of `v`.
fn copy_strings(v: &Vec<String>) -> (r: Vec<String>)
    ensures
        views(r@) == views(v@),
{
    let mut r: Vec<String> = Vec::new();
    let mut i: usize = 0;
    while i < v.len()
        invariant
            i <= v.len(),
            views(r@) == views(v@).take(i as int),
        decreases v.len() - i,
    {
        let ghost before = r@;
        r.push(v[i].clone());
        assert(views(r@) =~= views(before).push(v@[i as int]@));
        assert(views(r@) =~= views(v@).take(i + 1));
        i = i + 1;
    }
    assert(views(v@).take(v.len() as int) =~= views(v@));
    r
}

impl ToolVersions {
    /// The leading comment lines, each with its newline.
    pub closed spec fn preamble(&self) -> Seq<char> {
        self.pre@
    }

    /// The entries in order.
    pub closed spec fn entries(&self) -> Entries {
        plugin_entries(self.plugins)
    }

    /// The file the document is bound to.
    pub closed spec fn path(&self) -> PathBuf {
        self.path
    }

    /// No two entries name the same tool.
    pub open spec fn wf(&self) -> bool {
        unique_keys(self.entries())
    }

    /// An empty document bound to `filename`.
    pub fn init(filename: &Path) -> (r: ToolVersions)
        ensures
            r.wf(),
            path_buf_bytes(r.path()) == path_bytes(filename),
            r.preamble() == Seq::<char>::empty(),
            r.entries() == Seq::<(Seq<char>, (Seq<Seq<char>>, Seq<char>))>::empty(),
    {
        ToolVersions { path: owned_path(filename), pre: String::new(), plugins: new_plugin_map() }
    }

    /// The document that the text `s` holds, bound to no file. Parsing accepts
    /// every text.
    pub fn parse_str(s: &str) -> (r: Result<ToolVersions, Report>)
        ensures
            r matches Ok(t) && t.wf() && path_buf_bytes(t.path()) == Seq::<u8>::empty()
                && t.preamble() == preamble_of(lines(s@)) && t.entries() == parse_entries(
                lines(s@),
            ),
    {
        let ls = split_lines(s);
        let pre = preamble_text(&ls);
        Ok(ToolVersions { path: empty_path(), plugins: parse_plugins(s), pre })
    }

    /// The document that the text `s`, read from the file at `path`, holds.
    pub fn from_file_text(path: &Path, s: &str) -> (r: Result<ToolVersions, Report>)
        ensures
            r matches Ok(t) && t.wf() && path_buf_bytes(t.path()) == path_bytes(path)
                && t.preamble() == preamble_of(lines(s@)) && t.entries() == parse_entries(
                lines(s@),
            ),
    {
        let ls = split_lines(s);
        let pre = preamble_text(&ls);
        Ok(ToolVersions { path: owned_path(path), plugins: parse_plugins(s), pre })
    }

    /// The document written out as text.
    pub fn dump(&self) -> (r: String)
        ensures
            r@ == dump_text(self.preamble(), self.entries()),
    {
        let ghost es = self.entries();
        let mut s = self.pre.clone();
        let n = plugin_map_len(&self.plugins);
        let mut i: usize = 0;
        assert(es.take(0) =~= Seq::<(Seq<char>, (Seq<Seq<char>>, Seq<char>))>::empty());
        assert(s@ =~= self.pre@ + entries_text(es.take(0)));
        while i < n
            invariant
                es == self.entries(),
                n == es.len(),
                i <= n,
                s@ == self.pre@ + entries_text(es.take(i as int)),
            decreases n - i,
        {
            proof {
                reveal_strlit(" ");
            }
            assert(es.take(i + 1).drop_last() =~= es.take(i as int));
            match plugin_at(&self.plugins, i) {
                Some(p) => {
                    let ghost before = s@;
                    s.append(p.0.as_str());
                    s.append(" ");
                    append_joined(&mut s, &p.1.versions);
                    s.append(p.1.post.as_str());
                    assert(s@ =~= before + entry_text(es[i as int]));
                    assert(s@ =~= self.pre@ + entries_text(es.take(i + 1)));
                },
                None => {},
            }
            i = i + 1;
        }
        assert(es.take(n as int) =~= es);
        let cs = char_vec(s.as_str());
        let k = ws_trimmed_len(&cs);
        let mut out = String::from_str(s.as_str().substring_char(0, k));
        proof {
            reveal_strlit("\n");
        }
        out.append("\n");
        assert(out@ =~= dump_text(self.preamble(), self.entries()));
        out
    }

    /// This document's format.
    pub fn get_type(&self) -> (r: ConfigFileType)
        ensures
            r == ConfigFileType::ToolVersions,
    {
        ConfigFileType::ToolVersions
    }

    /// The file this document is bound to.
    pub fn get_path(&self) -> (r: &Path)
        ensures
            path_bytes(r) == path_buf_bytes(self.path()),
    {
        borrowed_path(&self.path)
    }

    /// Where this document's versions come from: its file.
    pub fn source(&self) -> (r: PluginSource)
        ensures
            r matches PluginSource::ToolVersions(q) && path_buf_bytes(q) == path_buf_bytes(
                self.path(),
            ),
    {
        PluginSource::ToolVersions(copied_path(&self.path))
    }

    /// Each tool with its version specifiers, in order.
    pub fn plugins(&self) -> (r: IndexMap<String, Vec<String>>)
        requires
            self.wf(),
        ensures
            version_lists(r) == version_view(self.entries()),
    {
        let ghost es = self.entries();
        let mut out = new_version_map();
        let n = plugin_map_len(&self.plugins);
        let mut i: usize = 0;
        assert(version_view(es).take(0) =~= version_lists(out));
        while i < n
            invariant
                es == self.entries(),
                unique_keys(es),
                n == es.len(),
                i <= n,
                version_lists(out) == version_view(es).take(i as int),
            decreases n - i,
        {
            match plugin_at(&self.plugins, i) {
                Some(p) => {
                    let ghost before = version_lists(out);
                    assert(!has_key(before, p.0@)) by {
                        if has_key(before, p.0@) {
                            let j = key_pos(before, p.0@);
                            assert(es[j].0 == es[i as int].0);
                        }
                    }
                    version_map_insert(&mut out, p.0.clone(), copy_strings(&p.1.versions));
                    assert(version_lists(out) =~= version_view(es).take(i + 1));
                },
                None => {},
            }
            i = i + 1;
        }
        assert(version_view(es).take(n as int) =~= version_view(es));
        out
    }

    /// The environment variables that this document sets: none, for this
    /// format.
    pub fn env(&self) -> (r: HashMap<String, String>)
        ensures
            r@ == Map::<String, String>::empty(),
    {
        HashMap::new()
    }

    /// Drops the entry of tool `plugin`, comment included; the others keep
    /// their order.
    pub fn remove_plugin(&mut self, plugin: &String)
        requires
            old(self).wf(),
        ensures
            final(self).wf(),
            final(self).preamble() == old(self).preamble(),
            final(self).path() == old(self).path(),
            final(self).entries() == remove_key(old(self).entries(), plugin@),
    {
        plugin_map_remove(&mut self.plugins, plugin);
    }

    /// Appends `version` to the versions of tool `plugin`, which is created
    /// last, with no trailing text, where it is missing.
    pub fn add_version(&mut self, plugin: &String, version: &str)
        requires
            old(self).wf(),
        ensures
            final(self).wf(),
            final(self).preamble() == old(self).preamble(),
            final(self).path() == old(self).path(),
            final(self).entries() == insert_entry(
                old(self).entries(),
                plugin@,
                (
                    entry_or_blank(old(self).entries(), plugin@).0.push(version@),
                    entry_or_blank(old(self).entries(), plugin@).1,
                ),
            ),
    {
        let ghost es = self.entries();
        let taken = plugin_map_insert(&mut self.plugins, plugin.clone(), blank_plugin());
        let ghost mid = self.entries();
        let mut e = match taken {
            Some(e) => e,
            None => blank_plugin(),
        };
        assert(e@ == entry_or_blank(es, plugin@));
        let ghost before = e.versions@;
        e.versions.push(String::from_str(version));
        assert(views(e.versions@) =~= views(before).push(version@));
        proof {
            if has_key(es, plugin@) {
                lemma_key_pos(mid, key_pos(es, plugin@));
            } else {
                lemma_key_pos(mid, es.len() as int);
            }
        }
        plugin_map_insert(&mut self.plugins, plugin.clone(), e);
        proof {
            if has_key(es, plugin@) {
                assert(self.entries() =~= es.update(key_pos(es, plugin@), (plugin@, e@)));
            } else {
                assert(self.entries() =~= es.push((plugin@, e@)));
            }
        }
    }

    /// Sets the versions of tool `plugin_name` to `versions`, keeping its
    /// trailing text; the tool is created last where it is missing.
    pub fn replace_versions(&mut self, plugin_name: &String, versions: &[String])
        requires
            old(self).wf(),
        ensures
            final(self).wf(),
            final(self).preamble() == old(self).preamble(),
            final(self).path() == old(self).path(),
            final(self).entries() == insert_entry(
                old(self).entries(),
                plugin_name@,
                (views(versions@), entry_or_blank(old(self).entries(), plugin_name@).1),
            ),
    {
        let ghost es = self.entries();
        let taken = plugin_map_insert(&mut self.plugins, plugin_name.clone(), blank_plugin());
        let ghost mid = self.entries();
        let post = match taken {
            Some(e) => e.post,
            None => String::new(),
        };
        let mut vs: Vec<String> = Vec::new();
        let mut i: usize = 0;
        while i < versions.len()
            invariant
                i <= versions.len(),
                views(vs@) == views(versions@).take(i as int),
            decreases versions.len() - i,
        {
            let ghost before = vs@;
            vs.push(versions[i].clone());
            assert(views(vs@) =~= views(before).push(versions@[i as int]@));
            assert(views(vs@) =~= views(versions@).take(i + 1));
            i = i + 1;
        }
        assert(views(versions@).take(versions@.len() as int) =~= views(versions@));
        let e = ToolVersionPlugin { versions: vs, post };
        proof {
            if has_key(es, plugin_name@) {
                lemma_key_pos(mid, key_pos(es, plugin_name@));
            } else {
                lemma_key_pos(mid, es.len() as int);
            }
        }
        plugin_map_insert(&mut self.plugins, plugin_name.clone(), e);
        proof {
            if has_key(es, plugin_name@) {
                assert(self.entries() =~= es.update(key_pos(es, plugin_name@), (plugin_name@, e@)));
            } else {
                assert(self.entries() =~= es.push((plugin_name@, e@)));
            }
        }
    }
}

} // verus!
