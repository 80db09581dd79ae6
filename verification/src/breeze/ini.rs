//! An insertion-ordered configuration tree and the INI writer that produces
//! the layout of fcitx5's `RawConfig` + `writeAsIni`.
//!
//! The tree is modelled by [`Tree`]: a name, a value and the sub items in
//! insertion order. Paths use `/` as the separator.

use vstd::prelude::*;
use crate::text::{chars_of, push_char, push_chars, push_str, split_chars, seqs_of, split_on, string_of};

verus! {

broadcast use vstd::std_specs::vec::axiom_vec_decreases_to_view;

/// The mathematical model of a configuration node.
pub struct Tree {
    /// The key under the parent.
    pub name: Seq<char>,
    /// The value (empty when unset).
    pub value: Seq<char>,
    /// The sub items in insertion order.
    pub subs: Seq<Tree>,
}

/// A node in the configuration tree (like `fcitx::RawConfig`): a name, a
/// value and insertion-ordered sub items.
#[derive(Debug)]
pub struct RawConfig {
    name: String,
    value: String,
    sub_items: Vec<RawConfig>,
}

/// The model of one node.
pub closed spec fn tree_of(c: RawConfig) -> Tree
    decreases c,
{
    Tree { name: c.name@, value: c.value@, subs: trees_of(c.sub_items@) }
}

/// The models of a sequence of nodes.
pub closed spec fn trees_of(s: Seq<RawConfig>) -> Seq<Tree>
    decreases s,
{
    if s.len() == 0 {
        Seq::empty()
    } else {
        trees_of(s.drop_last()).push(tree_of(s.last()))
    }
}

impl View for RawConfig {
    type V = Tree;

    closed spec fn view(&self) -> Tree {
        tree_of(*self)
    }
}

// ───────────────────────────── specifications ─────────────────────────────

/// Index of the first sub item named `name`.
pub open spec fn find(subs: Seq<Tree>, name: Seq<char>) -> Option<int>
    decreases subs.len(),
{
    if subs.len() == 0 {
        None
    } else {
        match find(subs.drop_last(), name) {
            Some(i) => Some(i),
            None => if subs.last().name == name {
                Some(subs.len() - 1)
            } else {
                None
            },
        }
    }
}

/// The direct child named `name`, if any.
pub open spec fn child_of(t: Tree, name: Seq<char>) -> Option<Tree> {
    match find(t.subs, name) {
        Some(i) => Some(t.subs[i]),
        None => None,
    }
}

/// The node reached by following `segs` from `t`.
pub open spec fn get_path(t: Tree, segs: Seq<Seq<char>>) -> Option<Tree>
    decreases segs.len(),
{
    if segs.len() == 0 {
        Some(t)
    } else {
        match child_of(t, segs[0]) {
            Some(c) => get_path(c, segs.drop_first()),
            None => None,
        }
    }
}

/// A new node with no value and no sub items.
pub open spec fn fresh(name: Seq<char>) -> Tree {
    Tree { name, value: Seq::empty(), subs: Seq::empty() }
}

/// The child named `name`, or a new node of that name.
pub open spec fn sub_of(t: Tree, name: Seq<char>) -> Tree {
    match child_of(t, name) {
        Some(c) => c,
        None => fresh(name),
    }
}

/// `t` with the child named `name` replaced by `n` (appended when absent).
pub open spec fn put_sub(t: Tree, name: Seq<char>, n: Tree) -> Tree {
    match find(t.subs, name) {
        Some(i) => Tree { subs: t.subs.update(i, n), ..t },
        None => Tree { subs: t.subs.push(n), ..t },
    }
}

/// The node at `segs`, creating the missing ones.
pub open spec fn open_path(t: Tree, segs: Seq<Seq<char>>) -> Tree
    decreases segs.len(),
{
    if segs.len() == 0 {
        t
    } else {
        open_path(sub_of(t, segs[0]), segs.drop_first())
    }
}

/// `t` with the node at `segs` (created if missing) replaced by `n`.
pub open spec fn close_path(t: Tree, segs: Seq<Seq<char>>, n: Tree) -> Tree
    decreases segs.len(),
{
    if segs.len() == 0 {
        n
    } else {
        put_sub(t, segs[0], close_path(sub_of(t, segs[0]), segs.drop_first(), n))
    }
}

/// The segments of a `/`-separated path.
pub open spec fn path_segs(path: Seq<char>) -> Seq<Seq<char>> {
    split_on(path, '/')
}

/// `t` after `set(path, value)`.
pub open spec fn set_path(t: Tree, path: Seq<char>, value: Seq<char>) -> Tree {
    let segs = path_segs(path);
    close_path(t, segs, Tree { value, ..open_path(t, segs) })
}

/// No two direct sub items share a name, at every level.
pub open spec fn unique_names(t: Tree) -> bool
    decreases t,
{
    &&& forall|i: int, j: int|
        0 <= i < j < t.subs.len() ==> (#[trigger] t.subs[i]).name != (#[trigger] t.subs[j]).name
    &&& forall|i: int| 0 <= i < t.subs.len() ==> unique_names(#[trigger] t.subs[i])
}

/// Whether `c` forces a value to be quoted.
pub open spec fn needs_escape(c: char) -> bool {
    c == '\u{c}' || c == '\r' || c == '\t' || c == '\u{b}' || c == ' ' || c == '"' || c == '\\'
        || c == '\n'
}

/// The escaped form of one character (`\\`, `\"`, `\n`, `\f`, `\r`, `\t`,
/// `\v`; every other character stands for itself).
pub open spec fn escape_char(c: char) -> Seq<char> {
    if c == '\\' {
        seq!['\\', '\\']
    } else if c == '"' {
        seq!['\\', '"']
    } else if c == '\n' {
        seq!['\\', 'n']
    } else if c == '\u{c}' {
        seq!['\\', 'f']
    } else if c == '\r' {
        seq!['\\', 'r']
    } else if c == '\t' {
        seq!['\\', 't']
    } else if c == '\u{b}' {
        seq!['\\', 'v']
    } else {
        seq![c]
    }
}

/// Every character of `s` escaped.
pub open spec fn escape_body(s: Seq<char>) -> Seq<char>
    decreases s.len(),
{
    if s.len() == 0 {
        Seq::empty()
    } else {
        escape_body(s.drop_last()) + escape_char(s.last())
    }
}

/// `fcitx::stringutils::escapeForValue`: the escaped text, wrapped in
/// double quotes when any character needs escaping (or is a space).
pub open spec fn escaped(s: Seq<char>) -> Seq<char> {
    if exists|i: int| 0 <= i < s.len() && needs_escape(#[trigger] s[i]) {
        seq!['"'] + escape_body(s) + seq!['"']
    } else {
        escape_body(s)
    }
}

/// The `Key=Value` line of a sub item; pure containers (sub items, no
/// value) have none.
pub open spec fn entry_line(c: Tree) -> Seq<char> {
    if c.subs.len() > 0 && c.value.len() == 0 {
        Seq::empty()
    } else {
        c.name + seq!['='] + escaped(c.value) + seq!['\n']
    }
}

/// The `Key=Value` lines of a node's sub items.
pub open spec fn entries(subs: Seq<Tree>) -> Seq<char>
    decreases subs.len(),
{
    if subs.len() == 0 {
        Seq::empty()
    } else {
        entries(subs.drop_last()) + entry_line(subs.last())
    }
}

/// The path of a child below `path`.
pub open spec fn child_path(path: Seq<char>, name: Seq<char>) -> Seq<char> {
    if path.len() == 0 {
        name
    } else {
        path + seq!['/'] + name
    }
}

/// The section a node writes for itself: `[path]` (omitted at the root),
/// its entry lines and a blank line, when it has entry lines at all.
pub open spec fn section(t: Tree, path: Seq<char>) -> Seq<char> {
    if t.subs.len() > 0 && entries(t.subs).len() > 0 {
        (if path.len() > 0 {
            seq!['['] + path + seq![']', '\n']
        } else {
            Seq::empty()
        }) + entries(t.subs) + seq!['\n']
    } else {
        Seq::empty()
    }
}

/// The INI text of a node and, depth-first in insertion order, of all
/// nodes below it.
pub open spec fn node_text(t: Tree, path: Seq<char>) -> Seq<char>
    decreases t,
{
    section(t, path) + children_text(t.subs, path)
}

/// The INI text of the sub items of the node at `path`.
pub open spec fn children_text(subs: Seq<Tree>, path: Seq<char>) -> Seq<char>
    decreases subs,
{
    if subs.len() == 0 {
        Seq::empty()
    } else {
        children_text(subs.drop_last(), path) + node_text(
            subs.last(),
            child_path(path, subs.last().name),
        )
    }
}

// ─────────────────────────────── lemmas ────────────────────────────────

proof fn lemma_trees_index(s: Seq<RawConfig>)
    ensures
        trees_of(s).len() == s.len(),
        forall|i: int| 0 <= i < s.len() ==> #[trigger] trees_of(s)[i] == tree_of(s[i]),
    decreases s.len(),
{
    if s.len() > 0 {
        lemma_trees_index(s.drop_last());
    }
}

proof fn lemma_trees_update(s: Seq<RawConfig>, i: int, x: RawConfig)
    requires
        0 <= i < s.len(),
    ensures
        trees_of(s.update(i, x)) == trees_of(s).update(i, tree_of(x)),
{
    lemma_trees_index(s);
    lemma_trees_index(s.update(i, x));
    assert(trees_of(s.update(i, x)) =~= trees_of(s).update(i, tree_of(x)));
}

proof fn lemma_trees_push(s: Seq<RawConfig>, x: RawConfig)
    ensures
        trees_of(s.push(x)) == trees_of(s).push(tree_of(x)),
{
    assert(s.push(x).drop_last() =~= s);
}

/// `find` returns an index of a matching sub item, and no earlier one matches.
pub proof fn lemma_find(subs: Seq<Tree>, name: Seq<char>)
    ensures
        match find(subs, name) {
            Some(i) => 0 <= i < subs.len() && subs[i].name == name && forall|j: int|
                0 <= j < i ==> (#[trigger] subs[j]).name != name,
            None => forall|j: int| 0 <= j < subs.len() ==> (#[trigger] subs[j]).name != name,
        },
    decreases subs.len(),
{
    if subs.len() > 0 {
        lemma_find(subs.drop_last(), name);
        assert(forall|j: int| 0 <= j < subs.len() - 1 ==> subs.drop_last()[j] == subs[j]);
    }
}

/// Replacing a sub item by one of the same name leaves `find` unchanged.
pub proof fn lemma_find_update(subs: Seq<Tree>, name: Seq<char>, i: int, n: Tree)
    requires
        find(subs, name) == Some(i),
        n.name == name,
    ensures
        find(subs.update(i, n), name) == Some(i),
{
    lemma_find(subs, name);
    lemma_find_first(subs.update(i, n), name, i);
}

/// An index whose item matches, with no earlier match, is what `find` returns.
pub proof fn lemma_find_first(subs: Seq<Tree>, name: Seq<char>, i: int)
    requires
        0 <= i < subs.len(),
        subs[i].name == name,
        forall|j: int| 0 <= j < i ==> (#[trigger] subs[j]).name != name,
    ensures
        find(subs, name) == Some(i),
    decreases subs.len(),
{
    lemma_find(subs, name);
    if i < subs.len() - 1 {
        lemma_find_first(subs.drop_last(), name, i);
    } else {
        lemma_find(subs.drop_last(), name);
        match find(subs.drop_last(), name) {
            Some(k) => {
                assert(subs.drop_last()[k] == subs[k]);
            },
            None => {},
        }
    }
}

/// Appending an item named `name` where none was makes `find` return it.
pub proof fn lemma_find_push(subs: Seq<Tree>, name: Seq<char>, n: Tree)
    requires
        find(subs, name) is None,
        n.name == name,
    ensures
        find(subs.push(n), name) == Some(subs.len() as int),
{
    assert(subs.push(n).drop_last() =~= subs);
}

/// The node opened at a nonempty path carries the last segment as its name.
pub proof fn lemma_open_name(t: Tree, segs: Seq<Seq<char>>)
    requires
        segs.len() > 0,
    ensures
        open_path(t, segs).name == segs.last(),
    decreases segs.len(),
{
    lemma_sub_name(t, segs[0]);
    if segs.len() > 1 {
        lemma_open_name(sub_of(t, segs[0]), segs.drop_first());
        assert(segs.drop_first().last() == segs.last());
    } else {
        assert(segs.drop_first().len() == 0);
        assert(open_path(sub_of(t, segs[0]), segs.drop_first()) == sub_of(t, segs[0]));
        assert(segs.last() == segs[0]);
    }
}

/// The child reached by name has that name.
pub proof fn lemma_sub_name(t: Tree, name: Seq<char>)
    ensures
        sub_of(t, name).name == name,
{
    lemma_find(t.subs, name);
}

/// Replacing the node at a path, then reading that path, gives the new node,
/// provided the new node keeps the name it replaces.
pub proof fn lemma_get_close(t: Tree, segs: Seq<Seq<char>>, n: Tree)
    requires
        segs.len() > 0 ==> n.name == segs.last(),
    ensures
        get_path(close_path(t, segs, n), segs) == Some(n),
    decreases segs.len(),
{
    if segs.len() > 0 {
        let s0 = segs[0];
        let rest = segs.drop_first();
        let inner = close_path(sub_of(t, s0), rest, n);
        if rest.len() > 0 {
            assert(rest.last() == segs.last());
        }
        lemma_get_close(sub_of(t, s0), rest, n);
        assert(inner.name == s0) by {
            if rest.len() > 0 {
                lemma_close_name(sub_of(t, s0), rest, n);
                lemma_sub_name(t, s0);
            } else {
                assert(segs.last() == s0);
            }
        }
        lemma_find(t.subs, s0);
        match find(t.subs, s0) {
            Some(i) => {
                lemma_find_update(t.subs, s0, i, inner);
            },
            None => {
                lemma_find_push(t.subs, s0, inner);
            },
        }
    }
}

/// Replacing below a nonempty path keeps the top node's name.
pub proof fn lemma_close_name(t: Tree, segs: Seq<Seq<char>>, n: Tree)
    requires
        segs.len() > 0,
    ensures
        close_path(t, segs, n).name == t.name,
{
}

/// Read after write: once `set(path, value)` has run, `get(path)` finds a
/// node holding `value`.
pub proof fn lemma_set_get(t: Tree, path: Seq<char>, value: Seq<char>)
    ensures
        get_path(set_path(t, path, value), path_segs(path)) matches Some(n) && n.value == value,
{
    let segs = path_segs(path);
    crate::text::lemma_split_nonempty(path, '/');
    let n = Tree { value, ..open_path(t, segs) };
    lemma_open_name(t, segs);
    lemma_get_close(t, segs, n);
}

/// The child that [`RawConfig::sub_mut`] hands out, taken from a tree whose
/// names are unique at every level, has unique names too.
pub proof fn lemma_sub_unique(t: Tree, name: Seq<char>)
    requires
        unique_names(t),
    ensures
        unique_names(sub_of(t, name)),
{
    lemma_find(t.subs, name);
    match find(t.subs, name) {
        Some(i) => {
            assert(unique_names(t.subs[i]));
        },
        None => {},
    }
}

/// The node that [`RawConfig::get_mut`] hands out, taken from a tree whose
/// names are unique at every level, has unique names too.
pub proof fn lemma_open_unique(t: Tree, segs: Seq<Seq<char>>)
    requires
        unique_names(t),
    ensures
        unique_names(open_path(t, segs)),
    decreases segs.len(),
{
    if segs.len() > 0 {
        lemma_sub_unique(t, segs[0]);
        lemma_open_unique(sub_of(t, segs[0]), segs.drop_first());
    }
}

/// [`RawConfig::sub_mut`] never creates a second sub item of a name: once
/// the child it handed out is back in place, with its name and with unique
/// names below it, the names are unique at every level.
pub proof fn lemma_put_unique(t: Tree, name: Seq<char>, n: Tree)
    requires
        unique_names(t),
        unique_names(n),
        n.name == name,
    ensures
        unique_names(put_sub(t, name, n)),
{
    lemma_find(t.subs, name);
    let r = put_sub(t, name, n);
    match find(t.subs, name) {
        Some(k) => {
            assert forall|i: int, j: int| 0 <= i < j < r.subs.len() implies (#[trigger] r.subs[i]).name
                != (#[trigger] r.subs[j]).name by {
                assert(t.subs[i].name != t.subs[j].name);
            }
            assert forall|i: int| 0 <= i < r.subs.len() implies unique_names(#[trigger] r.subs[i]) by {
                if i != k {
                    assert(unique_names(t.subs[i]));
                }
            }
        },
        None => {
            assert forall|i: int, j: int| 0 <= i < j < r.subs.len() implies (#[trigger] r.subs[i]).name
                != (#[trigger] r.subs[j]).name by {
                if j < t.subs.len() {
                    assert(t.subs[i].name != t.subs[j].name);
                } else {
                    assert(t.subs[i].name != name);
                }
            }
            assert forall|i: int| 0 <= i < r.subs.len() implies unique_names(#[trigger] r.subs[i]) by {
                if i < t.subs.len() {
                    assert(unique_names(t.subs[i]));
                }
            }
        },
    }
}

/// [`RawConfig::get_mut`] never creates a second sub item of a name: once
/// the node it handed out is back in place, with its name and with unique
/// names below it, the names are unique at every level.
pub proof fn lemma_close_unique(t: Tree, segs: Seq<Seq<char>>, n: Tree)
    requires
        unique_names(t),
        unique_names(n),
        segs.len() > 0 ==> n.name == segs.last(),
    ensures
        unique_names(close_path(t, segs, n)),
    decreases segs.len(),
{
    if segs.len() > 0 {
        let s0 = segs[0];
        let rest = segs.drop_first();
        let inner = close_path(sub_of(t, s0), rest, n);
        if rest.len() > 0 {
            assert(rest.last() == segs.last());
        }
        lemma_sub_unique(t, s0);
        lemma_close_unique(sub_of(t, s0), rest, n);
        assert(inner.name == s0) by {
            if rest.len() > 0 {
                lemma_close_name(sub_of(t, s0), rest, n);
                lemma_sub_name(t, s0);
            } else {
                assert(segs.last() == s0);
            }
        }
        lemma_put_unique(t, s0, inner);
    }
}

/// [`RawConfig::set_value`] leaves the sub items alone, so names that were
/// unique at every level stay unique.
pub proof fn lemma_set_value_keeps_unique(t: Tree, value: Seq<char>)
    requires
        unique_names(t),
    ensures
        unique_names(Tree { value, ..t }),
{
    let r = Tree { value, ..t };
    assert(r.subs == t.subs);
}

/// `set` never creates a second sub item of a name: a tree whose names are
/// unique at every level keeps them unique.
pub proof fn lemma_set_keeps_unique(t: Tree, path: Seq<char>, value: Seq<char>)
    requires
        unique_names(t),
    ensures
        unique_names(set_path(t, path, value)),
{
    let segs = path_segs(path);
    crate::text::lemma_split_nonempty(path, '/');
    let o = open_path(t, segs);
    let n = Tree { value, ..o };
    lemma_open_name(t, segs);
    lemma_open_unique(t, segs);
    assert(unique_names(n)) by {
        assert(n.subs == o.subs);
    }
    lemma_close_unique(t, segs, n);
}

/// The sub items of `a` keep their names and places at the front of `b`:
/// nothing was removed or reordered, new items only follow.
pub open spec fn names_kept(a: Seq<Tree>, b: Seq<Tree>) -> bool {
    &&& a.len() <= b.len()
    &&& forall|i: int| 0 <= i < a.len() ==> (#[trigger] b[i]).name == a[i].name
}

/// `find` looks only at names: two sequences with the same names, place by
/// place, find the same index.
proof fn lemma_find_names(a: Seq<Tree>, b: Seq<Tree>, name: Seq<char>)
    requires
        a.len() == b.len(),
        forall|i: int| 0 <= i < a.len() ==> (#[trigger] b[i]).name == a[i].name,
    ensures
        find(b, name) == find(a, name),
{
    lemma_find(a, name);
    lemma_find(b, name);
    match find(a, name) {
        Some(i) => {
            assert forall|j: int| 0 <= j < i implies (#[trigger] b[j]).name != name by {
                assert(a[j].name != name);
            }
            lemma_find_first(b, name, i);
        },
        None => {
            match find(b, name) {
                Some(k) => {
                    assert(a[k].name == name);
                },
                None => {},
            }
        },
    }
}

/// Putting a child under its own name (as [`RawConfig::sub_mut`] does with
/// the child it hands out) keeps every other sub item where it was and as it
/// was, and keeps the order of names: an existing child is replaced in
/// place, a new one comes last.
pub proof fn lemma_put_keeps_order(t: Tree, name: Seq<char>, n: Tree)
    requires
        n.name == name,
    ensures
        names_kept(t.subs, put_sub(t, name, n).subs),
        put_sub(t, name, n).name == t.name,
        put_sub(t, name, n).value == t.value,
        child_of(t, name) is Some ==> put_sub(t, name, n).subs.len() == t.subs.len(),
        child_of(t, name) is None ==> put_sub(t, name, n).subs == t.subs.push(n),
        forall|i: int|
            0 <= i < t.subs.len() && (#[trigger] t.subs[i]).name != name ==> put_sub(t, name, n).subs[i]
                == t.subs[i],
{
    lemma_find(t.subs, name);
}

/// Other children stay reachable under their names after a put.
proof fn lemma_put_child_other(t: Tree, name: Seq<char>, n: Tree, other: Seq<char>)
    requires
        n.name == name,
        other != name,
        child_of(t, other) is Some,
    ensures
        child_of(put_sub(t, name, n), other) == child_of(t, other),
{
    lemma_find(t.subs, name);
    lemma_find(t.subs, other);
    let j = find(t.subs, other)->Some_0;
    let r = put_sub(t, name, n);
    match find(t.subs, name) {
        Some(i) => {
            lemma_find_names(t.subs, r.subs, other);
            assert(j != i);
        },
        None => {
            assert forall|k: int| 0 <= k < j implies (#[trigger] r.subs[k]).name != other by {
                assert(t.subs[k].name != other);
            }
            lemma_find_first(r.subs, other, j);
        },
    }
}

/// Replacing the node at `segs` by one with the same sub items as the node
/// opened there (only its value may differ) leaves every node that was
/// reachable still reachable by the same path, with its sub items' names
/// kept in order, and with its value unless it is the node at `segs`.
proof fn lemma_close_keeps_others(t: Tree, segs: Seq<Seq<char>>, nn: Tree, q: Seq<Seq<char>>, n: Tree)
    requires
        segs.len() > 0 ==> nn.name == segs.last(),
        nn.subs == open_path(t, segs).subs,
        get_path(t, q) == Some(n),
    ensures
        get_path(close_path(t, segs, nn), q) matches Some(m) && names_kept(n.subs, m.subs) && (q != segs
            ==> m.value == n.value),
    decreases segs.len(), q.len(),
{
    if segs.len() == 0 {
        assert(close_path(t, segs, nn) == nn);
        assert(open_path(t, segs) == t);
        if q.len() > 0 {
            assert(child_of(nn, q[0]) == child_of(t, q[0]));
            assert(get_path(nn, q) == get_path(t, q));
        } else {
            assert(get_path(nn, q) == Some(nn));
            assert(n == t);
            assert(q =~= segs);
        }
    } else {
        let s0 = segs[0];
        let rest = segs.drop_first();
        let c0 = sub_of(t, s0);
        let inner = close_path(c0, rest, nn);
        let r = close_path(t, segs, nn);
        assert(r == put_sub(t, s0, inner));
        if rest.len() > 0 {
            assert(rest.last() == segs.last());
        }
        assert(inner.name == s0) by {
            if rest.len() > 0 {
                lemma_close_name(c0, rest, nn);
                lemma_sub_name(t, s0);
            } else {
                assert(segs.last() == s0);
            }
        }
        lemma_put_keeps_order(t, s0, inner);
        if q.len() == 0 {
            assert(n == t);
            assert(get_path(r, q) == Some(r));
            assert(q.len() != segs.len());
        } else if q[0] != s0 {
            lemma_put_child_other(t, s0, inner, q[0]);
            assert(get_path(r, q) == get_path(t, q));
        } else {
            let c = child_of(t, s0)->Some_0;
            assert(c0 == c);
            lemma_find(t.subs, s0);
            let i = find(t.subs, s0)->Some_0;
            lemma_find_update(t.subs, s0, i, inner);
            assert(child_of(r, s0) == Some(inner));
            assert(open_path(t, segs) == open_path(c0, rest));
            if q.drop_first() == rest {
                assert(q =~= seq![s0] + rest);
                assert(segs =~= seq![s0] + rest);
            }
            lemma_close_keeps_others(c0, rest, nn, q.drop_first(), n);
            assert(get_path(r, q) == get_path(inner, q.drop_first()));
        }
    }
}

/// `set(path, value)` disturbs nothing else: every node that was reachable
/// by a path is still reachable by it, keeps its value unless it is the
/// node at `path`, and keeps its sub items' names in their order (the nodes
/// that `set` creates come after them).
pub proof fn lemma_set_keeps_others(t: Tree, path: Seq<char>, value: Seq<char>, q: Seq<Seq<char>>, n: Tree)
    requires
        get_path(t, q) == Some(n),
    ensures
        get_path(set_path(t, path, value), q) matches Some(m) && names_kept(n.subs, m.subs) && (q
            != path_segs(path) ==> m.value == n.value),
{
    let segs = path_segs(path);
    crate::text::lemma_split_nonempty(path, '/');
    let o = open_path(t, segs);
    lemma_open_name(t, segs);
    lemma_close_keeps_others(t, segs, Tree { value, ..o }, q, n);
}

/// A run of changes made to a configuration through its mutators:
/// [`RawConfig::set`], [`RawConfig::set_value`], and the changes made
/// through the node that [`RawConfig::get_mut`] or [`RawConfig::sub_mut`]
/// hands out (`sub_mut(name)` opens the path of the one segment `name`).
pub enum ConfigEdit {
    /// No more changes.
    Done,
    /// `set(path, value)`, then the rest.
    SetPath { path: Seq<char>, value: Seq<char>, rest: Box<ConfigEdit> },
    /// `set_value(value)`, then the rest.
    SetValue { value: Seq<char>, rest: Box<ConfigEdit> },
    /// Open the node at `segs` (creating what is missing), make the changes
    /// `inner` through it, then the rest.
    Within { segs: Seq<Seq<char>>, inner: Box<ConfigEdit>, rest: Box<ConfigEdit> },
}

/// The tree after a run of changes.
pub open spec fn apply_edit(t: Tree, e: ConfigEdit) -> Tree
    decreases e,
{
    match e {
        ConfigEdit::Done => t,
        ConfigEdit::SetPath { path, value, rest } => apply_edit(set_path(t, path, value), *rest),
        ConfigEdit::SetValue { value, rest } => apply_edit(Tree { value, ..t }, *rest),
        ConfigEdit::Within { segs, inner, rest } => apply_edit(
            close_path(t, segs, apply_edit(open_path(t, segs), *inner)),
            *rest,
        ),
    }
}

proof fn lemma_names_kept_trans(a: Seq<Tree>, b: Seq<Tree>, c: Seq<Tree>)
    requires
        names_kept(a, b),
        names_kept(b, c),
    ensures
        names_kept(a, c),
{
    assert forall|i: int| 0 <= i < a.len() implies (#[trigger] c[i]).name == a[i].name by {
        assert(c[i].name == b[i].name);
    }
}

/// Any run of changes keeps a tree's name, keeps the names of its sub items
/// in order (new ones only follow), and keeps names unique at every level.
pub proof fn lemma_edit_keeps_names(t: Tree, e: ConfigEdit)
    requires
        unique_names(t),
    ensures
        unique_names(apply_edit(t, e)),
        apply_edit(t, e).name == t.name,
        names_kept(t.subs, apply_edit(t, e).subs),
    decreases e,
{
    match e {
        ConfigEdit::Done => {},
        ConfigEdit::SetPath { path, value, rest } => {
            let t1 = set_path(t, path, value);
            lemma_set_keeps_unique(t, path, value);
            crate::text::lemma_split_nonempty(path, '/');
            lemma_close_name(t, path_segs(path), Tree { value, ..open_path(t, path_segs(path)) });
            lemma_set_keeps_others(t, path, value, Seq::empty(), t);
            lemma_edit_keeps_names(t1, *rest);
            lemma_names_kept_trans(t.subs, t1.subs, apply_edit(t1, *rest).subs);
        },
        ConfigEdit::SetValue { value, rest } => {
            let t1 = Tree { value, ..t };
            lemma_set_value_keeps_unique(t, value);
            lemma_edit_keeps_names(t1, *rest);
        },
        ConfigEdit::Within { segs, inner, rest } => {
            let o = open_path(t, segs);
            lemma_open_unique(t, segs);
            lemma_edit_keeps_names(o, *inner);
            let n = apply_edit(o, *inner);
            let t1 = close_path(t, segs, n);
            if segs.len() > 0 {
                lemma_open_name(t, segs);
                lemma_close_name(t, segs, n);
                let s0 = segs[0];
                let rest_segs = segs.drop_first();
                let inner_t = close_path(sub_of(t, s0), rest_segs, n);
                if rest_segs.len() > 0 {
                    assert(rest_segs.last() == segs.last());
                    lemma_close_name(sub_of(t, s0), rest_segs, n);
                    lemma_sub_name(t, s0);
                } else {
                    assert(segs.last() == s0);
                }
                lemma_put_keeps_order(t, s0, inner_t);
            } else {
                assert(o == t);
            }
            lemma_close_unique(t, segs, n);
            lemma_edit_keeps_names(t1, *rest);
            lemma_names_kept_trans(t.subs, t1.subs, apply_edit(t1, *rest).subs);
        },
    }
}

/// Sub item names are unique in every reachable configuration: whatever
/// run of changes is made to a new node, no node of the result has two sub
/// items of one name, and the top node's sub items come in order of first
/// creation.
pub proof fn lemma_reachable_names_unique(name: Seq<char>, e: ConfigEdit)
    ensures
        unique_names(apply_edit(fresh(name), e)),
        apply_edit(fresh(name), e).name == name,
{
    assert(unique_names(fresh(name)));
    lemma_edit_keeps_names(fresh(name), e);
}

// ───────────────────────────── executables ────────────────────────────────

impl RawConfig {
    /// Create a new empty node.
    pub fn new(name: &str) -> (c: RawConfig)
        ensures
            c@ == fresh(name@),
    {
        let c = RawConfig { name: name.to_owned(), value: String::new(), sub_items: Vec::new() };
        assert(c.sub_items@ =~= Seq::<RawConfig>::empty());
        assert(c@ =~= fresh(name@));
        c
    }

    /// The node's name (the key under its parent).
    pub fn name(&self) -> (r: &str)
        ensures
            r@ == self@.name,
    {
        self.name.as_str()
    }

    /// The node's value, if any.
    pub fn value(&self) -> (r: &str)
        ensures
            r@ == self@.value,
    {
        self.value.as_str()
    }

    /// Set the node's value.
    pub fn set_value(&mut self, value: &str)
        ensures
            final(self)@ == (Tree { value: value@, ..old(self)@ }),
    {
        self.value = value.to_owned();
    }

    /// True if this node has any sub items.
    pub fn has_sub_items(&self) -> (r: bool)
        ensures
            r == (self@.subs.len() > 0),
    {
        proof {
            lemma_trees_index(self.sub_items@);
        }
        self.sub_items.len() > 0
    }

    /// Direct sub items in insertion order.
    pub fn sub_items(&self) -> (r: &[RawConfig])
        ensures
            r@.len() == self@.subs.len(),
            forall|i: int| 0 <= i < r@.len() ==> (#[trigger] r@[i])@ == self@.subs[i],
    {
        proof {
            lemma_trees_index(self.sub_items@);
        }
        self.sub_items.as_slice()
    }

    /// Index of the first sub item named `key`.
    fn position(&self, key: &String) -> (r: Option<usize>)
        ensures
            match r {
                Some(i) => find(self@.subs, key@) == Some(i as int) && i < self.sub_items@.len(),
                None => find(self@.subs, key@) is None,
            },
    {
        proof {
            lemma_trees_index(self.sub_items@);
        }
        let ghost subs = self@.subs;
        let mut i: usize = 0;
        while i < self.sub_items.len()
            invariant
                i <= self.sub_items@.len(),
                subs == self@.subs,
                subs.len() == self.sub_items@.len(),
                forall|k: int| 0 <= k < self.sub_items@.len() ==> #[trigger] subs[k] == tree_of(self.sub_items@[k]),
                forall|j: int| 0 <= j < i ==> (#[trigger] subs[j]).name != key@,
            decreases self.sub_items.len() - i,
        {
            assert(subs[i as int] == tree_of(self.sub_items@[i as int]));
            if self.sub_items[i].name == *key {
                proof {
                    lemma_find_first(subs, key@, i as int);
                }
                return Some(i);
            }
            i += 1;
        }
        proof {
            lemma_find(subs, key@);
        }
        None
    }

    /// Get a direct child by name.
    pub fn child(&self, name: &str) -> (r: Option<&RawConfig>)
        ensures
            match r {
                Some(c) => child_of(self@, name@) == Some(c@),
                None => child_of(self@, name@) is None,
            },
    {
        let key = name.to_owned();
        proof {
            lemma_trees_index(self.sub_items@);
        }
        match self.position(&key) {
            Some(i) => Some(&self.sub_items[i]),
            None => None,
        }
    }

    /// Get a child by path (`"A/B/C"`), returning `None` if missing.
    pub fn get(&self, path: &str) -> (r: Option<&RawConfig>)
        ensures
            match r {
                Some(c) => get_path(self@, path_segs(path@)) == Some(c@),
                None => get_path(self@, path_segs(path@)) is None,
            },
    {
        let chars = chars_of(path);
        let parts = split_chars(&chars, '/');
        let ghost segs = path_segs(path@);
        assert(seqs_of(parts@) == segs);
        let mut cur: &RawConfig = self;
        let mut k: usize = 0;
        assert(segs.skip(0) =~= segs);
        while k < parts.len()
            invariant
                k <= parts@.len(),
                seqs_of(parts@) == segs,
                segs == path_segs(path@),
                get_path(self@, segs) == get_path(cur@, segs.skip(k as int)),
            decreases parts.len() - k,
        {
            assert(seqs_of(parts@)[k as int] == parts@[k as int]@);
            assert(segs.skip(k as int)[0] == parts@[k as int]@);
            assert(segs.skip(k as int).drop_first() =~= segs.skip(k + 1));
            let seg = crate::text::string_of(&parts[k]);
            match cur.child(seg.as_str()) {
                Some(c) => {
                    cur = c;
                },
                None => {
                    assert(get_path(cur@, segs.skip(k as int)) is None);
                    return None;
                },
            }
            k += 1;
        }
        assert(segs.skip(k as int).len() == 0);
        Some(cur)
    }

    /// Get (or create) a direct child by name.
    pub fn sub_mut(&mut self, name: &str) -> (r: &mut RawConfig)
        ensures
            r@ == sub_of(old(self)@, name@),
            final(self)@ == put_sub(old(self)@, name@, final(r)@),
    {
        let key = name.to_owned();
        proof {
            lemma_trees_index(self.sub_items@);
            lemma_find(self@.subs, name@);
        }
        match self.position(&key) {
            Some(i) => {
                let ghost old_items = self.sub_items@;
                let r = &mut self.sub_items[i];
                proof {
                    lemma_trees_update(old_items, i as int, *final(r));
                }
                r
            },
            None => {
                let child = RawConfig::new(name);
                let ghost old_items = self.sub_items@;
                self.sub_items.push(child);
                let i = self.sub_items.len() - 1;
                let ghost pushed = self.sub_items@;
                let r = &mut self.sub_items[i];
                proof {
                    lemma_trees_push(old_items, child);
                    assert(pushed.update(i as int, *final(r)) =~= old_items.push(*final(r)));
                    lemma_trees_push(old_items, *final(r));
                }
                r
            },
        }
    }

    /// Follow `segs[k..]`, creating nodes as needed.
    fn open_mut(&mut self, segs: &Vec<Vec<char>>, k: usize) -> (r: &mut RawConfig)
        requires
            k <= segs.len(),
        ensures
            r@ == open_path(old(self)@, seqs_of(segs@).skip(k as int)),
            final(self)@ == close_path(old(self)@, seqs_of(segs@).skip(k as int), final(r)@),
        decreases segs.len() - k,
    {
        let ghost rest = seqs_of(segs@).skip(k as int);
        if k >= segs.len() {
            assert(rest.len() == 0);
            return self;
        }
        assert(rest[0] == segs@[k as int]@);
        assert(rest.drop_first() =~= seqs_of(segs@).skip(k + 1));
        let seg = crate::text::string_of(&segs[k]);
        let c = self.sub_mut(seg.as_str());
        c.open_mut(segs, k + 1)
    }

    /// Get a mutable child by path, creating intermediate nodes as needed.
    pub fn get_mut(&mut self, path: &str) -> (r: &mut RawConfig)
        ensures
            r@ == open_path(old(self)@, path_segs(path@)),
            final(self)@ == close_path(old(self)@, path_segs(path@), final(r)@),
    {
        let chars = chars_of(path);
        let parts = split_chars(&chars, '/');
        assert(seqs_of(parts@).skip(0) =~= path_segs(path@));
        self.open_mut(&parts, 0)
    }

    /// Set the value at `path` (creating intermediate nodes as needed).
    pub fn set(&mut self, path: &str, value: &str)
        ensures
            final(self)@ == set_path(old(self)@, path@, value@),
    {
        let node = self.get_mut(path);
        node.set_value(value);
    }
}

/// Escape a value for INI output, replicating
/// `fcitx::stringutils::escapeForValue`: values containing any of
/// `\f \r \t \v " \ \n` (or a plain space) are wrapped in double quotes
/// with the special characters backslash-escaped.
pub fn escape_for_value(value: &str) -> (r: String)
    ensures
        r@ == escaped(value@),
{
    let v = chars_of(value);
    let mut need = false;
    let mut i: usize = 0;
    while i < v.len()
        invariant
            i <= v.len(),
            need == exists|j: int| 0 <= j < i && needs_escape(#[trigger] v@[j]),
        decreases v.len() - i,
    {
        let c = v[i];
        if c == '\u{c}' || c == '\r' || c == '\t' || c == '\u{b}' || c == ' ' || c == '"' || c
            == '\\' || c == '\n' {
            need = true;
        }
        i += 1;
    }
    let mut out = String::new();
    if need {
        push_char(&mut out, '"');
    }
    let ghost start = out@;
    let mut k: usize = 0;
    while k < v.len()
        invariant
            k <= v.len(),
            out@ == start + escape_body(v@.take(k as int)),
        decreases v.len() - k,
    {
        let c = v[k];
        let ghost before = out@;
        if c == '\\' {
            push_char(&mut out, '\\');
            push_char(&mut out, '\\');
        } else if c == '"' {
            push_char(&mut out, '\\');
            push_char(&mut out, '"');
        } else if c == '\n' {
            push_char(&mut out, '\\');
            push_char(&mut out, 'n');
        } else if c == '\u{c}' {
            push_char(&mut out, '\\');
            push_char(&mut out, 'f');
        } else if c == '\r' {
            push_char(&mut out, '\\');
            push_char(&mut out, 'r');
        } else if c == '\t' {
            push_char(&mut out, '\\');
            push_char(&mut out, 't');
        } else if c == '\u{b}' {
            push_char(&mut out, '\\');
            push_char(&mut out, 'v');
        } else {
            push_char(&mut out, c);
        }
        assert(out@ =~= before + escape_char(c));
        assert(v@.take(k + 1).drop_last() =~= v@.take(k as int));
        k += 1;
        assert(out@ =~= start + escape_body(v@.take(k as int)));
    }
    if need {
        push_char(&mut out, '"');
    }
    assert(v@.take(v.len() as int) =~= v@);
    assert(out@ =~= escaped(value@));
    out
}

/// Serialize `config` to INI, replicating `fcitx::writeAsIni`: every node
/// with entry lines writes a `[Path/To/Node]` section (no header at the
/// root) with its `Key=Value` lines and a blank line; pure containers only
/// produce their own sections; traversal is depth-first in insertion order.
pub fn write_ini(config: &RawConfig, out: &mut String)
    ensures
        final(out)@ == old(out)@ + node_text(config@, Seq::empty()),
{
    let path: Vec<char> = Vec::new();
    write_node(config, &path, out);
}

fn entries_of(config: &RawConfig) -> (r: String)
    ensures
        r@ == entries(config@.subs),
{
    proof {
        lemma_trees_index(config.sub_items@);
    }
    let ghost subs = config@.subs;
    let mut values = String::new();
    let mut i: usize = 0;
    while i < config.sub_items.len()
        invariant
            i <= config.sub_items@.len(),
            subs == config@.subs,
            subs.len() == config.sub_items@.len(),
            forall|k: int| 0 <= k < config.sub_items@.len() ==> #[trigger] subs[k] == tree_of(config.sub_items@[k]),
            values@ == entries(subs.take(i as int)),
        decreases config.sub_items.len() - i,
    {
        let child = &config.sub_items[i];
        assert(subs[i as int] == tree_of(*child));
        proof {
            lemma_trees_index(child.sub_items@);
        }
        assert(subs.take(i + 1).drop_last() =~= subs.take(i as int));
        let ghost before = values@;
        if !(child.sub_items.len() > 0 && child.value.as_str().is_empty()) {
            push_str(&mut values, child.name.as_str());
            push_char(&mut values, '=');
            let e = escape_for_value(child.value.as_str());
            push_str(&mut values, e.as_str());
            push_char(&mut values, '\n');
            assert(values@ =~= before + entry_line(subs[i as int]));
        } else {
            assert(child.value@.len() == 0);
            assert(values@ =~= before + entry_line(subs[i as int]));
        }
        i += 1;
    }
    assert(subs.take(subs.len() as int) =~= subs);
    values
}

fn write_node(config: &RawConfig, path: &Vec<char>, out: &mut String)
    ensures
        final(out)@ == old(out)@ + node_text(config@, path@),
    decreases config,
{
    let ghost o0 = out@;
    proof {
        lemma_trees_index(config.sub_items@);
    }
    let ghost subs = config@.subs;
    if config.sub_items.len() > 0 {
        let values = entries_of(config);
        if !values.as_str().is_empty() {
            if path.len() > 0 {
                push_char(out, '[');
                push_chars(out, path);
                push_char(out, ']');
                push_char(out, '\n');
            }
            push_str(out, values.as_str());
            push_char(out, '\n');
        }
    }
    assert(out@ =~= o0 + section(config@, path@));
    let ghost o1 = out@;
    let mut i: usize = 0;
    while i < config.sub_items.len()
        invariant
            i <= config.sub_items@.len(),
            subs == config@.subs,
            subs.len() == config.sub_items@.len(),
            forall|k: int| 0 <= k < config.sub_items@.len() ==> #[trigger] subs[k] == tree_of(config.sub_items@[k]),
            out@ == o1 + children_text(subs.take(i as int), path@),
        decreases config.sub_items.len() - i,
    {
        let child = &config.sub_items[i];
        assert(subs[i as int] == tree_of(*child));
        let mut cpath: Vec<char> = Vec::new();
        if path.len() == 0 {
            let n = chars_of(child.name.as_str());
            crate::text::extend_chars(&mut cpath, &n);
        } else {
            crate::text::extend_chars(&mut cpath, path);
            cpath.push('/');
            let n = chars_of(child.name.as_str());
            crate::text::extend_chars(&mut cpath, &n);
        }
        assert(cpath@ =~= child_path(path@, subs[i as int].name));
        write_node(child, &cpath, out);
        assert(subs.take(i + 1).drop_last() =~= subs.take(i as int));
        i += 1;
    }
    assert(subs.take(subs.len() as int) =~= subs);
}

} // verus!
