//! Minimal fcitx `RawConfig`-style tree and INI serialization.
//!
//! Nested paths are serialized as `[Parent/Child]` sections, values
//! containing whitespace or quotes are quoted, and the tree is written
//! depth-first in insertion order. The tree is modelled by [`Section`].

use vstd::prelude::*;
use crate::text::{lemma_split_injective, lemma_split_nonempty, chars_of, extend_chars, is_ws, push_char, push_chars, push_str, seqs_of, split_chars, split_on, string_of};

verus! {

/// The mathematical model of a config node: its `key=value` entries and its
/// child sections, both in insertion order.
pub struct Section {
    /// The entries, in insertion order.
    pub values: Seq<(Seq<char>, Seq<char>)>,
    /// The child sections with their names, in insertion order.
    pub children: Seq<(Seq<char>, Section)>,
}

/// A node of the config tree.
#[derive(Debug)]
struct ConfNode {
    values: Vec<(String, String)>,
    children: Vec<(String, ConfNode)>,
}

/// A config tree with `/`-separated section and key paths.
#[derive(Debug)]
pub struct Config {
    root: ConfNode,
}

spec fn pair_views(s: Seq<(String, String)>) -> Seq<(Seq<char>, Seq<char>)> {
    s.map_values(|p: (String, String)| (p.0@, p.1@))
}

spec fn section_of(n: ConfNode) -> Section
    decreases n,
{
    Section { values: pair_views(n.values@), children: kids_of(n.children@) }
}

spec fn kids_of(s: Seq<(String, ConfNode)>) -> Seq<(Seq<char>, Section)>
    decreases s,
{
    if s.len() == 0 {
        Seq::empty()
    } else {
        kids_of(s.drop_last()).push((s.last().0@, section_of(s.last().1)))
    }
}

impl View for Config {
    type V = Section;

    closed spec fn view(&self) -> Section {
        section_of(self.root)
    }
}

// ───────────────────────────── specifications ─────────────────────────────

/// An empty section.
pub open spec fn empty_section() -> Section {
    Section { values: Seq::empty(), children: Seq::empty() }
}

/// Index of the first child section named `name`.
pub open spec fn find_child(kids: Seq<(Seq<char>, Section)>, name: Seq<char>) -> Option<int>
    decreases kids.len(),
{
    if kids.len() == 0 {
        None
    } else {
        match find_child(kids.drop_last(), name) {
            Some(i) => Some(i),
            None => if kids.last().0 == name {
                Some(kids.len() - 1)
            } else {
                None
            },
        }
    }
}

/// Index of the first entry with key `key`.
pub open spec fn find_value(values: Seq<(Seq<char>, Seq<char>)>, key: Seq<char>) -> Option<int>
    decreases values.len(),
{
    if values.len() == 0 {
        None
    } else {
        match find_value(values.drop_last(), key) {
            Some(i) => Some(i),
            None => if values.last().0 == key {
                Some(values.len() - 1)
            } else {
                None
            },
        }
    }
}

/// The child section named `name`, or an empty one.
pub open spec fn sub_section(s: Section, name: Seq<char>) -> Section {
    match find_child(s.children, name) {
        Some(i) => s.children[i].1,
        None => empty_section(),
    }
}

/// `s` with the child named `name` replaced by `c` (appended when absent).
pub open spec fn put_section(s: Section, name: Seq<char>, c: Section) -> Section {
    match find_child(s.children, name) {
        Some(i) => Section { children: s.children.update(i, (name, c)), ..s },
        None => Section { children: s.children.push((name, c)), ..s },
    }
}

/// `s` with entry `key` set to `value`: overwritten in place when present,
/// appended otherwise.
pub open spec fn put_value(s: Section, key: Seq<char>, value: Seq<char>) -> Section {
    match find_value(s.values, key) {
        Some(i) => Section { values: s.values.update(i, (key, value)), ..s },
        None => Section { values: s.values.push((key, value)), ..s },
    }
}

/// `s` with entry `key` of the section at `segs` set to `value`.
pub open spec fn set_in(s: Section, segs: Seq<Seq<char>>, key: Seq<char>, value: Seq<char>) -> Section
    decreases segs.len(),
{
    if segs.len() == 0 {
        put_value(s, key, value)
    } else {
        put_section(s, segs[0], set_in(sub_section(s, segs[0]), segs.drop_first(), key, value))
    }
}

/// `s` after `set(path, value)`: the last path segment is the key, the
/// others name the sections.
pub open spec fn set_path(s: Section, path: Seq<char>, value: Seq<char>) -> Section {
    let parts = split_on(path, '/');
    set_in(s, parts.drop_last(), parts.last(), value)
}

/// The value of entry `key` in the section at `segs`, if both exist.
pub open spec fn lookup(s: Section, segs: Seq<Seq<char>>, key: Seq<char>) -> Option<Seq<char>>
    decreases segs.len(),
{
    if segs.len() == 0 {
        match find_value(s.values, key) {
            Some(i) => Some(s.values[i].1),
            None => None,
        }
    } else {
        match find_child(s.children, segs[0]) {
            Some(i) => lookup(s.children[i].1, segs.drop_first(), key),
            None => None,
        }
    }
}

/// The value at a `/`-separated path.
pub open spec fn lookup_path(s: Section, path: Seq<char>) -> Option<Seq<char>> {
    let parts = split_on(path, '/');
    lookup(s, parts.drop_last(), parts.last())
}

/// The section at `segs`, if every section on the way exists.
pub open spec fn section_at(s: Section, segs: Seq<Seq<char>>) -> Option<Section>
    decreases segs.len(),
{
    if segs.len() == 0 {
        Some(s)
    } else {
        match find_child(s.children, segs[0]) {
            Some(i) => section_at(s.children[i].1, segs.drop_first()),
            None => None,
        }
    }
}

/// The `"` characters of `v` escaped as `\"`.
pub open spec fn escape_quotes(v: Seq<char>) -> Seq<char>
    decreases v.len(),
{
    if v.len() == 0 {
        Seq::empty()
    } else {
        escape_quotes(v.drop_last()) + if v.last() == '"' {
            seq!['\\', '"']
        } else {
            seq![v.last()]
        }
    }
}

/// Values with whitespace or a `"` are wrapped in quotes (inner quotes
/// escaped); others are written as they are.
pub open spec fn quoted(v: Seq<char>) -> Seq<char> {
    if exists|i: int| 0 <= i < v.len() && (is_ws(#[trigger] v[i]) || v[i] == '"') {
        seq!['"'] + escape_quotes(v) + seq!['"']
    } else {
        v
    }
}

/// The `key=value` lines of a section's entries.
pub open spec fn value_lines(values: Seq<(Seq<char>, Seq<char>)>) -> Seq<char>
    decreases values.len(),
{
    if values.len() == 0 {
        Seq::empty()
    } else {
        value_lines(values.drop_last()) + values.last().0 + seq!['='] + quoted(values.last().1)
            + seq!['\n']
    }
}

/// The path of a child section below `path`.
pub open spec fn sub_path(path: Seq<char>, name: Seq<char>) -> Seq<char> {
    if path.len() == 0 {
        name
    } else {
        path + seq!['/'] + name
    }
}

/// The text a section writes for its own entries: `[path]` (not at the
/// root), the lines and a blank line, when it has entries.
pub open spec fn own_text(s: Section, path: Seq<char>) -> Seq<char> {
    if s.values.len() > 0 {
        (if path.len() > 0 {
            seq!['['] + path + seq![']', '\n']
        } else {
            Seq::empty()
        }) + value_lines(s.values) + seq!['\n']
    } else {
        Seq::empty()
    }
}

/// The serialized text of a section and everything below it, depth-first
/// in insertion order.
pub open spec fn section_text(s: Section, path: Seq<char>) -> Seq<char>
    decreases s,
{
    own_text(s, path) + kids_text(s.children, path)
}

/// The serialized text of the child sections at `path`.
pub open spec fn kids_text(kids: Seq<(Seq<char>, Section)>, path: Seq<char>) -> Seq<char>
    decreases kids,
{
    if kids.len() == 0 {
        Seq::empty()
    } else {
        kids_text(kids.drop_last(), path) + section_text(
            kids.last().1,
            sub_path(path, kids.last().0),
        )
    }
}

// ─────────────────────────────── lemmas ────────────────────────────────

proof fn lemma_kids_index(s: Seq<(String, ConfNode)>)
    ensures
        kids_of(s).len() == s.len(),
        forall|i: int| 0 <= i < s.len() ==> #[trigger] kids_of(s)[i] == (s[i].0@, section_of(s[i].1)),
    decreases s.len(),
{
    if s.len() > 0 {
        lemma_kids_index(s.drop_last());
    }
}

/// `find_child` returns a matching index with no earlier match.
pub proof fn lemma_find_child(kids: Seq<(Seq<char>, Section)>, name: Seq<char>)
    ensures
        match find_child(kids, name) {
            Some(i) => 0 <= i < kids.len() && kids[i].0 == name && forall|j: int|
                0 <= j < i ==> (#[trigger] kids[j]).0 != name,
            None => forall|j: int| 0 <= j < kids.len() ==> (#[trigger] kids[j]).0 != name,
        },
    decreases kids.len(),
{
    if kids.len() > 0 {
        lemma_find_child(kids.drop_last(), name);
        assert(forall|j: int| 0 <= j < kids.len() - 1 ==> kids.drop_last()[j] == kids[j]);
    }
}

/// An index that matches, with no earlier match, is what `find_child` returns.
pub proof fn lemma_find_child_first(kids: Seq<(Seq<char>, Section)>, name: Seq<char>, i: int)
    requires
        0 <= i < kids.len(),
        kids[i].0 == name,
        forall|j: int| 0 <= j < i ==> (#[trigger] kids[j]).0 != name,
    ensures
        find_child(kids, name) == Some(i),
    decreases kids.len(),
{
    lemma_find_child(kids, name);
    if i < kids.len() - 1 {
        lemma_find_child_first(kids.drop_last(), name, i);
    } else {
        lemma_find_child(kids.drop_last(), name);
        match find_child(kids.drop_last(), name) {
            Some(k) => {
                assert(kids.drop_last()[k] == kids[k]);
            },
            None => {},
        }
    }
}

/// `find_value` returns a matching index with no earlier match.
pub proof fn lemma_find_value(values: Seq<(Seq<char>, Seq<char>)>, key: Seq<char>)
    ensures
        match find_value(values, key) {
            Some(i) => 0 <= i < values.len() && values[i].0 == key && forall|j: int|
                0 <= j < i ==> (#[trigger] values[j]).0 != key,
            None => forall|j: int| 0 <= j < values.len() ==> (#[trigger] values[j]).0 != key,
        },
    decreases values.len(),
{
    if values.len() > 0 {
        lemma_find_value(values.drop_last(), key);
        assert(forall|j: int| 0 <= j < values.len() - 1 ==> values.drop_last()[j] == values[j]);
    }
}

/// An index that matches, with no earlier match, is what `find_value` returns.
pub proof fn lemma_find_value_first(values: Seq<(Seq<char>, Seq<char>)>, key: Seq<char>, i: int)
    requires
        0 <= i < values.len(),
        values[i].0 == key,
        forall|j: int| 0 <= j < i ==> (#[trigger] values[j]).0 != key,
    ensures
        find_value(values, key) == Some(i),
    decreases values.len(),
{
    lemma_find_value(values, key);
    if i < values.len() - 1 {
        lemma_find_value_first(values.drop_last(), key, i);
    } else {
        lemma_find_value(values.drop_last(), key);
        match find_value(values.drop_last(), key) {
            Some(k) => {
                assert(values.drop_last()[k] == values[k]);
            },
            None => {},
        }
    }
}

/// Replacing a child by one of the same name leaves `find_child` unchanged.
pub proof fn lemma_find_child_update(kids: Seq<(Seq<char>, Section)>, name: Seq<char>, i: int, c: Section)
    requires
        find_child(kids, name) == Some(i),
    ensures
        find_child(kids.update(i, (name, c)), name) == Some(i),
{
    lemma_find_child(kids, name);
    lemma_find_child_first(kids.update(i, (name, c)), name, i);
}

/// Appending a child where none had the name makes `find_child` return it.
pub proof fn lemma_find_child_push(kids: Seq<(Seq<char>, Section)>, name: Seq<char>, c: Section)
    requires
        find_child(kids, name) is None,
    ensures
        find_child(kids.push((name, c)), name) == Some(kids.len() as int),
{
    assert(kids.push((name, c)).drop_last() =~= kids);
}

/// Read after write: after `set_in`, the entry at the same place holds the
/// new value.
pub proof fn lemma_lookup_set_in(s: Section, segs: Seq<Seq<char>>, key: Seq<char>, value: Seq<char>)
    ensures
        lookup(set_in(s, segs, key, value), segs, key) == Some(value),
    decreases segs.len(),
{
    if segs.len() == 0 {
        lemma_find_value(s.values, key);
        match find_value(s.values, key) {
            Some(i) => {
                lemma_find_value_first(s.values.update(i, (key, value)), key, i);
            },
            None => {
                assert(s.values.push((key, value)).drop_last() =~= s.values);
            },
        }
    } else {
        let name = segs[0];
        let inner = set_in(sub_section(s, name), segs.drop_first(), key, value);
        lemma_lookup_set_in(sub_section(s, name), segs.drop_first(), key, value);
        lemma_find_child(s.children, name);
        match find_child(s.children, name) {
            Some(i) => {
                lemma_find_child_update(s.children, name, i, inner);
            },
            None => {
                lemma_find_child_push(s.children, name, inner);
            },
        }
    }
}

/// Read after write: once `set(path, value)` has run, the value at `path`
/// is `value`.
pub proof fn lemma_set_lookup(s: Section, path: Seq<char>, value: Seq<char>)
    ensures
        lookup_path(set_path(s, path, value), path) == Some(value),
{
    let parts = split_on(path, '/');
    lemma_lookup_set_in(s, parts.drop_last(), parts.last(), value);
}

/// Setting never removes or reorders anything: the existing sections keep
/// their names and positions and only new ones are appended, and likewise
/// the existing entries of the root keep their keys and positions.
pub proof fn lemma_set_keeps_order(s: Section, path: Seq<char>, value: Seq<char>)
    ensures
        set_path(s, path, value).children.len() >= s.children.len(),
        forall|j: int|
            0 <= j < s.children.len() ==> (#[trigger] set_path(s, path, value).children[j]).0
                == s.children[j].0,
        set_path(s, path, value).values.len() >= s.values.len(),
        forall|j: int|
            0 <= j < s.values.len() ==> (#[trigger] set_path(s, path, value).values[j]).0
                == s.values[j].0,
{
    let parts = split_on(path, '/');
    let segs = parts.drop_last();
    let key = parts.last();
    lemma_find_child(s.children, if segs.len() > 0 { segs[0] } else { key });
    lemma_find_value(s.values, key);
}

/// Overwriting keeps the position: setting a key that already exists in the
/// section at `segs` replaces its value in place and changes nothing else
/// in that section's entries.
pub proof fn lemma_overwrite_in_place(s: Section, segs: Seq<Seq<char>>, key: Seq<char>, value: Seq<char>, t: Section, i: int)
    requires
        section_at(s, segs) == Some(t),
        find_value(t.values, key) == Some(i),
    ensures
        section_at(set_in(s, segs, key, value), segs) == Some(Section { values: t.values.update(i, (key, value)), ..t }),
    decreases segs.len(),
{
    if segs.len() > 0 {
        let name = segs[0];
        lemma_find_child(s.children, name);
        let j = find_child(s.children, name)->0;
        let inner = set_in(sub_section(s, name), segs.drop_first(), key, value);
        lemma_overwrite_in_place(sub_section(s, name), segs.drop_first(), key, value, t, i);
        lemma_find_child_update(s.children, name, j, inner);
    }
}

/// Setting one entry leaves `find_value` for any other key, and the entry
/// it finds, as they were.
proof fn lemma_put_value_other(s: Section, key: Seq<char>, value: Seq<char>, key2: Seq<char>)
    requires
        key2 != key,
    ensures
        find_value(put_value(s, key, value).values, key2) == find_value(s.values, key2),
        find_value(s.values, key2) matches Some(j) ==> put_value(s, key, value).values[j] == s.values[j],
{
    let r = put_value(s, key, value).values;
    lemma_find_value(s.values, key);
    lemma_find_value(s.values, key2);
    lemma_find_value(r, key2);
    assert forall|k: int| 0 <= k < s.values.len() implies (#[trigger] r[k]).0 == s.values[k].0 by {}
    match find_value(s.values, key2) {
        Some(j) => {
            assert forall|k: int| 0 <= k < j implies (#[trigger] r[k]).0 != key2 by {
                assert(r[k].0 == s.values[k].0);
            }
            lemma_find_value_first(r, key2, j);
        },
        None => {
            match find_value(r, key2) {
                Some(k) => {
                    if k < s.values.len() {
                        assert(r[k].0 == s.values[k].0);
                    }
                },
                None => {},
            }
        },
    }
}

/// Putting one child section leaves `find_child` for any other name, and
/// the child it finds, as they were.
proof fn lemma_put_section_other(s: Section, name: Seq<char>, c: Section, name2: Seq<char>)
    requires
        name2 != name,
    ensures
        find_child(put_section(s, name, c).children, name2) == find_child(s.children, name2),
        find_child(s.children, name2) matches Some(j) ==> put_section(s, name, c).children[j] == s.children[j],
{
    let r = put_section(s, name, c).children;
    lemma_find_child(s.children, name);
    lemma_find_child(s.children, name2);
    lemma_find_child(r, name2);
    assert forall|k: int| 0 <= k < s.children.len() implies (#[trigger] r[k]).0 == s.children[k].0 by {}
    match find_child(s.children, name2) {
        Some(j) => {
            assert forall|k: int| 0 <= k < j implies (#[trigger] r[k]).0 != name2 by {
                assert(r[k].0 == s.children[k].0);
            }
            lemma_find_child_first(r, name2, j);
        },
        None => {
            match find_child(r, name2) {
                Some(k) => {
                    if k < s.children.len() {
                        assert(r[k].0 == s.children[k].0);
                    }
                },
                None => {},
            }
        },
    }
}

/// Nothing can be looked up in an empty section.
proof fn lemma_lookup_empty(segs: Seq<Seq<char>>, key: Seq<char>)
    ensures
        lookup(empty_section(), segs, key) is None,
{
}

/// What is looked up below a child is looked up in [`sub_section`].
proof fn lemma_lookup_sub(s: Section, segs: Seq<Seq<char>>, key: Seq<char>)
    requires
        segs.len() > 0,
    ensures
        lookup(s, segs, key) == lookup(sub_section(s, segs[0]), segs.drop_first(), key),
{
    lemma_lookup_empty(segs.drop_first(), key);
}

/// Setting one entry leaves every other entry, in whatever section, as it
/// was: what a lookup of another place gives is unchanged.
pub proof fn lemma_set_in_keeps_others(
    s: Section,
    segs: Seq<Seq<char>>,
    key: Seq<char>,
    value: Seq<char>,
    segs2: Seq<Seq<char>>,
    key2: Seq<char>,
)
    requires
        segs2 != segs || key2 != key,
    ensures
        lookup(set_in(s, segs, key, value), segs2, key2) == lookup(s, segs2, key2),
    decreases segs.len(),
{
    let r = set_in(s, segs, key, value);
    if segs.len() == 0 {
        if segs2.len() == 0 {
            assert(segs2 =~= segs);
            lemma_put_value_other(s, key, value, key2);
        } else {
            assert(r.children == s.children);
        }
    } else {
        let name = segs[0];
        let sub = sub_section(s, name);
        let inner = set_in(sub, segs.drop_first(), key, value);
        if segs2.len() == 0 {
            assert(r.values == s.values);
        } else if segs2[0] != name {
            lemma_put_section_other(s, name, inner, segs2[0]);
        } else {
            if segs2.drop_first() == segs.drop_first() {
                assert(segs2 =~= seq![name] + segs2.drop_first());
                assert(segs =~= seq![name] + segs.drop_first());
            }
            lemma_set_in_keeps_others(sub, segs.drop_first(), key, value, segs2.drop_first(), key2);
            lemma_lookup_sub(s, segs2, key2);
            lemma_lookup_sub(r, segs2, key2);
            lemma_find_child(s.children, name);
            match find_child(s.children, name) {
                Some(i) => {
                    lemma_find_child_update(s.children, name, i, inner);
                },
                None => {
                    lemma_find_child_push(s.children, name, inner);
                },
            }
            assert(sub_section(r, name) == inner);
        }
    }
}

/// Setting a path leaves the value at every other path as it was.
pub proof fn lemma_set_keeps_other_paths(s: Section, path: Seq<char>, value: Seq<char>, other: Seq<char>)
    requires
        other != path,
    ensures
        lookup_path(set_path(s, path, value), other) == lookup_path(s, other),
{
    let parts = split_on(path, '/');
    let parts2 = split_on(other, '/');
    lemma_split_nonempty(path, '/');
    lemma_split_nonempty(other, '/');
    if parts2.drop_last() == parts.drop_last() && parts2.last() == parts.last() {
        assert(parts2 =~= parts2.drop_last().push(parts2.last()));
        assert(parts =~= parts.drop_last().push(parts.last()));
        lemma_split_injective(other, path, '/');
    }
    lemma_set_in_keeps_others(s, parts.drop_last(), parts.last(), value, parts2.drop_last(), parts2.last());
}

// ───────────────────────────── executables ────────────────────────────────

impl ConfNode {
    fn empty() -> (n: ConfNode)
        ensures
            section_of(n) == empty_section(),
    {
        let n = ConfNode { values: Vec::new(), children: Vec::new() };
        assert(pair_views(n.values@) =~= Seq::<(Seq<char>, Seq<char>)>::empty());
        assert(section_of(n) =~= empty_section());
        n
    }

    fn child_position(&self, name: &String) -> (r: Option<usize>)
        ensures
            match r {
                Some(i) => find_child(section_of(*self).children, name@) == Some(i as int) && i
                    < self.children@.len(),
                None => find_child(section_of(*self).children, name@) is None,
            },
    {
        proof {
            lemma_kids_index(self.children@);
        }
        let ghost kids = section_of(*self).children;
        let mut i: usize = 0;
        while i < self.children.len()
            invariant
                i <= self.children@.len(),
                kids == section_of(*self).children,
                kids.len() == self.children@.len(),
                forall|k: int| 0 <= k < self.children@.len() ==> #[trigger] kids[k] == (self.children@[k].0@, section_of(self.children@[k].1)),
                forall|j: int| 0 <= j < i ==> (#[trigger] kids[j]).0 != name@,
            decreases self.children.len() - i,
        {
            assert(kids[i as int] == (self.children@[i as int].0@, section_of(self.children@[i as int].1)));
            if self.children[i].0 == *name {
                proof {
                    lemma_find_child_first(kids, name@, i as int);
                }
                return Some(i);
            }
            i += 1;
        }
        proof {
            lemma_find_child(kids, name@);
        }
        None
    }

    /// The child section named `name`, created (and appended) when absent.
    fn child_mut(&mut self, name: &String) -> (r: &mut ConfNode)
        ensures
            section_of(*r) == sub_section(section_of(*old(self)), name@),
            section_of(*final(self)) == put_section(section_of(*old(self)), name@, section_of(*final(r))),
    {
        proof {
            lemma_kids_index(self.children@);
            lemma_find_child(section_of(*self).children, name@);
        }
        let ghost old_kids = self.children@;
        let i = match self.child_position(name) {
            Some(i) => i,
            None => {
                let fresh = ConfNode::empty();
                self.children.push((name.clone(), fresh));
                proof {
                    assert(self.children@.drop_last() =~= old_kids);
                }
                self.children.len() - 1
            },
        };
        let ghost mid = self.children@;
        let entry = &mut self.children[i];
        let r = &mut entry.1;
        proof {
            lemma_kids_index(mid);
            lemma_kids_index(mid.update(i as int, (mid[i as int].0, *final(r))));
            assert(kids_of(mid.update(i as int, (mid[i as int].0, *final(r)))) =~= section_of(*old(self)).children.update(i as int, (name@, section_of(*final(r))))
                || kids_of(mid.update(i as int, (mid[i as int].0, *final(r)))) =~= section_of(*old(self)).children.push((name@, section_of(*final(r)))));
        }
        r
    }

    fn set_value(&mut self, key: &String, value: &str)
        ensures
            section_of(*final(self)) == put_value(section_of(*old(self)), key@, value@),
    {
        let ghost old_values = self.values@;
        let ghost pv = pair_views(old_values);
        assert(pv.len() == old_values.len());
        let mut i: usize = 0;
        while i < self.values.len()
            invariant
                i <= self.values@.len(),
                self.values@ == old_values,
                *self == *old(self),
                pv == pair_views(old_values),
                pv.len() == old_values.len(),
                forall|j: int| 0 <= j < i ==> (#[trigger] pv[j]).0 != key@,
            decreases self.values.len() - i,
        {
            assert(pv[i as int] == (old_values[i as int].0@, old_values[i as int].1@));
            if self.values[i].0 == *key {
                proof {
                    lemma_find_value_first(pv, key@, i as int);
                }
                self.values.set(i, (key.clone(), value.to_owned()));
                assert(pair_views(self.values@) =~= pv.update(i as int, (key@, value@)));
                return;
            }
            i += 1;
        }
        proof {
            lemma_find_value(pv, key@);
        }
        self.values.push((key.clone(), value.to_owned()));
        assert(pair_views(self.values@) =~= pv.push((key@, value@)));
    }

    fn set_in(&mut self, segs: &Vec<Vec<char>>, k: usize, key: &String, value: &str)
        requires
            k <= segs.len(),
        ensures
            section_of(*final(self)) == set_in(section_of(*old(self)), seqs_of(segs@).skip(k as int), key@, value@),
        decreases segs.len() - k,
    {
        let ghost rest = seqs_of(segs@).skip(k as int);
        if k >= segs.len() {
            assert(rest.len() == 0);
            self.set_value(key, value);
            return;
        }
        assert(rest[0] == segs@[k as int]@);
        assert(rest.drop_first() =~= seqs_of(segs@).skip(k + 1));
        let name = string_of(&segs[k]);
        let c = self.child_mut(&name);
        c.set_in(segs, k + 1, key, value);
    }
}

impl Config {
    /// Create an empty config.
    pub fn new() -> (c: Config)
        ensures
            c@ == empty_section(),
    {
        Config { root: ConfNode::empty() }
    }

    /// Set a value at a `/`-separated path; the last segment is the key.
    pub fn set(&mut self, path: &str, value: &str)
        ensures
            final(self)@ == set_path(old(self)@, path@, value@),
    {
        let chars = chars_of(path);
        let mut parts = split_chars(&chars, '/');
        proof {
            crate::text::lemma_split_nonempty(path@, '/');
        }
        let ghost all = seqs_of(parts@);
        let last = parts.pop();
        let key = match last {
            Some(k) => string_of(&k),
            None => String::new(),
        };
        assert(seqs_of(parts@) =~= all.drop_last());
        assert(key@ == all.last());
        assert(seqs_of(parts@).skip(0) =~= all.drop_last());
        self.root.set_in(&parts, 0, &key, value);
    }
}

/// Quote values containing whitespace or quote characters, like fcitx.
pub fn quote(value: &str) -> (r: String)
    ensures
        r@ == quoted(value@),
{
    let v = chars_of(value);
    let mut need = false;
    let mut i: usize = 0;
    while i < v.len()
        invariant
            i <= v.len(),
            v@ == value@,
            need == exists|j: int| 0 <= j < i && (is_ws(#[trigger] v@[j]) || v@[j] == '"'),
        decreases v.len() - i,
    {
        if crate::text::is_whitespace(v[i]) || v[i] == '"' {
            need = true;
        }
        i += 1;
    }
    if !need {
        return value.to_owned();
    }
    let mut out = String::new();
    push_char(&mut out, '"');
    let ghost start = out@;
    let mut k: usize = 0;
    while k < v.len()
        invariant
            k <= v.len(),
            out@ == start + escape_quotes(v@.take(k as int)),
        decreases v.len() - k,
    {
        if v[k] == '"' {
            push_char(&mut out, '\\');
            push_char(&mut out, '"');
        } else {
            push_char(&mut out, v[k]);
        }
        assert(v@.take(k + 1).drop_last() =~= v@.take(k as int));
        k += 1;
        assert(out@ =~= start + escape_quotes(v@.take(k as int)));
    }
    push_char(&mut out, '"');
    assert(v@.take(v.len() as int) =~= v@);
    assert(out@ =~= quoted(value@));
    out
}

/// Recursively serialize a node: its values under `[path]`, then children.
fn write_node(out: &mut String, node: &ConfNode, path: &Vec<char>)
    ensures
        final(out)@ == old(out)@ + section_text(section_of(*node), path@),
    decreases node,
{
    let ghost o0 = out@;
    let ghost sec = section_of(*node);
    let ghost pv = pair_views(node.values@);
    assert(pv.len() == node.values@.len());
    if node.values.len() > 0 {
        if path.len() > 0 {
            push_char(out, '[');
            push_chars(out, path);
            push_char(out, ']');
            push_char(out, '\n');
        }
        let ghost o_lines = out@;
        let mut i: usize = 0;
        while i < node.values.len()
            invariant
                i <= node.values@.len(),
                pv == pair_views(node.values@),
                pv.len() == node.values@.len(),
                out@ == o_lines + value_lines(pv.take(i as int)),
            decreases node.values.len() - i,
        {
            assert(pv[i as int] == (node.values@[i as int].0@, node.values@[i as int].1@));
            push_str(out, node.values[i].0.as_str());
            push_char(out, '=');
            let q = quote(node.values[i].1.as_str());
            push_str(out, q.as_str());
            push_char(out, '\n');
            assert(pv.take(i + 1).drop_last() =~= pv.take(i as int));
            i += 1;
        }
        assert(pv.take(pv.len() as int) =~= pv);
        push_char(out, '\n');
    }
    assert(out@ =~= o0 + own_text(sec, path@));
    let ghost o1 = out@;
    proof {
        lemma_kids_index(node.children@);
    }
    let ghost kids = sec.children;
    let mut i: usize = 0;
    while i < node.children.len()
        invariant
            i <= node.children@.len(),
            kids == section_of(*node).children,
            kids.len() == node.children@.len(),
            forall|k: int| 0 <= k < node.children@.len() ==> #[trigger] kids[k] == (node.children@[k].0@, section_of(node.children@[k].1)),
            out@ == o1 + kids_text(kids.take(i as int), path@),
        decreases node.children.len() - i,
    {
        let entry = &node.children[i];
        assert(kids[i as int] == (entry.0@, section_of(entry.1)));
        let mut cpath: Vec<char> = Vec::new();
        let n = chars_of(entry.0.as_str());
        if path.len() > 0 {
            extend_chars(&mut cpath, path);
            cpath.push('/');
        }
        extend_chars(&mut cpath, &n);
        assert(cpath@ =~= sub_path(path@, kids[i as int].0));
        write_node(out, &entry.1, &cpath);
        assert(kids.take(i + 1).drop_last() =~= kids.take(i as int));
        i += 1;
    }
    assert(kids.take(kids.len() as int) =~= kids);
}

impl Config {
    /// Serialize in fcitx INI format.
    pub fn serialize(&self) -> (r: String)
        ensures
            r@ == section_text(self@, Seq::empty()),
    {
        let mut out = String::new();
        let path: Vec<char> = Vec::new();
        write_node(&mut out, &self.root, &path);
        out
    }
}

} // verus!
