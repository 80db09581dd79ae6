//! Filesystem path arithmetic (`Path::join`, `Path::with_extension`,
//! `Path::extension`) on UTF-8 path strings.

use vstd::prelude::*;

verus! {

/// What `Path::join` gives for `base` and `p`.
pub uninterp spec fn path_join(base: Seq<char>, p: Seq<char>) -> Seq<char>;

/// What `Path::with_extension` gives for `p` and `ext`.
pub uninterp spec fn path_with_extension(p: Seq<char>, ext: Seq<char>) -> Seq<char>;

/// The position of the last `c` in `s`, if any.
pub open spec fn last_index_of(s: Seq<char>, c: char) -> Option<int>
    decreases s.len(),
{
    if s.len() == 0 {
        None
    } else if s.last() == c {
        Some(s.len() - 1)
    } else {
        last_index_of(s.drop_last(), c)
    }
}

/// The text after the last `/` of a path (all of it when it has none).
pub open spec fn last_segment(p: Seq<char>) -> Seq<char> {
    match last_index_of(p, '/') {
        Some(i) => p.skip(i + 1),
        None => p,
    }
}

/// Whether the last segment of a path is its file name: a segment that is
/// neither empty (a trailing `/`) nor `.` nor `..`.
pub open spec fn plain_file_name(p: Seq<char>) -> bool {
    let f = last_segment(p);
    f.len() > 0 && f != seq!['.'] && f != seq!['.', '.']
}

/// The extension of a file name: what follows its last dot, unless it has
/// no dot or its only dot begins it.
pub open spec fn name_extension(f: Seq<char>) -> Option<Seq<char>> {
    match last_index_of(f, '.') {
        Some(i) => if i == 0 {
            None
        } else {
            Some(f.skip(i + 1))
        },
        None => None,
    }
}

/// `Path::join` on Unix: an absolute `p` (one that begins with `/`)
/// replaces `base`; a relative one is appended to a nonempty `base` that
/// does not end in `/` after one `/`. Claimed besides: the result is a
/// function of the two paths alone, named [`path_join`]; what it is for an
/// empty `p`, an empty `base` or one that ends in `/` is left unsaid.
#[verifier::external_body]
pub(crate) fn join_path(base: &str, p: &str) -> (r: String)
    ensures
        r@ == path_join(base@, p@),
        p@.len() > 0 && p@[0] == '/' ==> r@ == p@,
        p@.len() > 0 && p@[0] != '/' && base@.len() > 0 && base@.last() != '/' ==> r@ == base@ + seq!['/']
            + p@,
{
    std::path::Path::new(base).join(p).to_string_lossy().into_owned()
}

/// `p` with the extension of its file name taken off (the dot too), where
/// it has one.
pub open spec fn without_extension(p: Seq<char>) -> Seq<char> {
    match name_extension(last_segment(p)) {
        Some(e) => p.take(p.len() - e.len() - 1),
        None => p,
    }
}

/// `Path::with_extension`: `p` with the extension of its file name replaced
/// by `ext` (added where it has none). Claimed: the result is a function of
/// its arguments alone, named [`path_with_extension`], and where the last
/// segment of `p` is its file name and `ext` is not empty it is `p` without
/// its extension, a dot and `ext`; for other paths it is left unsaid. An
/// extension holding a `/` is not handed over (`set_extension` panics on a
/// separator).
#[verifier::external_body]
pub(crate) fn with_extension(p: &str, ext: &str) -> (r: String)
    requires
        forall|i: int| 0 <= i < ext@.len() ==> ext@[i] != '/',
    ensures
        r@ == path_with_extension(p@, ext@),
        plain_file_name(p@) && ext@.len() > 0 ==> r@ == without_extension(p@) + seq!['.'] + ext@,
{
    std::path::Path::new(p).with_extension(ext).to_string_lossy().into_owned()
}

/// What `Path::extension` gives for `p`.
pub uninterp spec fn path_ext(p: Seq<char>) -> Option<Seq<char>>;

/// `Path::extension`: the part of the file name after its last dot, if the
/// name has one that does not begin it. Claimed: the result is a function
/// of the path alone, named [`path_ext`], and where the last segment of the
/// path is its file name ([`plain_file_name`]) it is [`name_extension`] of
/// that segment; for other paths (a trailing `/`, a last `.` or `..`) it is
/// left unsaid.
#[verifier::external_body]
pub(crate) fn path_extension(p: &str) -> (r: Option<String>)
    ensures
        match r {
            Some(e) => path_ext(p@) == Some(e@),
            None => path_ext(p@) is None,
        },
        plain_file_name(p@) ==> match r {
            Some(e) => name_extension(last_segment(p@)) == Some(e@),
            None => name_extension(last_segment(p@)) is None,
        },
{
    std::path::Path::new(p).extension().map(|e| e.to_string_lossy().into_owned())
}

/// Whether `check` answers `answer` for some text equal to `path`.
pub open spec fn answered<F: Fn(&str) -> bool>(check: F, path: Seq<char>, answer: bool) -> bool {
    exists|s: &str| #[trigger] call_ensures(check, (s,), answer) && s@ == path
}

/// The texts held by a sequence of strings.
pub open spec fn texts(v: Seq<String>) -> Seq<Seq<char>> {
    v.map_values(|s: String| s@)
}

/// Whether `r` is the position of the first candidate that `check`
/// accepts (`None` when it rejects them all).
pub open spec fn first_hit<F: Fn(&str) -> bool>(check: F, cands: Seq<Seq<char>>, r: Option<usize>) -> bool {
    match r {
        Some(i) => {
            &&& i < cands.len()
            &&& answered(check, cands[i as int], true)
            &&& forall|j: int| 0 <= j < i ==> answered(check, #[trigger] cands[j], false)
        },
        None => forall|j: int| 0 <= j < cands.len() ==> answered(check, #[trigger] cands[j], false),
    }
}

/// The position of the first candidate path that `check` accepts, trying
/// them in order.
pub fn first_accepted<F: Fn(&str) -> bool>(cands: &Vec<String>, check: F) -> (r: Option<usize>)
    requires
        forall|s: &str| call_requires(check, (s,)),
    ensures
        first_hit(check, texts(cands@), r),
{
    let ghost ts = texts(cands@);
    let mut i: usize = 0;
    while i < cands.len()
        invariant
            i <= cands@.len(),
            ts == texts(cands@),
            forall|s: &str| call_requires(check, (s,)),
            forall|j: int| 0 <= j < i ==> answered(check, #[trigger] ts[j], false),
        decreases cands.len() - i,
    {
        let c: &str = cands[i].as_str();
        let hit = check(c);
        assert(ts[i as int] == cands@[i as int]@);
        if hit {
            assert(answered(check, ts[i as int], true));
            return Some(i);
        }
        assert(answered(check, ts[i as int], false));
        i += 1;
    }
    None
}

} // verus!
