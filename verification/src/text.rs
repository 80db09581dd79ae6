//! Character-level text helpers shared by the parsers and serializers:
//! whitespace trimming, splitting, decimal and hexadecimal formatting and
//! decimal parsing, each with its specification.

use vstd::prelude::*;
use vstd::string::*;

verus! {

// ───────────────────────────── specifications ─────────────────────────────

/// Unicode `White_Space` (what `char::is_whitespace` tests).
pub open spec fn is_ws(c: char) -> bool {
    ||| ('\u{9}' <= c && c <= '\u{d}')
    ||| c == ' '
    ||| c == '\u{85}'
    ||| c == '\u{a0}'
    ||| c == '\u{1680}'
    ||| ('\u{2000}' <= c && c <= '\u{200a}')
    ||| c == '\u{2028}'
    ||| c == '\u{2029}'
    ||| c == '\u{202f}'
    ||| c == '\u{205f}'
    ||| c == '\u{3000}'
}

/// Index of the first non-whitespace character at or after `i`.
pub open spec fn lead_from(s: Seq<char>, i: int) -> int
    decreases s.len() - i,
{
    if 0 <= i < s.len() && is_ws(s[i]) {
        lead_from(s, i + 1)
    } else {
        i
    }
}

/// End (exclusive) of `s.take(j)` once trailing whitespace is dropped.
pub open spec fn trail_to(s: Seq<char>, j: int) -> int
    decreases j,
{
    if 0 < j <= s.len() && is_ws(s[j - 1]) {
        trail_to(s, j - 1)
    } else {
        j
    }
}

/// `str::trim`: `s` without leading and trailing whitespace.
pub open spec fn trim(s: Seq<char>) -> Seq<char> {
    let a = lead_from(s, 0);
    if a >= s.len() {
        Seq::empty()
    } else {
        s.subrange(a, trail_to(s, s.len() as int))
    }
}

/// `str::split` on one character: the pieces between occurrences of `c`
/// (always at least one piece).
pub open spec fn split_on(s: Seq<char>, c: char) -> Seq<Seq<char>>
    decreases s.len(),
{
    if s.len() == 0 {
        seq![Seq::<char>::empty()]
    } else {
        let r = split_on(s.drop_last(), c);
        if s.last() == c {
            r.push(Seq::<char>::empty())
        } else {
            r.update(r.len() - 1, r.last().push(s.last()))
        }
    }
}

/// Index of the first character at or after `i` that is not `c`.
pub open spec fn skip_from(s: Seq<char>, c: char, i: int) -> int
    decreases s.len() - i,
{
    if 0 <= i < s.len() && s[i] == c {
        skip_from(s, c, i + 1)
    } else {
        i
    }
}

/// End (exclusive) of `s.take(j)` once trailing `c` characters are dropped,
/// never going below `lo`.
pub open spec fn back_to(s: Seq<char>, c: char, lo: int, j: int) -> int
    decreases j,
{
    if 0 <= lo < j <= s.len() && s[j - 1] == c {
        back_to(s, c, lo, j - 1)
    } else {
        j
    }
}

/// `str::trim_matches(c)`: `s` without leading and trailing `c` characters.
pub open spec fn strip_matches(s: Seq<char>, c: char) -> Seq<char> {
    let a = skip_from(s, c, 0);
    s.subrange(a, back_to(s, c, a, s.len() as int))
}

/// `str::trim_start_matches(c)`.
pub open spec fn strip_start_matches(s: Seq<char>, c: char) -> Seq<char> {
    s.skip(skip_from(s, c, 0))
}

/// `str::trim_end_matches(c)`.
pub open spec fn strip_end_matches(s: Seq<char>, c: char) -> Seq<char> {
    s.take(back_to(s, c, 0, s.len() as int))
}

/// The two sides of the first `c` in `s` (`str::split_once`).
pub open spec fn split_once(s: Seq<char>, c: char) -> Option<(Seq<char>, Seq<char>)> {
    match find_char(s, c) {
        Some(i) => Some((s.take(i), s.skip(i + 1))),
        None => None,
    }
}

/// The lines of `s` (pieces between `'\n'`; a final empty piece, left by a
/// trailing line break or by an empty text, is not a line). Callers trim
/// every line, so a `'\r'` before the line break needs no special case.
pub open spec fn lines(s: Seq<char>) -> Seq<Seq<char>> {
    let parts = split_on(s, '\n');
    if parts.last().len() == 0 {
        parts.drop_last()
    } else {
        parts
    }
}

/// The lines of `s`, each trimmed.
pub open spec fn trimmed_lines(s: Seq<char>) -> Seq<Seq<char>> {
    lines(s).map_values(|l: Seq<char>| trim(l))
}

/// Whether `s` begins with `p`.
pub open spec fn starts_with(s: Seq<char>, p: Seq<char>) -> bool {
    p.len() <= s.len() && s.take(p.len() as int) == p
}

/// Whether `s` ends with `p`.
pub open spec fn ends_with(s: Seq<char>, p: Seq<char>) -> bool {
    p.len() <= s.len() && s.skip(s.len() - p.len()) == p
}

/// Index of the first occurrence of `c` in `s`, if any.
pub open spec fn find_char(s: Seq<char>, c: char) -> Option<int>
    decreases s.len(),
{
    if s.len() == 0 {
        None
    } else {
        match find_char(s.drop_last(), c) {
            Some(i) => Some(i),
            None => if s.last() == c {
                Some(s.len() - 1)
            } else {
                None
            },
        }
    }
}

/// The decimal digit for `d < 10`.
pub open spec fn digit_char(d: nat) -> char {
    (('0' as u32) + d) as char
}

/// `n` in decimal, without leading zeros.
pub open spec fn dec(n: nat) -> Seq<char>
    decreases n,
{
    if n < 10 {
        seq![digit_char(n)]
    } else {
        dec(n / 10).push(digit_char(n % 10))
    }
}

/// A signed integer in decimal (`-` before negative numbers).
pub open spec fn dec_int(n: int) -> Seq<char> {
    if n < 0 {
        seq!['-'] + dec((-n) as nat)
    } else {
        dec(n as nat)
    }
}

/// The lowercase hexadecimal digit for `d < 16`.
pub open spec fn hex_char(d: nat) -> char {
    if d < 10 {
        digit_char(d)
    } else {
        (('a' as u32) + (d - 10)) as char
    }
}

/// A byte as two lowercase hexadecimal digits (`{:02x}`).
pub open spec fn hex2(b: u8) -> Seq<char> {
    seq![hex_char((b / 16) as nat), hex_char((b % 16) as nat)]
}

/// The value of a decimal digit character.
pub open spec fn digit_value(c: char) -> int {
    c as int - '0' as int
}

/// Whether `c` is `0`–`9`.
pub open spec fn is_digit(c: char) -> bool {
    '0' <= c && c <= '9'
}

/// The value of a hexadecimal digit character (either case).
pub open spec fn hex_value(c: char) -> int {
    if is_digit(c) {
        digit_value(c)
    } else if 'a' <= c && c <= 'f' {
        c as int - 'a' as int + 10
    } else {
        c as int - 'A' as int + 10
    }
}

/// Whether `c` is a hexadecimal digit.
pub open spec fn is_hex_digit(c: char) -> bool {
    is_digit(c) || ('a' <= c && c <= 'f') || ('A' <= c && c <= 'F')
}

/// The value of a string of digits in base `radix` (digits taken as given).
pub open spec fn digits_value(s: Seq<char>, radix: int) -> int
    decreases s.len(),
{
    if s.len() == 0 {
        0
    } else {
        digits_value(s.drop_last(), radix) * radix + hex_value(s.last())
    }
}

/// The digits that `from_str_radix` reads: a single leading `+` is skipped.
pub open spec fn unsigned_digits(s: Seq<char>) -> Seq<char> {
    if s.len() > 1 && s[0] == '+' {
        s.drop_first()
    } else {
        s
    }
}

/// Whether `c` is a digit in base `radix` (10 or 16).
pub open spec fn is_radix_digit(c: char, radix: int) -> bool {
    if radix == 16 {
        is_hex_digit(c)
    } else {
        is_digit(c)
    }
}

/// The value of the unsigned number that `s` spells in base `radix`, if it
/// spells one no greater than `max`.
pub open spec fn parse_unsigned(s: Seq<char>, radix: int, max: int) -> Option<int> {
    let d = unsigned_digits(s);
    if d.len() > 0 && (forall|i: int| 0 <= i < d.len() ==> is_radix_digit(#[trigger] d[i], radix))
        && digits_value(d, radix) <= max {
        Some(digits_value(d, radix))
    } else {
        None
    }
}

/// `str::parse::<u8>()`: an optional `+`, then one or more decimal digits
/// whose value fits in a `u8`.
pub open spec fn parse_u8(s: Seq<char>) -> Option<u8> {
    let d = unsigned_digits(s);
    if d.len() > 0 && (forall|i: int| 0 <= i < d.len() ==> is_digit(#[trigger] d[i]))
        && digits_value(d, 10) <= 255 {
        Some(digits_value(d, 10) as u8)
    } else {
        None
    }
}

/// `u32::from_str_radix(s, 16)`: an optional `+`, then one or more
/// hexadecimal digits whose value fits in a `u32`.
pub open spec fn parse_hex_u32(s: Seq<char>) -> Option<u32> {
    let d = unsigned_digits(s);
    if d.len() > 0 && (forall|i: int| 0 <= i < d.len() ==> is_hex_digit(#[trigger] d[i]))
        && digits_value(d, 16) <= u32::MAX {
        Some(digits_value(d, 16) as u32)
    } else {
        None
    }
}

/// The character sequences held by a vector of character vectors.
pub open spec fn seqs_of(v: Seq<Vec<char>>) -> Seq<Seq<char>> {
    v.map_values(|x: Vec<char>| x@)
}

// ─────────────────────────────── lemmas ────────────────────────────────

/// Digit strings only grow in value when extended.
pub proof fn lemma_digits_monotone(s: Seq<char>, radix: int, k: int)
    requires
        radix >= 2,
        0 <= k <= s.len(),
        forall|i: int| 0 <= i < s.len() ==> is_radix_digit(#[trigger] s[i], radix),
    ensures
        0 <= digits_value(s.take(k), radix) <= digits_value(s, radix),
    decreases s.len() - k,
{
    if k < s.len() {
        lemma_digits_monotone(s, radix, k + 1);
        assert(s.take(k + 1).drop_last() =~= s.take(k));
        let v = digits_value(s.take(k), radix);
        lemma_digits_nonneg(s.take(k), radix);
        assert(0 <= hex_value(s[k]));
        assert(v * radix >= v) by (nonlinear_arith)
            requires
                v >= 0,
                radix >= 2,
        ;
    } else {
        assert(s.take(k) =~= s);
        lemma_digits_nonneg(s, radix);
    }
}

/// Digit strings have nonnegative values.
pub proof fn lemma_digits_nonneg(s: Seq<char>, radix: int)
    requires
        radix >= 2,
        forall|i: int| 0 <= i < s.len() ==> is_radix_digit(#[trigger] s[i], radix),
    ensures
        digits_value(s, radix) >= 0,
    decreases s.len(),
{
    if s.len() > 0 {
        lemma_digits_nonneg(s.drop_last(), radix);
        let v = digits_value(s.drop_last(), radix);
        assert(v * radix >= 0) by (nonlinear_arith)
            requires
                v >= 0,
                radix >= 2,
        ;
        assert(is_radix_digit(s[s.len() - 1], radix));
    }
}

/// Every decimal rendering is made of digit characters and is nonempty.
pub proof fn lemma_dec_len(n: nat)
    ensures
        dec(n).len() >= 1,
    decreases n,
{
    if n >= 10 {
        lemma_dec_len(n / 10);
    }
}

/// `trail_to` never goes below a non-whitespace position.
pub proof fn lemma_trail_above(s: Seq<char>, j: int, a: int)
    requires
        0 <= a < j <= s.len(),
        !is_ws(s[a]),
    ensures
        a < trail_to(s, j) <= j,
    decreases j,
{
    if is_ws(s[j - 1]) {
        lemma_trail_above(s, j - 1, a);
    }
}

/// `lead_from` stays within bounds.
pub proof fn lemma_lead_bounds(s: Seq<char>, i: int)
    requires
        0 <= i <= s.len(),
    ensures
        i <= lead_from(s, i) <= s.len(),
        lead_from(s, i) < s.len() ==> !is_ws(s[lead_from(s, i)]),
    decreases s.len() - i,
{
    if i < s.len() && is_ws(s[i]) {
        lemma_lead_bounds(s, i + 1);
    }
}

/// Trimming text that begins and ends with a non-whitespace character, and
/// is padded only with whitespace on either side, gives the text back.
pub proof fn lemma_trim_padded(l: Seq<char>, s: Seq<char>, r: Seq<char>)
    requires
        s.len() > 0,
        !is_ws(s[0]),
        !is_ws(s.last()),
        forall|i: int| 0 <= i < l.len() ==> is_ws(#[trigger] l[i]),
        forall|i: int| 0 <= i < r.len() ==> is_ws(#[trigger] r[i]),
    ensures
        trim(l + s + r) == s,
{
    let x = l + s + r;
    let a = l.len() as int;
    let b = (l.len() + s.len()) as int;
    lemma_lead_padded(x, 0, a);
    lemma_trail_padded(x, x.len() as int, b);
    assert(x.subrange(a, b) =~= s);
}

proof fn lemma_lead_padded(x: Seq<char>, i: int, a: int)
    requires
        0 <= i <= a < x.len(),
        forall|k: int| i <= k < a ==> is_ws(#[trigger] x[k]),
        !is_ws(x[a]),
    ensures
        lead_from(x, i) == a,
    decreases a - i,
{
    if i < a {
        lemma_lead_padded(x, i + 1, a);
    }
}

proof fn lemma_trail_padded(x: Seq<char>, j: int, b: int)
    requires
        0 < b <= j <= x.len(),
        forall|k: int| b <= k < j ==> is_ws(#[trigger] x[k]),
        !is_ws(x[b - 1]),
    ensures
        trail_to(x, j) == b,
    decreases j - b,
{
    if b < j {
        lemma_trail_padded(x, j - 1, b);
    }
}

/// The pieces of a split, joined back with the separator, give the text;
/// here only the count of pieces is needed: one more than the separators.
pub proof fn lemma_split_nonempty(s: Seq<char>, c: char)
    ensures
        split_on(s, c).len() >= 1,
    decreases s.len(),
{
    if s.len() > 0 {
        lemma_split_nonempty(s.drop_last(), c);
    }
}

/// The pieces joined back, with `c` between each two.
pub open spec fn join_on(parts: Seq<Seq<char>>, c: char) -> Seq<char>
    decreases parts.len(),
{
    if parts.len() <= 1 {
        if parts.len() == 1 {
            parts[0]
        } else {
            Seq::empty()
        }
    } else {
        join_on(parts.drop_last(), c) + seq![c] + parts.last()
    }
}

/// Splitting on `c` and joining back with `c` gives the text.
pub proof fn lemma_split_join(s: Seq<char>, c: char)
    ensures
        join_on(split_on(s, c), c) == s,
    decreases s.len(),
{
    if s.len() > 0 {
        let t = s.drop_last();
        let r = split_on(t, c);
        lemma_split_join(t, c);
        lemma_split_nonempty(t, c);
        if s.last() == c {
            assert(r.push(Seq::<char>::empty()).drop_last() =~= r);
            assert(s =~= t + seq![c] + Seq::<char>::empty());
        } else {
            let u = r.update(r.len() - 1, r.last().push(s.last()));
            if r.len() == 1 {
                assert(s =~= t.push(s.last()));
            } else {
                assert(u.drop_last() =~= r.drop_last());
                assert(t == join_on(r.drop_last(), c) + seq![c] + r.last());
                assert(s =~= t.push(s.last()));
                assert(s =~= join_on(r.drop_last(), c) + seq![c] + r.last().push(s.last()));
            }
        }
    }
}

/// Texts with the same pieces are the same text.
pub proof fn lemma_split_injective(a: Seq<char>, b: Seq<char>, c: char)
    requires
        split_on(a, c) == split_on(b, c),
    ensures
        a == b,
{
    lemma_split_join(a, c);
    lemma_split_join(b, c);
}

// ───────────────────────────── executables ────────────────────────────────

/// `String::push`: appends one character.
#[verifier::external_body]
pub(crate) fn push_char(s: &mut String, c: char)
    ensures
        final(s)@ == old(s)@.push(c),
{
    s.push(c);
}

/// The characters of `s`, in order.
pub fn chars_of(s: &str) -> (r: Vec<char>)
    ensures
        r@ == s@,
{
    let mut out: Vec<char> = Vec::new();
    for c in it: s.chars()
        invariant
            out@ == it.seq().take(it.index() as int),
            it.seq() == s@,
    {
        out.push(c);
    }
    assert(out@ =~= s@);
    out
}

/// A `String` holding exactly the characters of `v`.
pub fn string_of(v: &Vec<char>) -> (r: String)
    ensures
        r@ == v@,
{
    let mut out = String::new();
    let mut i: usize = 0;
    while i < v.len()
        invariant
            i <= v.len(),
            out@ == v@.subrange(0, i as int),
        decreases v.len() - i,
    {
        push_char(&mut out, v[i]);
        i += 1;
        assert(out@ =~= v@.subrange(0, i as int));
    }
    assert(v@.subrange(0, v.len() as int) =~= v@);
    out
}

/// Appends all characters of `t` to `s`.
pub fn push_str(s: &mut String, t: &str)
    ensures
        final(s)@ == old(s)@ + t@,
{
    s.append(t);
}

/// Appends all characters of `t` to `s`.
pub fn push_chars(s: &mut String, t: &Vec<char>)
    ensures
        final(s)@ == old(s)@ + t@,
{
    let ghost s0 = s@;
    let mut i: usize = 0;
    while i < t.len()
        invariant
            i <= t.len(),
            s@ == s0 + t@.subrange(0, i as int),
        decreases t.len() - i,
    {
        push_char(s, t[i]);
        i += 1;
        assert(s@ =~= s0 + t@.subrange(0, i as int));
    }
    assert(t@.subrange(0, t.len() as int) =~= t@);
}

/// Appends a vector of characters to another.
pub fn extend_chars(v: &mut Vec<char>, t: &Vec<char>)
    ensures
        final(v)@ == old(v)@ + t@,
{
    let ghost v0 = v@;
    let mut i: usize = 0;
    while i < t.len()
        invariant
            i <= t.len(),
            v@ == v0 + t@.subrange(0, i as int),
        decreases t.len() - i,
    {
        v.push(t[i]);
        i += 1;
        assert(v@ =~= v0 + t@.subrange(0, i as int));
    }
    assert(t@.subrange(0, t.len() as int) =~= t@);
}

/// Whether `c` is Unicode whitespace (`char::is_whitespace`).
pub fn is_whitespace(c: char) -> (r: bool)
    ensures
        r == is_ws(c),
{
    ('\u{9}' <= c && c <= '\u{d}') || c == ' ' || c == '\u{85}' || c == '\u{a0}'
        || c == '\u{1680}' || ('\u{2000}' <= c && c <= '\u{200a}') || c == '\u{2028}'
        || c == '\u{2029}' || c == '\u{202f}' || c == '\u{205f}' || c == '\u{3000}'
}

/// The characters of `v` in `[lo, hi)`.
pub fn slice_chars(v: &Vec<char>, lo: usize, hi: usize) -> (r: Vec<char>)
    requires
        lo <= hi <= v.len(),
    ensures
        r@ == v@.subrange(lo as int, hi as int),
{
    let mut out: Vec<char> = Vec::new();
    let mut i = lo;
    while i < hi
        invariant
            lo <= i <= hi <= v.len(),
            out@ == v@.subrange(lo as int, i as int),
        decreases hi - i,
    {
        out.push(v[i]);
        i += 1;
        assert(out@ =~= v@.subrange(lo as int, i as int));
    }
    out
}

/// `str::trim` on characters.
pub fn trim_chars(v: &Vec<char>) -> (r: Vec<char>)
    ensures
        r@ == trim(v@),
{
    let mut a: usize = 0;
    while a < v.len() && is_whitespace(v[a])
        invariant
            a <= v.len(),
            lead_from(v@, 0) == lead_from(v@, a as int),
        decreases v.len() - a,
    {
        a += 1;
    }
    if a >= v.len() {
        return Vec::new();
    }
    let mut e: usize = v.len();
    proof {
        lemma_trail_above(v@, v.len() as int, a as int);
    }
    while e > 0 && is_whitespace(v[e - 1])
        invariant
            a < e <= v.len(),
            trail_to(v@, v.len() as int) == trail_to(v@, e as int),
            !is_ws(v@[a as int]),
        decreases e,
    {
        e -= 1;
    }
    slice_chars(v, a, e)
}

/// Whether the characters of `v` equal those of `s`.
pub fn eq_str(v: &Vec<char>, s: &str) -> (r: bool)
    ensures
        r == (v@ == s@),
{
    let w = chars_of(s);
    eq_chars(v, &w)
}

/// Whether two character vectors are equal.
pub fn eq_chars(v: &Vec<char>, w: &Vec<char>) -> (r: bool)
    ensures
        r == (v@ == w@),
{
    if v.len() != w.len() {
        return false;
    }
    let mut i: usize = 0;
    while i < v.len()
        invariant
            v.len() == w.len(),
            i <= v.len(),
            forall|j: int| 0 <= j < i ==> v@[j] == w@[j],
        decreases v.len() - i,
    {
        if v[i] != w[i] {
            return false;
        }
        i += 1;
    }
    assert(v@ =~= w@);
    true
}

/// Whether `v` begins with the characters of `p`.
pub fn starts_with_str(v: &Vec<char>, p: &str) -> (r: bool)
    ensures
        r == starts_with(v@, p@),
{
    let w = chars_of(p);
    if w.len() > v.len() {
        return false;
    }
    let mut i: usize = 0;
    while i < w.len()
        invariant
            w.len() <= v.len(),
            w@ == p@,
            i <= w.len(),
            forall|j: int| 0 <= j < i ==> v@[j] == w@[j],
        decreases w.len() - i,
    {
        if v[i] != w[i] {
            assert(v@.take(w.len() as int)[i as int] != p@[i as int]);
            return false;
        }
        i += 1;
    }
    assert(v@.take(w.len() as int) =~= p@);
    true
}

/// Whether `v` ends with the characters of `p`.
pub fn ends_with_str(v: &Vec<char>, p: &str) -> (r: bool)
    ensures
        r == ends_with(v@, p@),
{
    let w = chars_of(p);
    if w.len() > v.len() {
        return false;
    }
    let off = v.len() - w.len();
    let mut i: usize = 0;
    while i < w.len()
        invariant
            w.len() <= v.len(),
            off == v.len() - w.len(),
            w@ == p@,
            i <= w.len(),
            forall|j: int| 0 <= j < i ==> v@[off + j] == w@[j],
        decreases w.len() - i,
    {
        if v[off + i] != w[i] {
            assert(v@.skip(off as int)[i as int] != p@[i as int]);
            return false;
        }
        i += 1;
    }
    assert(v@.skip(off as int) =~= p@);
    true
}

/// `str::split` on one character.
pub fn split_chars(v: &Vec<char>, c: char) -> (r: Vec<Vec<char>>)
    ensures
        seqs_of(r@) == split_on(v@, c),
{
    let mut out: Vec<Vec<char>> = Vec::new();
    let mut cur: Vec<char> = Vec::new();
    let mut i: usize = 0;
    while i < v.len()
        invariant
            i <= v.len(),
            seqs_of(out@).push(cur@) == split_on(v@.take(i as int), c),
        decreases v.len() - i,
    {
        let ghost prev = v@.take(i as int);
        assert(v@.take(i + 1).drop_last() =~= prev);
        if v[i] == c {
            let done = cur;
            out.push(done);
            cur = Vec::new();
            assert(seqs_of(out@) =~= split_on(prev, c));
        } else {
            cur.push(v[i]);
        }
        i += 1;
        assert(seqs_of(out@).push(cur@) =~= split_on(v@.take(i as int), c));
    }
    out.push(cur);
    assert(v@.take(v.len() as int) =~= v@);
    out
}

/// Index of the first occurrence of `c` in `v`.
pub fn find_chars(v: &Vec<char>, c: char) -> (r: Option<usize>)
    ensures
        match r {
            Some(i) => find_char(v@, c) == Some(i as int),
            None => find_char(v@, c) is None,
        },
{
    let mut i: usize = 0;
    while i < v.len()
        invariant
            i <= v.len(),
            find_char(v@.take(i as int), c) is None,
        decreases v.len() - i,
    {
        assert(v@.take(i + 1).drop_last() =~= v@.take(i as int));
        if v[i] == c {
            proof {
                lemma_find_prefix(v@, c, i as int + 1);
            }
            return Some(i);
        }
        i += 1;
    }
    assert(v@.take(v.len() as int) =~= v@);
    None
}

/// A first occurrence found in a prefix is the first occurrence overall.
pub proof fn lemma_find_prefix(s: Seq<char>, c: char, k: int)
    requires
        0 <= k <= s.len(),
        find_char(s.take(k), c) is Some,
    ensures
        find_char(s, c) == find_char(s.take(k), c),
    decreases s.len() - k,
{
    if k < s.len() {
        assert(s.take(k + 1).drop_last() =~= s.take(k));
        lemma_find_prefix(s, c, k + 1);
    } else {
        assert(s.take(k) =~= s);
    }
}

/// The lines of `text`, each trimmed.
pub fn trimmed_lines_of(text: &str) -> (r: Vec<Vec<char>>)
    ensures
        seqs_of(r@) == trimmed_lines(text@),
{
    let chars = chars_of(text);
    let mut parts = split_chars(&chars, '\n');
    proof {
        lemma_split_nonempty(text@, '\n');
    }
    let n = parts.len();
    if parts[n - 1].len() == 0 {
        parts.pop();
    }
    let ghost ls = lines(text@);
    assert(seqs_of(parts@) =~= ls);
    assert(parts@.len() == ls.len());
    let mut out: Vec<Vec<char>> = Vec::new();
    let mut i: usize = 0;
    while i < parts.len()
        invariant
            i <= parts.len(),
            parts@.len() == ls.len(),
            seqs_of(parts@) == ls,
            out@.len() == i,
            forall|j: int| 0 <= j < i ==> (#[trigger] out@[j])@ == trim(ls[j]),
        decreases parts.len() - i,
    {
        assert(seqs_of(parts@)[i as int] == parts@[i as int]@);
        let t = trim_chars(&parts[i]);
        out.push(t);
        i += 1;
    }
    assert(seqs_of(out@) =~= ls.map_values(|l: Seq<char>| trim(l)));
    out
}

/// The value of a digit in base `radix`, if `c` is one.
pub fn radix_digit(c: char, radix: u64) -> (r: Option<u64>)
    requires
        radix == 10 || radix == 16,
    ensures
        match r {
            Some(d) => is_radix_digit(c, radix as int) && d == hex_value(c) && d < radix,
            None => !is_radix_digit(c, radix as int),
        },
{
    if '0' <= c && c <= '9' {
        Some((c as u64) - ('0' as u64))
    } else if radix == 16 && 'a' <= c && c <= 'f' {
        Some((c as u64) - ('a' as u64) + 10)
    } else if radix == 16 && 'A' <= c && c <= 'F' {
        Some((c as u64) - ('A' as u64) + 10)
    } else {
        None
    }
}

/// Parses an unsigned number in base `radix` no greater than `max`, the way
/// `from_str_radix` does (an optional leading `+`, then digits only).
pub fn parse_unsigned_chars(v: &Vec<char>, radix: u64, max: u64) -> (r: Option<u64>)
    requires
        radix == 10 || radix == 16,
        max <= u32::MAX,
    ensures
        match r {
            Some(n) => parse_unsigned(v@, radix as int, max as int) == Some(n as int),
            None => parse_unsigned(v@, radix as int, max as int) is None,
        },
{
    let start: usize = if v.len() > 1 && v[0] == '+' {
        1
    } else {
        0
    };
    let ghost d = unsigned_digits(v@);
    assert(d =~= v@.subrange(start as int, v.len() as int));
    if start >= v.len() {
        return None;
    }
    let mut acc: u64 = 0;
    let mut k: usize = start;
    while k < v.len()
        invariant
            start <= k <= v.len(),
            d == v@.subrange(start as int, v.len() as int),
            d == unsigned_digits(v@),
            radix == 10 || radix == 16,
            max <= u32::MAX,
            acc <= max,
            acc == digits_value(d.take(k - start), radix as int),
            forall|i: int| 0 <= i < k - start ==> is_radix_digit(#[trigger] d[i], radix as int),
        decreases v.len() - k,
    {
        let dg = radix_digit(v[k], radix);
        match dg {
            None => {
                assert(d[k - start] == v@[k as int]);
                assert(!is_radix_digit(d[k - start], radix as int));
                return None;
            },
            Some(x) => {
                assert(d.take(k - start + 1).drop_last() =~= d.take(k - start));
                assert(d[k - start] == v@[k as int]);
                assert(acc * radix <= 0xffff_ffffu64 * 16) by (nonlinear_arith)
                    requires
                        acc <= 0xffff_ffffu64,
                        radix <= 16,
                ;
                let next = acc * radix + x;
                let ghost t = d.take(k - start + 1);
                assert(t.last() == d[k - start]);
                assert(digits_value(t, radix as int) == next);
                if next > max {
                    proof {
                        if forall|i: int| 0 <= i < d.len() ==> is_radix_digit(#[trigger] d[i], radix as int) {
                            lemma_digits_monotone(d, radix as int, k - start + 1);
                        }
                    }
                    return None;
                }
                acc = next;
            },
        }
        k += 1;
    }
    assert(d.take(d.len() as int) =~= d);
    Some(acc)
}

/// `str::trim_matches(c)` on characters.
pub fn strip_matches_chars(v: &Vec<char>, c: char) -> (r: Vec<char>)
    ensures
        r@ == strip_matches(v@, c),
{
    let mut a: usize = 0;
    while a < v.len() && v[a] == c
        invariant
            a <= v.len(),
            skip_from(v@, c, 0) == skip_from(v@, c, a as int),
        decreases v.len() - a,
    {
        a += 1;
    }
    let mut e: usize = v.len();
    while e > a && v[e - 1] == c
        invariant
            a <= e <= v.len(),
            skip_from(v@, c, 0) == a,
            back_to(v@, c, a as int, v.len() as int) == back_to(v@, c, a as int, e as int),
        decreases e,
    {
        e -= 1;
    }
    slice_chars(v, a, e)
}

/// `str::trim_start_matches(c)` on characters.
pub fn strip_start_chars(v: &Vec<char>, c: char) -> (r: Vec<char>)
    ensures
        r@ == strip_start_matches(v@, c),
{
    let mut a: usize = 0;
    while a < v.len() && v[a] == c
        invariant
            a <= v.len(),
            skip_from(v@, c, 0) == skip_from(v@, c, a as int),
        decreases v.len() - a,
    {
        a += 1;
    }
    slice_chars(v, a, v.len())
}

/// `str::trim_end_matches(c)` on characters.
pub fn strip_end_chars(v: &Vec<char>, c: char) -> (r: Vec<char>)
    ensures
        r@ == strip_end_matches(v@, c),
{
    let mut e: usize = v.len();
    while e > 0 && v[e - 1] == c
        invariant
            e <= v.len(),
            back_to(v@, c, 0, v.len() as int) == back_to(v@, c, 0, e as int),
        decreases e,
    {
        e -= 1;
    }
    slice_chars(v, 0, e)
}

/// `str::split_once(c)` on characters.
pub fn split_once_chars(v: &Vec<char>, c: char) -> (r: Option<(Vec<char>, Vec<char>)>)
    ensures
        match r {
            Some((a, b)) => split_once(v@, c) == Some((a@, b@)),
            None => split_once(v@, c) is None,
        },
{
    match find_chars(v, c) {
        Some(i) => {
            proof {
                lemma_find_bounds(v@, c);
            }
            let a = slice_chars(v, 0, i);
            let b = slice_chars(v, i + 1, v.len());
            assert(a@ =~= v@.take(i as int));
            assert(b@ =~= v@.skip(i + 1));
            Some((a, b))
        },
        None => None,
    }
}

/// A found index is in bounds and holds `c`.
pub proof fn lemma_find_bounds(s: Seq<char>, c: char)
    ensures
        find_char(s, c) matches Some(i) ==> 0 <= i < s.len() && s[i] == c,
    decreases s.len(),
{
    if s.len() > 0 {
        lemma_find_bounds(s.drop_last(), c);
    }
}

/// The decimal digit character for `d < 10`.
pub fn digit_of(d: u64) -> (r: char)
    requires
        d < 10,
    ensures
        r == digit_char(d as nat),
{
    let c = match d {
        0 => '0',
        1 => '1',
        2 => '2',
        3 => '3',
        4 => '4',
        5 => '5',
        6 => '6',
        7 => '7',
        8 => '8',
        _ => '9',
    };
    c
}

/// The lowercase hexadecimal digit character for `d < 16`.
pub fn hex_digit_of(d: u64) -> (r: char)
    requires
        d < 16,
    ensures
        r == hex_char(d as nat),
{
    if d < 10 {
        digit_of(d)
    } else {
        let c = match d {
            10 => 'a',
            11 => 'b',
            12 => 'c',
            13 => 'd',
            14 => 'e',
            _ => 'f',
        };
        c
    }
}

/// Appends a byte as two lowercase hexadecimal digits.
pub fn push_hex2(s: &mut String, b: u8)
    ensures
        final(s)@ == old(s)@ + hex2(b),
{
    let ghost s0 = s@;
    push_char(s, hex_digit_of((b / 16) as u64));
    push_char(s, hex_digit_of((b % 16) as u64));
    assert(s@ =~= s0 + hex2(b));
}

/// Appends a signed integer in decimal.
pub fn push_dec_i64(s: &mut String, n: i64)
    ensures
        final(s)@ == old(s)@ + dec_int(n as int),
{
    if n < 0 {
        let ghost s0 = s@;
        push_char(s, '-');
        let m: u64 = if n == i64::MIN {
            9223372036854775808u64
        } else {
            (-n) as u64
        };
        push_dec(s, m);
        assert(s@ =~= s0 + dec_int(n as int));
    } else {
        push_dec(s, n as u64);
    }
}

/// Appends `n` in decimal.
pub fn push_dec(s: &mut String, n: u64)
    ensures
        final(s)@ == old(s)@ + dec(n as nat),
    decreases n,
{
    if n >= 10 {
        push_dec(s, n / 10);
    }
    let c = digit_of(n % 10);
    push_char(s, c);
    proof {
        assert(dec(n as nat) == if n < 10 { seq![digit_char(n as nat)] } else { dec((n / 10) as nat).push(digit_char((n % 10) as nat)) });
    }
}

/// `str::parse::<i32>()`: an optional `-` or `+`, then one or more decimal
/// digits whose signed value fits in an `i32`.
pub open spec fn parse_i32(s: Seq<char>) -> Option<i32> {
    if s.len() > 1 && s[0] == '-' {
        let d = s.drop_first();
        if d.len() > 0 && (forall|i: int| 0 <= i < d.len() ==> is_digit(#[trigger] d[i]))
            && digits_value(d, 10) <= 2147483648 {
            Some((-digits_value(d, 10)) as i32)
        } else {
            None
        }
    } else {
        match parse_unsigned(s, 10, 2147483647) {
            Some(n) => Some(n as i32),
            None => None,
        }
    }
}

/// Parse a signed 32-bit decimal number like `str::parse::<i32>()`.
pub fn parse_i32_chars(v: &Vec<char>) -> (r: Option<i32>)
    ensures
        r == parse_i32(v@),
{
    if v.len() > 1 && v[0] == '-' {
        let tail = slice_chars(v, 1, v.len());
        assert(tail@ =~= v@.drop_first());
        if tail[0] == '+' {
            assert(!is_digit(tail@[0]));
            return None;
        }
        assert(unsigned_digits(tail@) == tail@);
        match parse_unsigned_chars(&tail, 10, 2147483648) {
            Some(n) => Some((-(n as i64)) as i32),
            None => None,
        }
    } else {
        match parse_unsigned_chars(v, 10, 2147483647) {
            Some(n) => Some(n as i32),
            None => None,
        }
    }
}

} // verus!
