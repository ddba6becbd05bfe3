//! Character-level text operations with their mathematical meaning.
//!
//! Strings are modelled by their view, a `Seq<char>`. The searches and
//! splittings here are the ones the rest of the library is specified in.
use vstd::prelude::*;
use vstd::string::*;
use vstd::utf8::{decode_utf8, encode_utf8, valid_utf8};

verus! {

broadcast use vstd::string::group_string_axioms;

// ---------------------------------------------------------------------------
// Specifications
// ---------------------------------------------------------------------------

/// `needle` occurs in `hay` starting at index `i`.
pub open spec fn occurs_at(hay: Seq<char>, needle: Seq<char>, i: int) -> bool {
    0 <= i && i + needle.len() <= hay.len() && hay.subrange(i, i + needle.len()) == needle
}

/// `needle` occurs somewhere in `hay` (the empty needle occurs everywhere).
pub open spec fn contains_seq(hay: Seq<char>, needle: Seq<char>) -> bool {
    exists|i: int| occurs_at(hay, needle, i)
}

/// The least index `>= from` at which `needle` occurs in `hay`.
pub open spec fn find_from(hay: Seq<char>, needle: Seq<char>, from: int) -> Option<int>
    decreases hay.len() + 1 - from,
{
    if from < 0 || from + needle.len() > hay.len() {
        None
    } else if occurs_at(hay, needle, from) {
        Some(from)
    } else {
        find_from(hay, needle, from + 1)
    }
}

/// The number of bytes of the UTF-8 encoding of `s`, as `str::len` reports
/// it for a string held in memory.
pub open spec fn utf8_len(s: Seq<char>) -> nat {
    (encode_utf8(s).len() as usize) as nat
}

/// `s` begins with `prefix`.
pub open spec fn starts_with(s: Seq<char>, prefix: Seq<char>) -> bool {
    prefix.len() <= s.len() && s.take(prefix.len() as int) == prefix
}

/// The least index `>= from` holding the character `c`.
pub open spec fn index_of_char(s: Seq<char>, c: char, from: int) -> Option<int>
    decreases s.len() - from,
{
    if from < 0 || from >= s.len() {
        None
    } else if s[from] == c {
        Some(from)
    } else {
        index_of_char(s, c, from + 1)
    }
}

/// Characters with the Unicode `White_Space` property (`char::is_whitespace`).
pub open spec fn is_white_space(c: char) -> bool {
    let u = c as u32;
    ||| 0x09 <= u <= 0x0D
    ||| u == 0x20
    ||| u == 0x85
    ||| u == 0xA0
    ||| u == 0x1680
    ||| 0x2000 <= u <= 0x200A
    ||| u == 0x2028
    ||| u == 0x2029
    ||| u == 0x202F
    ||| u == 0x205F
    ||| u == 0x3000
}

/// Number of leading white-space characters of `s`.
pub open spec fn leading_white(s: Seq<char>) -> nat
    decreases s.len(),
{
    if s.len() > 0 && is_white_space(s[0]) {
        1 + leading_white(s.drop_first())
    } else {
        0
    }
}

/// Number of trailing white-space characters of `s`.
pub open spec fn trailing_white(s: Seq<char>) -> nat
    decreases s.len(),
{
    if s.len() > 0 && is_white_space(s.last()) {
        1 + trailing_white(s.drop_last())
    } else {
        0
    }
}

/// `s` without its leading and trailing white space (`str::trim`).
pub open spec fn trim(s: Seq<char>) -> Seq<char> {
    let t = s.skip(leading_white(s) as int);
    t.take(t.len() - trailing_white(t))
}

/// `line` without one final carriage return, if it has one.
pub open spec fn strip_cr(line: Seq<char>) -> Seq<char> {
    if line.len() > 0 && line.last() == '\r' {
        line.drop_last()
    } else {
        line
    }
}

/// The lines of `s` as `str::lines` yields them: split at each `\n`, a
/// `\r` right before the `\n` dropped, and no empty line after a final `\n`.
pub open spec fn lines_of(s: Seq<char>) -> Seq<Seq<char>>
    decreases s.len(),
{
    if s.len() == 0 {
        seq![]
    } else {
        match index_of_char(s, '\n', 0) {
            None => seq![s],
            Some(i) => {
                proof {
                    lemma_index_of_char_props(s, '\n', 0);
                }
                seq![strip_cr(s.take(i))] + lines_of(s.skip(i + 1))
            },
        }
    }
}

/// The pieces of `ls` joined with `sep` between consecutive pieces.
pub open spec fn join(ls: Seq<Seq<char>>, sep: Seq<char>) -> Seq<char>
    decreases ls.len(),
{
    if ls.len() == 0 {
        seq![]
    } else if ls.len() == 1 {
        ls[0]
    } else {
        join(ls.drop_last(), sep) + sep + ls.last()
    }
}

// ---------------------------------------------------------------------------
// Lemmas
// ---------------------------------------------------------------------------

pub proof fn lemma_index_of_char_props(s: Seq<char>, c: char, from: int)
    requires
        0 <= from,
    ensures
        index_of_char(s, c, from) matches Some(i) ==> from <= i < s.len() && s[i] == c && (
        forall|j: int| from <= j < i ==> s[j] != c),
        index_of_char(s, c, from) is None ==> forall|j: int| from <= j < s.len() ==> s[j] != c,
    decreases s.len() - from,
{
    if from < s.len() && s[from] != c {
        lemma_index_of_char_props(s, c, from + 1);
    }
}

pub proof fn lemma_find_from_props(hay: Seq<char>, needle: Seq<char>, from: int)
    requires
        0 <= from,
    ensures
        find_from(hay, needle, from) matches Some(i) ==> from <= i && occurs_at(hay, needle, i)
            && (forall|j: int| from <= j < i ==> !occurs_at(hay, needle, j)),
        find_from(hay, needle, from) is None ==> forall|j: int|
            from <= j ==> !occurs_at(hay, needle, j),
    decreases hay.len() + 1 - from,
{
    if from + needle.len() <= hay.len() && !occurs_at(hay, needle, from) {
        lemma_find_from_props(hay, needle, from + 1);
    }
}

/// `find_from` from the start is `Some` exactly when the needle occurs.
pub proof fn lemma_find_contains(hay: Seq<char>, needle: Seq<char>)
    ensures
        find_from(hay, needle, 0) is Some <==> contains_seq(hay, needle),
        find_from(hay, needle, 0) matches Some(i) ==> occurs_at(hay, needle, i),
{
    lemma_find_from_props(hay, needle, 0);
    if contains_seq(hay, needle) {
        let i = choose|i: int| occurs_at(hay, needle, i);
        assert(occurs_at(hay, needle, i));
    }
}

/// Searching from `p + k` in `s` is searching from `k` in `s.skip(p)`.
pub proof fn lemma_index_of_char_skip(s: Seq<char>, c: char, p: int, k: int)
    requires
        0 <= p <= s.len(),
        0 <= k,
    ensures
        index_of_char(s.skip(p), c, k) == (match index_of_char(s, c, p + k) {
            Some(i) => Some(i - p),
            None => None::<int>,
        }),
    decreases s.len() - p - k,
{
    if p + k < s.len() && s[p + k] != c {
        lemma_index_of_char_skip(s, c, p, k + 1);
    }
}

/// The text of a byte sequence with each invalid UTF-8 sequence replaced
/// (`String::from_utf8_lossy`).
pub uninterp spec fn lossy_utf8(bytes: Seq<u8>) -> Seq<char>;

/// `String::from_utf8_lossy`. Claimed: the result is the named decoding,
/// and bytes that are valid UTF-8 decode to exactly their characters.
#[verifier::external_body]
pub(crate) fn utf8_lossy(bytes: &[u8]) -> (r: String)
    ensures
        r@ == lossy_utf8(bytes@),
        valid_utf8(bytes@) ==> r@ == decode_utf8(bytes@),
{
    String::from_utf8_lossy(bytes).into_owned()
}

// ---------------------------------------------------------------------------
// Executable operations
// ---------------------------------------------------------------------------

/// Appends one character to a string (`String::push`).
#[verifier::external_body]
pub(crate) fn push_char(s: &mut String, c: char)
    ensures
        final(s)@ == old(s)@.push(c),
{
    s.push(c);
}

/// The characters of a string slice, in order.
pub fn chars_of(s: &str) -> (r: Vec<char>)
    ensures
        r@ == s@,
{
    let mut r: Vec<char> = Vec::new();
    for c in it: s.chars()
        invariant
            r@ == it.seq().take(it.index() as int),
    {
        r.push(c);
    }
    proof {
        assert(r@ =~= s@);
    }
    r
}

/// The string `a` followed by `b`.
pub fn concat(a: &str, b: &str) -> (r: String)
    ensures
        r@ == a@ + b@,
{
    let mut r = a.to_owned();
    r.append(b);
    r
}

/// The characters `v[from..to]` as a string.
pub fn string_of_range(v: &[char], from: usize, to: usize) -> (r: String)
    requires
        from <= to <= v@.len(),
    ensures
        r@ == v@.subrange(from as int, to as int),
{
    let mut r = String::new();
    let mut i = from;
    while i < to
        invariant
            from <= i <= to <= v@.len(),
            r@ == v@.subrange(from as int, i as int),
        decreases to - i,
    {
        push_char(&mut r, v[i]);
        proof {
            assert(v@.subrange(from as int, i + 1) =~= v@.subrange(from as int, i as int).push(
                v@[i as int],
            ));
        }
        i += 1;
    }
    r
}

/// Whether two character sequences are equal.
pub fn chars_eq(a: &[char], b: &[char]) -> (r: bool)
    ensures
        r == (a@ == b@),
{
    if a.len() != b.len() {
        return false;
    }
    for i in 0..a.len()
        invariant
            a@.len() == b@.len(),
            forall|j: int| 0 <= j < i ==> a@[j] == b@[j],
    {
        if a[i] != b[i] {
            return false;
        }
    }
    proof {
        assert(a@ =~= b@);
    }
    true
}

/// Whether two strings are equal.
pub fn str_eq(a: &str, b: &str) -> (r: bool)
    ensures
        r == (a@ == b@),
{
    let va = chars_of(a);
    let vb = chars_of(b);
    chars_eq(va.as_slice(), vb.as_slice())
}

/// Whether `needle` occurs in `hay` at index `i`.
pub fn occurs_at_exec(hay: &[char], needle: &[char], i: usize) -> (r: bool)
    ensures
        r == occurs_at(hay@, needle@, i as int),
{
    if i > hay.len() || needle.len() > hay.len() - i {
        return false;
    }
    let hl = hay.len();
    for k in 0..needle.len()
        invariant
            hl == hay@.len(),
            i + needle@.len() <= hay@.len(),
            forall|j: int| 0 <= j < k ==> hay@[i + j] == needle@[j],
    {
        assert(i + k < hay@.len());
        if hay[i + k] != needle[k] {
            return false;
        }
    }
    proof {
        assert(hay@.subrange(i as int, i + needle@.len()) =~= needle@);
    }
    true
}

/// The least index `>= from` at which `needle` occurs in `hay`.
pub fn find_seq(hay: &[char], needle: &[char], from: usize) -> (r: Option<usize>)
    ensures
        r == (match find_from(hay@, needle@, from as int) {
            Some(i) => Some(i as usize),
            None => None::<usize>,
        }),
{
    let mut i = from;
    while i <= hay.len() && needle.len() <= hay.len() - i
        invariant
            from <= i,
            find_from(hay@, needle@, from as int) == find_from(hay@, needle@, i as int),
        decreases hay.len() + 1 - i,
    {
        if occurs_at_exec(hay, needle, i) {
            return Some(i);
        }
        if i == hay.len() {
            assert(find_from(hay@, needle@, i + 1) is None);
            return None;
        }
        i += 1;
    }
    None
}

/// Whether `needle` occurs in `hay`.
pub fn contains_chars(hay: &[char], needle: &[char]) -> (r: bool)
    ensures
        r == contains_seq(hay@, needle@),
{
    proof {
        lemma_find_contains(hay@, needle@);
    }
    find_seq(hay, needle, 0).is_some()
}

/// Whether the string `hay` contains the string `needle`.
pub fn str_contains(hay: &str, needle: &str) -> (r: bool)
    ensures
        r == contains_seq(hay@, needle@),
{
    let h = chars_of(hay);
    let n = chars_of(needle);
    contains_chars(h.as_slice(), n.as_slice())
}

/// Whether `s` begins with `prefix`.
pub fn starts_with_chars(s: &[char], prefix: &[char]) -> (r: bool)
    ensures
        r == starts_with(s@, prefix@),
{
    let r = occurs_at_exec(s, prefix, 0);
    proof {
        if r {
            assert(s@.take(prefix@.len() as int) =~= s@.subrange(0, prefix@.len() as int));
        } else if prefix@.len() <= s@.len() {
            assert(s@.take(prefix@.len() as int) =~= s@.subrange(0, prefix@.len() as int));
        }
    }
    r
}

/// Whether the string `s` begins with the string `prefix`.
pub fn str_starts_with(s: &str, prefix: &str) -> (r: bool)
    ensures
        r == starts_with(s@, prefix@),
{
    let a = chars_of(s);
    let b = chars_of(prefix);
    starts_with_chars(a.as_slice(), b.as_slice())
}

/// The least index `>= from` holding `c`.
pub fn find_char(s: &[char], c: char, from: usize) -> (r: Option<usize>)
    ensures
        r == (match index_of_char(s@, c, from as int) {
            Some(i) => Some(i as usize),
            None => None::<usize>,
        }),
{
    let mut i = from;
    while i < s.len()
        invariant
            from <= i,
            index_of_char(s@, c, from as int) == index_of_char(s@, c, i as int),
        decreases s.len() - i,
    {
        if s[i] == c {
            return Some(i);
        }
        i += 1;
    }
    None
}

/// Whether `c` has the Unicode `White_Space` property.
pub fn is_white_space_exec(c: char) -> (r: bool)
    ensures
        r == is_white_space(c),
{
    let u = c as u32;
    (0x09 <= u && u <= 0x0D) || u == 0x20 || u == 0x85 || u == 0xA0 || u == 0x1680 || (0x2000
        <= u && u <= 0x200A) || u == 0x2028 || u == 0x2029 || u == 0x202F || u == 0x205F || u
        == 0x3000
}

proof fn lemma_leading_white(s: Seq<char>, i: int)
    requires
        0 <= i <= s.len(),
        forall|j: int| 0 <= j < i ==> is_white_space(s[j]),
        i == s.len() || !is_white_space(s[i]),
    ensures
        leading_white(s) == i,
    decreases i,
{
    if i > 0 {
        lemma_leading_white(s.drop_first(), i - 1);
    }
}

proof fn lemma_trailing_white(s: Seq<char>, k: int)
    requires
        0 <= k <= s.len(),
        forall|j: int| s.len() - k <= j < s.len() ==> is_white_space(s[j]),
        k == s.len() || !is_white_space(s[s.len() - k - 1]),
    ensures
        trailing_white(s) == k,
    decreases k,
{
    if k > 0 {
        lemma_trailing_white(s.drop_last(), k - 1);
    }
}

/// The bounds `(start, end)` of `s` without leading and trailing white space.
pub fn trim_bounds(s: &[char], from: usize, to: usize) -> (r: (usize, usize))
    requires
        from <= to <= s@.len(),
    ensures
        from <= r.0 <= r.1 <= to,
        s@.subrange(r.0 as int, r.1 as int) == trim(s@.subrange(from as int, to as int)),
{
    let ghost w = s@.subrange(from as int, to as int);
    let mut a = from;
    while a < to && is_white_space_exec(s[a])
        invariant
            from <= a <= to <= s@.len(),
            forall|j: int| from <= j < a ==> is_white_space(s@[j]),
        decreases to - a,
    {
        a += 1;
    }
    proof {
        lemma_leading_white(w, a - from);
    }
    let mut b = to;
    while b > a && is_white_space_exec(s[b - 1])
        invariant
            from <= a <= b <= to <= s@.len(),
            forall|j: int| b <= j < to ==> is_white_space(s@[j]),
        decreases b - a,
    {
        b -= 1;
    }
    proof {
        let t = w.skip(a - from);
        assert(t =~= s@.subrange(a as int, to as int));
        lemma_trailing_white(t, to - b);
        assert(t.take(t.len() - (to - b)) =~= s@.subrange(a as int, b as int));
    }
    (a, b)
}

proof fn lemma_lines_step(s: Seq<char>, i: int)
    requires
        s.len() > 0,
        index_of_char(s, '\n', 0) == Some(i),
    ensures
        lines_of(s) == seq![strip_cr(s.take(i))] + lines_of(s.skip(i + 1)),
{
}

/// The lines of `v[from..]`, as `str::lines` yields them.
pub fn lines_from(v: &[char], from: usize) -> (r: Vec<String>)
    requires
        from <= v@.len(),
    ensures
        r@.map_values(|l: String| l@) == lines_of(v@.skip(from as int)),
{
    let mut out: Vec<String> = Vec::new();
    let mut pos = from;
    while pos < v.len()
        invariant
            from <= pos <= v@.len(),
            out@.map_values(|l: String| l@) + lines_of(v@.skip(pos as int)) == lines_of(
                v@.skip(from as int),
            ),
        decreases v@.len() - pos,
    {
        let ghost rest = v@.skip(pos as int);
        match find_char(v, '\n', pos) {
            None => {
                proof {
                    lemma_index_of_char_props(v@, '\n', pos as int);
                    lemma_index_of_char_props(rest, '\n', 0);
                    assert(index_of_char(rest, '\n', 0) is None) by {
                        if index_of_char(rest, '\n', 0) is Some {
                            let k = index_of_char(rest, '\n', 0)->0;
                            assert(v@[pos + k] == '\n');
                        }
                    }
                    assert(lines_of(rest) == seq![rest]);
                    assert(v@.subrange(pos as int, v@.len() as int) =~= rest);
                    assert(v@.skip(v@.len() as int) =~= Seq::<char>::empty());
                    assert(lines_of(v@.skip(v@.len() as int)) =~= Seq::<Seq<char>>::empty());
                }
                let line = string_of_range(v, pos, v.len());
                out.push(line);
                proof {
                    assert(out@.map_values(|l: String| l@) =~= old_map_push(
                        out@.drop_last().map_values(|l: String| l@),
                        rest,
                    ));
                }
                pos = v.len();
            },
            Some(i) => {
                proof {
                    lemma_index_of_char_props(v@, '\n', pos as int);
                    lemma_index_of_char_props(rest, '\n', 0);
                    let k = i - pos;
                    assert(rest[k] == '\n');
                    assert(index_of_char(rest, '\n', 0) == Some(k)) by {
                        let o = index_of_char(rest, '\n', 0);
                        if o is None {
                            assert(rest[k] != '\n');
                        } else {
                            let m = o->0;
                            assert(v@[pos + m] == '\n');
                            assert(m >= k);
                            if m > k {
                                assert(rest[k] != '\n');
                            }
                        }
                    }
                    lemma_lines_step(rest, k);
                    assert(rest.skip(k + 1) =~= v@.skip(i + 1));
                    assert(rest.take(k) =~= v@.subrange(pos as int, i as int));
                }
                let end = if i > pos && v[i - 1] == '\r' {
                    i - 1
                } else {
                    i
                };
                let line = string_of_range(v, pos, end);
                proof {
                    let t = v@.subrange(pos as int, i as int);
                    if i > pos && v@[i - 1] == '\r' {
                        assert(strip_cr(t) =~= line@);
                    } else {
                        assert(strip_cr(t) =~= line@);
                    }
                }
                out.push(line);
                proof {
                    assert(out@.map_values(|l: String| l@) =~= old_map_push(
                        out@.drop_last().map_values(|l: String| l@),
                        line@,
                    ));
                }
                pos = i + 1;
            },
        }
    }
    proof {
        assert(v@.skip(pos as int) =~= Seq::<char>::empty());
        assert(lines_of(v@.skip(pos as int)) =~= Seq::<Seq<char>>::empty());
        assert(out@.map_values(|l: String| l@) + Seq::<Seq<char>>::empty() =~= out@.map_values(
            |l: String| l@,
        ));
    }
    out
}

spec fn old_map_push(s: Seq<Seq<char>>, x: Seq<char>) -> Seq<Seq<char>> {
    s.push(x)
}

} // verus!
