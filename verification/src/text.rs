//! Text primitives on Unicode scalar sequences.
//!
//! Strings are reasoned about through their `Seq<char>` view; byte lengths
//! are the lengths of their UTF-8 encodings.
use vstd::prelude::*;
use vstd::utf8::*;

verus! {

broadcast use {vstd::string::group_string_axioms, vstd::utf8::group_utf8_lib};

/// Length in bytes of the UTF-8 encoding of `s`.
pub open spec fn byte_len(s: Seq<char>) -> nat {
    encode_utf8(s).len()
}

/// The encoding of a concatenation is the concatenation of the encodings.
pub proof fn lemma_encode_concat(a: Seq<char>, b: Seq<char>)
    ensures
        encode_utf8(a + b) == encode_utf8(a) + encode_utf8(b),
    decreases a.len(),
{
    if a.len() == 0 {
        assert(a + b =~= b);
    } else {
        lemma_encode_concat(a.drop_first(), b);
        assert((a + b).drop_first() =~= a.drop_first() + b);
        assert(encode_utf8(a + b) =~= encode_scalar(a[0] as u32) + encode_utf8(a.drop_first() + b));
    }
}

/// The chars of `s`, in order.
pub fn to_chars(s: &str) -> (v: Vec<char>)
    ensures
        v@ == s@,
{
    let mut v: Vec<char> = Vec::new();
    for c in it: s.chars()
        invariant
            v@ == it.seq().take(it.index() as int),
            it.seq() == s@,
    {
        v.push(c);
    }
    v
}

/// Builds a `String` holding exactly the given chars.
#[verifier::external_body]
pub(crate) fn string_from_chars(chars: &[char]) -> (s: String)
    ensures
        s@ == chars@,
{
    chars.iter().collect()
}

/// Appends one char to a `String`.
#[verifier::external_body]
pub(crate) fn push_char(s: &mut String, c: char)
    ensures
        final(s)@ == old(s)@.push(c),
{
    s.push(c)
}

/// Appends a string slice to a `String`.
pub(crate) fn push_str(s: &mut String, t: &str)
    ensures
        final(s)@ == old(s)@ + t@,
{
    s.append(t)
}

/// Owned copy of a string slice.
pub fn owned(s: &str) -> (r: String)
    ensures
        r@ == s@,
{
    s.to_owned()
}

/// Unicode lower-case mapping of a char sequence, as `str::to_lowercase` computes it.
pub uninterp spec fn lowercase(s: Seq<char>) -> Seq<char>;


/// Every char of `s` is ASCII.
pub open spec fn all_ascii(s: Seq<char>) -> bool {
    forall|i: int| 0 <= i < s.len() ==> (#[trigger] s[i] as u32) < 128
}

/// `s` with the ASCII capitals `A` to `Z` replaced by `a` to `z`.
pub open spec fn ascii_lower(s: Seq<char>) -> Seq<char> {
    s.map_values(|c: char| if 'A' <= c && c <= 'Z' {
        ((c as u32) + 32) as char
    } else {
        c
    })
}

/// Calls `str::to_lowercase`; the result is the Unicode lower-case mapping of `s`,
/// which depends on `s` alone. On ASCII text that mapping lowers `A` to `Z`
/// and keeps every other char, as `to_ascii_lowercase` does.
#[verifier::external_body]
pub(crate) fn to_lowercase(s: &str) -> (r: String)
    ensures
        r@ == lowercase(s@),
        all_ascii(s@) ==> r@ == ascii_lower(s@),
{
    s.to_lowercase()
}

/// Unicode `White_Space`, as `char::is_whitespace` decides it.
pub open spec fn is_ws(c: char) -> bool {
    ||| ('\u{9}' <= c && c <= '\u{d}')
    ||| c == ' '
    ||| c == '\u{85}'
    ||| c == '\u{a0}'
    ||| c == '\u{1680}'
    ||| ('\u{2000}' <= c && c <= '\u{200a}')
    ||| c == '\u{2028}'
    ||| c == '\u{2029}'
    ||| c == '\u{202f}'
    ||| c == '\u{205f}'
    ||| c == '\u{3000}'
}

pub fn is_whitespace(c: char) -> (b: bool)
    ensures
        b == is_ws(c),
{
    ('\u{9}' <= c && c <= '\u{d}') || c == ' ' || c == '\u{85}' || c == '\u{a0}' || c
        == '\u{1680}' || ('\u{2000}' <= c && c <= '\u{200a}') || c == '\u{2028}' || c
        == '\u{2029}' || c == '\u{202f}' || c == '\u{205f}' || c == '\u{3000}'
}


/// Copy of `v[start..end]`.
pub fn slice_range(v: &[char], start: usize, end: usize) -> (r: Vec<char>)
    requires
        start <= end <= v@.len(),
    ensures
        r@ == v@.subrange(start as int, end as int),
{
    let mut r: Vec<char> = Vec::new();
    let mut i = start;
    while i < end
        invariant
            start <= i <= end <= v@.len(),
            r@ == v@.subrange(start as int, i as int),
        decreases end - i,
    {
        r.push(v[i]);
        i = i + 1;
    }
    r
}

/// `s` with leading whitespace removed.
pub open spec fn trim_start(s: Seq<char>) -> Seq<char>
    decreases s.len(),
{
    if s.len() > 0 && is_ws(s[0]) {
        trim_start(s.drop_first())
    } else {
        s
    }
}

/// `s` with trailing whitespace removed.
pub open spec fn trim_end(s: Seq<char>) -> Seq<char>
    decreases s.len(),
{
    if s.len() > 0 && is_ws(s.last()) {
        trim_end(s.drop_last())
    } else {
        s
    }
}

/// `s` with leading and trailing whitespace removed, as `str::trim` does.
pub open spec fn trim(s: Seq<char>) -> Seq<char> {
    trim_end(trim_start(s))
}

/// Bounds of the trimmed part of `v`.
pub fn trim_bounds(v: &[char]) -> (r: (usize, usize))
    ensures
        r.0 <= r.1 <= v@.len(),
        v@.subrange(r.0 as int, r.1 as int) == trim(v@),
        trim_start(v@) == v@.subrange(r.0 as int, v@.len() as int),
{
    let len = v.len();
    let mut i: usize = 0;
    assert(v@.subrange(0, len as int) =~= v@);
    while i < len && is_whitespace(v[i])
        invariant
            i <= len == v@.len(),
            trim_start(v@) == trim_start(v@.subrange(i as int, len as int)),
        decreases len - i,
    {
        assert(v@.subrange(i as int, len as int).drop_first() =~= v@.subrange(
            i + 1,
            len as int,
        ));
        i = i + 1;
    }
    let mut j: usize = len;
    while j > i && is_whitespace(v[j - 1])
        invariant
            i <= j <= len == v@.len(),
            trim_start(v@) == v@.subrange(i as int, len as int),
            trim(v@) == trim_end(v@.subrange(i as int, j as int)),
        decreases j,
    {
        assert(v@.subrange(i as int, j as int).drop_last() =~= v@.subrange(
            i as int,
            j - 1,
        ));
        j = j - 1;
    }
    (i, j)
}

/// `str::trim`, on chars.
pub fn trim_chars(v: &[char]) -> (r: Vec<char>)
    ensures
        r@ == trim(v@),
{
    let (a, b) = trim_bounds(v);
    slice_range(v, a, b)
}

/// `s[i..i + p.len()] == p`.
pub open spec fn occurs_at(s: Seq<char>, p: Seq<char>, i: int) -> bool {
    0 <= i && i + p.len() <= s.len() && s.subrange(i, i + p.len()) == p
}

/// `p` occurs somewhere in `s`, as `str::contains` decides it.
pub open spec fn contains(s: Seq<char>, p: Seq<char>) -> bool {
    exists|i: int| occurs_at(s, p, i)
}

/// `s` starts with `p`.
pub open spec fn starts_with(s: Seq<char>, p: Seq<char>) -> bool {
    occurs_at(s, p, 0)
}

/// `s` ends with `p`.
pub open spec fn ends_with(s: Seq<char>, p: Seq<char>) -> bool {
    p.len() <= s.len() && occurs_at(s, p, s.len() - p.len())
}

/// Whether `p` occurs in `s` at position `i`.
pub fn matches_at(s: &[char], p: &[char], i: usize) -> (b: bool)
    ensures
        b == occurs_at(s@, p@, i as int),
{
    if i > s.len() || p.len() > s.len() - i {
        return false;
    }
    let slen = s.len();
    let mut k: usize = 0;
    while k < p.len()
        invariant
            slen == s@.len(),
            i + p@.len() <= s@.len(),
            k <= p@.len(),
            forall|j: int| 0 <= j < k ==> s@[i + j] == p@[j],
        decreases p@.len() - k,
    {
        assert(i + k < s@.len());
        if s[i + k] != p[k] {
            assert(s@.subrange(i as int, i + p@.len())[k as int] != p@[k as int]);
            return false;
        }
        k = k + 1;
    }
    assert(s@.subrange(i as int, i + p@.len()) =~= p@);
    true
}

/// Position of the first occurrence of `p` in `s`, as `str::find` gives it (in chars).
pub fn find(s: &[char], p: &[char]) -> (r: Option<usize>)
    ensures
        match r {
            Some(i) => occurs_at(s@, p@, i as int) && forall|j: int|
                0 <= j < i ==> !occurs_at(s@, p@, j),
            None => !contains(s@, p@),
        },
{
    if p.len() > s.len() {
        return None;
    }
    let last = s.len() - p.len();
    let mut i: usize = 0;
    loop
        invariant
            last == s@.len() - p@.len(),
            i <= last,
            forall|j: int| 0 <= j < i ==> !occurs_at(s@, p@, j),
        decreases last - i,
    {
        if matches_at(s, p, i) {
            return Some(i);
        }
        if i == last {
            return None;
        }
        i = i + 1;
    }
}

/// Whether `p` occurs in `s`.
pub fn contains_chars(s: &[char], p: &[char]) -> (b: bool)
    ensures
        b == contains(s@, p@),
{
    match find(s, p) {
        Some(_) => true,
        None => false,
    }
}

/// Whether `s` starts with `p`.
pub fn starts_with_chars(s: &[char], p: &[char]) -> (b: bool)
    ensures
        b == starts_with(s@, p@),
{
    matches_at(s, p, 0)
}

/// Whether `s` ends with `p`.
pub fn ends_with_chars(s: &[char], p: &[char]) -> (b: bool)
    ensures
        b == ends_with(s@, p@),
{
    if p.len() > s.len() {
        false
    } else {
        matches_at(s, p, s.len() - p.len())
    }
}

/// Whether `s` contains the string `p`.
pub fn str_contains(s: &[char], p: &str) -> (b: bool)
    ensures
        b == contains(s@, p@),
{
    let pc = to_chars(p);
    contains_chars(s, pc.as_slice())
}

/// Whether the two strings hold the same chars.
pub fn str_eq(a: &str, b: &str) -> (r: bool)
    ensures
        r == (a@ == b@),
{
    let x = to_chars(a);
    let y = to_chars(b);
    if x.len() != y.len() {
        return false;
    }
    let r = matches_at(x.as_slice(), y.as_slice(), 0);
    assert(x@ =~= x@.subrange(0, y@.len() as int));
    r
}

/// Whether the two char slices are equal.
pub fn chars_eq(a: &[char], b: &[char]) -> (r: bool)
    ensures
        r == (a@ == b@),
{
    if a.len() != b.len() {
        return false;
    }
    let r = matches_at(a, b, 0);
    assert(a@ =~= a@.subrange(0, b@.len() as int));
    r
}

/// Decimal digit chars.
pub open spec fn digit(d: int) -> char {
    seq!['0', '1', '2', '3', '4', '5', '6', '7', '8', '9'][d]
}

/// Decimal rendering of `n`, as `{}` formats an unsigned integer.
pub open spec fn decimal(n: nat) -> Seq<char>
    decreases n,
{
    if n < 10 {
        seq![digit(n as int)]
    } else {
        decimal(n / 10).push(digit((n % 10) as int))
    }
}

fn digit_exec(d: usize) -> (c: char)
    requires
        d < 10,
    ensures
        c == digit(d as int),
{
    let digits = ['0', '1', '2', '3', '4', '5', '6', '7', '8', '9'];
    proof {
        assert(digits@ =~= seq!['0', '1', '2', '3', '4', '5', '6', '7', '8', '9']);
    }
    digits[d]
}

/// Appends the decimal rendering of `n`.
pub fn push_decimal(s: &mut String, n: usize)
    ensures
        final(s)@ == old(s)@ + decimal(n as nat),
    decreases n,
{
    if n >= 10 {
        push_decimal(s, n / 10);
    }
    push_char(s, digit_exec(n % 10));
    proof {
        if n >= 10 {
            assert(old(s)@ + decimal(n as nat) =~= old(s)@ + decimal((n / 10) as nat) + seq![
                digit((n % 10) as int),
            ]);
        } else {
            assert(old(s)@ + decimal(n as nat) =~= old(s)@.push(digit((n % 10) as int)));
        }
    }
}

/// Appends the decimal rendering of a `u64`.
pub fn push_decimal_u64(s: &mut String, n: u64)
    ensures
        final(s)@ == old(s)@ + decimal(n as nat),
    decreases n,
{
    if n >= 10 {
        push_decimal_u64(s, n / 10);
    }
    push_char(s, digit_exec((n % 10) as usize));
    proof {
        if n >= 10 {
            assert(old(s)@ + decimal(n as nat) =~= old(s)@ + decimal((n / 10) as nat) + seq![
                digit((n % 10) as int),
            ]);
        } else {
            assert(old(s)@ + decimal(n as nat) =~= old(s)@.push(digit((n % 10) as int)));
        }
    }
}

/// The char sequences held by a sequence of char vectors.
pub open spec fn seqs_of(v: Seq<Vec<char>>) -> Seq<Seq<char>> {
    v.map_values(|l: Vec<char>| l@)
}

/// Index of the first `c` in `s`, or -1.
pub open spec fn index_of(s: Seq<char>, c: char) -> int
    decreases s.len(),
{
    if s.len() == 0 {
        -1
    } else if s[0] == c {
        0
    } else {
        let k = index_of(s.drop_first(), c);
        if k < 0 {
            -1
        } else {
            k + 1
        }
    }
}

pub proof fn lemma_index_of(s: Seq<char>, c: char)
    ensures
        -1 <= index_of(s, c) < s.len(),
        index_of(s, c) >= 0 ==> s[index_of(s, c)] == c,
        forall|j: int| 0 <= j < index_of(s, c) ==> s[j] != c,
        index_of(s, c) < 0 ==> forall|j: int| 0 <= j < s.len() ==> s[j] != c,
    decreases s.len(),
{
    if s.len() > 0 && s[0] != c {
        lemma_index_of(s.drop_first(), c);
        assert forall|j: int| 0 <= j < index_of(s, c) implies s[j] != c by {
            if j > 0 {
                assert(s[j] == s.drop_first()[j - 1]);
            }
        }
        if index_of(s, c) < 0 {
            assert forall|j: int| 0 <= j < s.len() implies s[j] != c by {
                if j > 0 {
                    assert(s[j] == s.drop_first()[j - 1]);
                }
            }
        }
    }
}

/// The first `c` in `s` is at `k`.
pub proof fn lemma_index_of_at(s: Seq<char>, c: char, k: int)
    requires
        0 <= k < s.len(),
        s[k] == c,
        forall|j: int| 0 <= j < k ==> s[j] != c,
    ensures
        index_of(s, c) == k,
    decreases s.len(),
{
    if k > 0 {
        assert forall|j: int| 0 <= j < k - 1 implies s.drop_first()[j] != c by {
            assert(s.drop_first()[j] == s[j + 1]);
        }
        lemma_index_of_at(s.drop_first(), c, k - 1);
    }
}

/// `s` holds no `c`.
pub proof fn lemma_index_of_none(s: Seq<char>, c: char)
    requires
        forall|j: int| 0 <= j < s.len() ==> s[j] != c,
    ensures
        index_of(s, c) == -1,
    decreases s.len(),
{
    if s.len() > 0 {
        assert forall|j: int| 0 <= j < s.len() - 1 implies s.drop_first()[j] != c by {
            assert(s.drop_first()[j] == s[j + 1]);
        }
        lemma_index_of_none(s.drop_first(), c);
    }
}

/// A line with a trailing carriage return removed.
pub open spec fn strip_cr(l: Seq<char>) -> Seq<char> {
    if l.len() > 0 && l.last() == '\r' {
        l.drop_last()
    } else {
        l
    }
}

/// The lines of `s`, as `str::lines` yields them: split at `\n`, a `\r` before a
/// `\n` dropped, and no empty line after a final `\n`.
pub open spec fn lines(s: Seq<char>) -> Seq<Seq<char>>
    decreases s.len(),
{
    let k = index_of(s, '\n');
    if s.len() == 0 {
        seq![]
    } else if k < 0 {
        seq![s]
    } else {
        proof {
            lemma_index_of(s, '\n');
        }
        seq![strip_cr(s.take(k))] + lines(s.skip(k + 1))
    }
}

fn strip_cr_exec(l: Vec<char>) -> (r: Vec<char>)
    ensures
        r@ == strip_cr(l@),
{
    let mut l = l;
    if l.len() > 0 && l[l.len() - 1] == '\r' {
        l.pop();
    }
    l
}

/// `str::lines`, on chars.
pub fn lines_of(v: &[char]) -> (r: Vec<Vec<char>>)
    ensures
        seqs_of(r@) == lines(v@),
{
    let len = v.len();
    let mut r: Vec<Vec<char>> = Vec::new();
    let mut start: usize = 0;
    let mut i: usize = 0;
    assert(v@.skip(0) =~= v@);
    while i < len
        invariant
            len == v@.len(),
            start <= i <= len,
            forall|j: int| start <= j < i ==> v@[j] != '\n',
            lines(v@) == seqs_of(r@) + lines(v@.skip(start as int)),
        decreases len - i,
    {
        if v[i] == '\n' {
            let line = slice_range(v, start, i);
            let ghost t = v@.skip(start as int);
            proof {
                assert forall|j: int| 0 <= j < i - start implies t[j] != '\n' by {
                    assert(t[j] == v@[start + j]);
                }
                lemma_index_of_at(t, '\n', i - start);
                assert(t.take(i - start) =~= v@.subrange(start as int, i as int));
                assert(t.skip(i - start + 1) =~= v@.skip(i + 1));
            }
            let line = strip_cr_exec(line);
            let ghost before = seqs_of(r@);
            r.push(line);
            proof {
                assert(seqs_of(r@) =~= before.push(line@));
                assert(lines(t) == seq![line@] + lines(v@.skip(i + 1)));
                assert(before + lines(t) =~= seqs_of(r@) + lines(v@.skip(i + 1)));
            }
            start = i + 1;
        }
        i = i + 1;
    }
    let ghost t = v@.skip(start as int);
    proof {
        assert forall|j: int| 0 <= j < t.len() implies t[j] != '\n' by {
            assert(t[j] == v@[start + j]);
        }
        lemma_index_of_none(t, '\n');
    }
    if start < len {
        let last = slice_range(v, start, len);
        let ghost before = seqs_of(r@);
        r.push(last);
        proof {
            assert(last@ =~= t);
            assert(seqs_of(r@) =~= before + lines(t));
        }
    } else {
        assert(seqs_of(r@) =~= seqs_of(r@) + lines(t));
    }
    r
}

/// Index of the first whitespace char in `s`, or -1.
pub open spec fn index_of_ws(s: Seq<char>) -> int
    decreases s.len(),
{
    if s.len() == 0 {
        -1
    } else if is_ws(s[0]) {
        0
    } else {
        let k = index_of_ws(s.drop_first());
        if k < 0 {
            -1
        } else {
            k + 1
        }
    }
}

pub proof fn lemma_index_of_ws_at(s: Seq<char>, k: int)
    requires
        0 <= k <= s.len(),
        k < s.len() ==> is_ws(s[k]),
        forall|j: int| 0 <= j < k ==> !is_ws(s[j]),
    ensures
        index_of_ws(s) == (if k < s.len() { k } else { -1 }),
    decreases s.len(),
{
    if s.len() > 0 && k > 0 {
        assert forall|j: int| 0 <= j < k - 1 implies !is_ws(s.drop_first()[j]) by {
            assert(s.drop_first()[j] == s[j + 1]);
        }
        if k < s.len() {
            assert(s.drop_first()[k - 1] == s[k]);
        }
        lemma_index_of_ws_at(s.drop_first(), k - 1);
    }
}

pub proof fn lemma_trim_start_len(s: Seq<char>)
    ensures
        trim_start(s).len() <= s.len(),
        trim_start(s).len() > 0 ==> !is_ws(trim_start(s)[0]),
        trim_start(s) == s.skip(s.len() - trim_start(s).len()),
    decreases s.len(),
{
    if s.len() > 0 && is_ws(s[0]) {
        lemma_trim_start_len(s.drop_first());
        assert(s.drop_first().skip(s.len() - 1 - trim_start(s).len()) =~= s.skip(
            s.len() - trim_start(s).len(),
        ));
    } else {
        assert(s.skip(0) =~= s);
    }
}

/// The whitespace-separated words of `s`, as `str::split_whitespace` yields them.
pub open spec fn words(s: Seq<char>) -> Seq<Seq<char>>
    decreases s.len(),
{
    let t = trim_start(s);
    let k = index_of_ws(t);
    proof {
        lemma_trim_start_len(s);
        lemma_index_of_ws_bounds(t);
    }
    if t.len() == 0 {
        seq![]
    } else if k < 0 {
        seq![t]
    } else if k == 0 {
        seq![]
    } else {
        seq![t.take(k)] + words(t.skip(k))
    }
}

pub proof fn lemma_words_skip_ws(s: Seq<char>)
    requires
        s.len() > 0,
        is_ws(s[0]),
    ensures
        words(s) == words(s.drop_first()),
{
    assert(trim_start(s) == trim_start(s.drop_first()));
}

pub proof fn lemma_index_of_ws_bounds(s: Seq<char>)
    ensures
        -1 <= index_of_ws(s) < s.len(),
        index_of_ws(s) >= 0 ==> is_ws(s[index_of_ws(s)]),
    decreases s.len(),
{
    if s.len() > 0 && !is_ws(s[0]) {
        lemma_index_of_ws_bounds(s.drop_first());
    }
}

/// `str::split_whitespace`, on chars.
pub fn words_of(v: &[char]) -> (r: Vec<Vec<char>>)
    ensures
        seqs_of(r@) == words(v@),
{
    let len = v.len();
    let mut r: Vec<Vec<char>> = Vec::new();
    let mut i: usize = 0;
    assert(v@.skip(0) =~= v@);
    while i < len
        invariant
            len == v@.len(),
            i <= len,
            words(v@) == seqs_of(r@) + words(v@.skip(i as int)),
        decreases len - i,
    {
        if is_whitespace(v[i]) {
            proof {
                lemma_words_skip_ws(v@.skip(i as int));
                assert(v@.skip(i as int).drop_first() =~= v@.skip(i + 1));
            }
            i = i + 1;
        } else {
            let start = i;
            while i < len && !is_whitespace(v[i])
                invariant
                    len == v@.len(),
                    start <= i <= len,
                    forall|j: int| start <= j < i ==> !is_ws(v@[j]),
                decreases len - i,
            {
                i = i + 1;
            }
            let word = slice_range(v, start, i);
            let ghost t = v@.skip(start as int);
            proof {
                assert(!is_ws(t[0]));
                assert(trim_start(t) == t);
                assert forall|j: int| 0 <= j < i - start implies !is_ws(t[j]) by {
                    assert(t[j] == v@[start + j]);
                }
                if i < len {
                    assert(t[i - start] == v@[i as int]);
                }
                lemma_index_of_ws_at(t, i - start);
                assert(t.take(i - start) =~= word@);
                assert(t.skip(i - start) =~= v@.skip(i as int));
                if i == len {
                    assert(v@.skip(i as int) =~= Seq::<char>::empty());
                    assert(trim_start(Seq::<char>::empty()) =~= Seq::<char>::empty());
                    assert(words(v@.skip(i as int)) =~= Seq::<Seq<char>>::empty());
                    assert(t =~= word@);
                }
                assert(words(t) =~= seq![word@] + words(v@.skip(i as int)));
            }
            let ghost before = seqs_of(r@);
            r.push(word);
            proof {
                assert(seqs_of(r@) =~= before.push(word@));
                assert(before + words(t) =~= seqs_of(r@) + words(v@.skip(i as int)));
            }
        }
    }
    proof {
        assert(v@.skip(len as int) =~= Seq::<char>::empty());
        assert(trim_start(Seq::<char>::empty()) =~= Seq::<char>::empty());
        assert(seqs_of(r@) + words(v@.skip(len as int)) =~= seqs_of(r@));
    }
    r
}


/// The marker appended by `truncate`.
pub open spec fn truncation_marker() -> Seq<char> {
    "\n...[truncated]..."@
}

/// The first `limit` bytes of `input`, followed by a truncation marker when
/// anything was cut off. `limit` must fall on a char boundary when the input is
/// longer (the byte slice would panic otherwise).
pub fn truncate(input: &str, limit: usize) -> (r: String)
    requires
        byte_len(input@) <= limit || is_char_boundary(encode_utf8(input@), limit as int),
    ensures
        byte_len(input@) <= limit ==> r@ == input@,
        byte_len(input@) > limit ==> r@ == decode_utf8(encode_utf8(input@).take(limit as int))
            + truncation_marker(),
{
    if input.as_bytes().len() <= limit {
        return input.to_owned();
    }
    let (head, _) = input.split_at(limit);
    proof {
        assert(encode_utf8(input@).take(limit as int) =~= encode_utf8(input@).subrange(
            0,
            limit as int,
        ));
        assert(decode_utf8(encode_utf8(head@)) == head@);
    }
    let mut r = head.to_owned();
    push_str(&mut r, "\n...[truncated]...");
    r
}

/// Where `truncate_string` cuts: `max_len - 3`, or 0 when `max_len < 3`.
pub open spec fn ellipsis_cut(max_len: nat) -> int {
    if max_len >= 3 {
        max_len - 3
    } else {
        0
    }
}

/// The cut falls on a char boundary, or nothing is cut at all.
pub open spec fn ellipsis_cut_ok(s: Seq<char>, max_len: nat) -> bool {
    byte_len(s) <= max_len || is_char_boundary(encode_utf8(s), ellipsis_cut(max_len))
}

/// `s` when it is at most `max_len` bytes long; otherwise its first
/// `max_len - 3` bytes (0 when `max_len < 3`) followed by `...`.
pub open spec fn ellipsized(s: Seq<char>, max_len: nat) -> Seq<char> {
    if byte_len(s) <= max_len {
        s
    } else {
        decode_utf8(encode_utf8(s).take(ellipsis_cut(max_len))) + "..."@
    }
}

/// Shortens `s` to fit `max_len` bytes, marking the cut with `...`.
pub fn truncate_string(s: &str, max_len: usize) -> (r: String)
    requires
        ellipsis_cut_ok(s@, max_len as nat),
    ensures
        r@ == ellipsized(s@, max_len as nat),
{
    if s.as_bytes().len() <= max_len {
        return s.to_owned();
    }
    let cut = max_len.saturating_sub(3);
    let (head, _) = s.split_at(cut);
    proof {
        assert(encode_utf8(s@).take(cut as int) =~= encode_utf8(s@).subrange(0, cut as int));
        assert(decode_utf8(encode_utf8(head@)) == head@);
    }
    let mut r = head.to_owned();
    push_str(&mut r, "...");
    r
}

/// Once `max_len` leaves room for the ellipsis, what `truncate_string`
/// returns fits in `max_len` bytes.
pub proof fn lemma_ellipsized_fits(s: Seq<char>, max_len: nat)
    requires
        ellipsis_cut_ok(s, max_len),
        max_len >= 3,
    ensures
        byte_len(ellipsized(s, max_len)) <= max_len,
{
    if byte_len(s) > max_len {
        let b = encode_utf8(s);
        let k = ellipsis_cut(max_len);
        assert(b.take(k) =~= b.subrange(0, k));
        assert(valid_utf8(b.subrange(0, k)));
        let head = decode_utf8(b.take(k));
        assert(encode_utf8(head) == b.take(k));
        lemma_encode_concat(head, "..."@);
        reveal_strlit("...");
        assert(encode_utf8("..."@).len() == 3) by {
            let d = "..."@;
            assert(d =~= seq!['.', '.', '.']);
            let d1 = d.drop_first();
            let d2 = d1.drop_first();
            let d3 = d2.drop_first();
            assert(d3.len() == 0);
            assert(encode_utf8(d3).len() == 0);
            assert(d2[0] == '.');
            assert(has_width_1_encoding('.' as u32));
            assert(encode_scalar(d2[0] as u32).len() == 1);
            assert(encode_utf8(d2).len() == 1);
            assert(encode_utf8(d1).len() == 2);
            assert(encode_utf8(d).len() == 3);
        }
    }
}

/// The same shortening as `truncate_string`.
pub fn truncate_str(s: &str, max_len: usize) -> (r: String)
    requires
        ellipsis_cut_ok(s@, max_len as nat),
    ensures
        r@ == ellipsized(s@, max_len as nat),
{
    truncate_string(s, max_len)
}

/// `s` when it is at most `n` bytes long; otherwise its first `n` bytes
/// followed by `...`.
pub open spec fn preview(s: Seq<char>, n: nat) -> Seq<char> {
    if byte_len(s) <= n {
        s
    } else {
        decode_utf8(encode_utf8(s).take(n as int)) + "..."@
    }
}

/// `s` cut to `n` bytes with `...` appended when it is longer. `n` must
/// fall on a char boundary when the text is longer (the byte slice would
/// panic otherwise).
pub fn cut_preview(s: &str, n: usize) -> (r: String)
    requires
        byte_len(s@) <= n || is_char_boundary(encode_utf8(s@), n as int),
    ensures
        r@ == preview(s@, n as nat),
{
    if s.as_bytes().len() <= n {
        return s.to_owned();
    }
    let (head, _) = s.split_at(n);
    proof {
        assert(encode_utf8(s@).take(n as int) =~= encode_utf8(s@).subrange(0, n as int));
        assert(decode_utf8(encode_utf8(head@)) == head@);
    }
    let mut r = head.to_owned();
    push_str(&mut r, "...");
    r
}

/// The parts joined with `sep` between consecutive parts, as `join` does.
pub open spec fn join(parts: Seq<Seq<char>>, sep: Seq<char>) -> Seq<char>
    decreases parts.len(),
{
    if parts.len() == 0 {
        seq![]
    } else if parts.len() == 1 {
        parts[0]
    } else {
        join(parts.drop_last(), sep) + sep + parts.last()
    }
}

/// Joins the strings with `sep`.
pub fn join_strings(parts: &Vec<String>, sep: &str) -> (r: String)
    ensures
        r@ == join(parts@.map_values(|p: String| p@), sep@),
{
    let ghost views = parts@.map_values(|p: String| p@);
    let mut r = String::new();
    let mut i: usize = 0;
    while i < parts.len()
        invariant
            i <= parts@.len(),
            views == parts@.map_values(|p: String| p@),
            r@ == join(views.take(i as int), sep@),
        decreases parts@.len() - i,
    {
        proof {
            assert(views.take(i + 1).drop_last() =~= views.take(i as int));
            assert(views.take(i + 1).last() == parts@[i as int]@);
        }
        if i > 0 {
            push_str(&mut r, sep);
        } else {
            assert(r@ =~= Seq::<char>::empty());
        }
        push_str(&mut r, parts[i].as_str());
        proof {
            if i == 0 {
                assert(views.take(1) =~= seq![parts@[0]@]);
                assert(r@ =~= parts@[0]@);
            }
        }
        i = i + 1;
    }
    assert(views.take(parts@.len() as int) =~= views);
    r
}

/// `s` with every non-overlapping occurrence of `p`, taken from the left,
/// replaced by `rep`, as `str::replace` computes it (for a non-empty `p`).
pub open spec fn replace_all(s: Seq<char>, p: Seq<char>, rep: Seq<char>) -> Seq<char>
    decreases s.len(),
{
    if p.len() == 0 || s.len() < p.len() {
        s
    } else if s.take(p.len() as int) == p {
        rep + replace_all(s.skip(p.len() as int), p, rep)
    } else {
        seq![s[0]] + replace_all(s.drop_first(), p, rep)
    }
}

/// `str::replace` with a non-empty pattern, on chars.
pub fn replace_chars(s: &[char], p: &[char], rep: &[char]) -> (r: Vec<char>)
    requires
        p@.len() > 0,
    ensures
        r@ == replace_all(s@, p@, rep@),
{
    let len = s.len();
    let mut r: Vec<char> = Vec::new();
    let mut i: usize = 0;
    assert(s@.skip(0) =~= s@);
    while i < len
        invariant
            len == s@.len(),
            i <= len,
            p@.len() > 0,
            replace_all(s@, p@, rep@) == r@ + replace_all(s@.skip(i as int), p@, rep@),
        decreases len - i,
    {
        let ghost t = s@.skip(i as int);
        if matches_at(s, p, i) {
            proof {
                assert(t.take(p@.len() as int) =~= s@.subrange(i as int, i + p@.len()));
                assert(t.skip(p@.len() as int) =~= s@.skip(i + p@.len()));
            }
            let ghost before = r@;
            let mut k: usize = 0;
            while k < rep.len()
                invariant
                    k <= rep@.len(),
                    r@ == before + rep@.take(k as int),
                decreases rep@.len() - k,
            {
                r.push(rep[k]);
                proof {
                    assert(rep@.take(k + 1) =~= rep@.take(k as int).push(rep@[k as int]));
                }
                k = k + 1;
            }
            proof {
                assert(rep@.take(rep@.len() as int) =~= rep@);
                assert(before + (rep@ + replace_all(t.skip(p@.len() as int), p@, rep@)) =~= r@
                    + replace_all(s@.skip(i + p@.len()), p@, rep@));
            }
            i = i + p.len();
        } else {
            proof {
                if t.len() >= p@.len() {
                    assert(t.take(p@.len() as int) =~= s@.subrange(i as int, i + p@.len()));
                }
                assert(t.drop_first() =~= s@.skip(i + 1));
                assert(t[0] == s@[i as int]);
            }
            let ghost before = r@;
            r.push(s[i]);
            proof {
                assert(before + (seq![s@[i as int]] + replace_all(t.drop_first(), p@, rep@)) =~= r@
                    + replace_all(s@.skip(i + 1), p@, rep@));
                if t.len() < p@.len() {
                    // the tail is copied unchanged one char at a time
                    assert(replace_all(t, p@, rep@) == t);
                    assert(replace_all(t.drop_first(), p@, rep@) == t.drop_first());
                    assert(t =~= seq![t[0]] + t.drop_first());
                }
            }
            i = i + 1;
        }
    }
    assert(s@.skip(len as int) =~= Seq::<char>::empty());
    assert(r@ + Seq::<char>::empty() =~= r@);
    r
}

/// `a` comes before or equals `b` in lexicographic order of code points,
/// the order of `str`'s `Ord`.
pub open spec fn lex_le(a: Seq<char>, b: Seq<char>) -> bool
    decreases a.len(),
{
    if a.len() == 0 {
        true
    } else if b.len() == 0 {
        false
    } else if a[0] != b[0] {
        (a[0] as u32) < (b[0] as u32)
    } else {
        lex_le(a.drop_first(), b.drop_first())
    }
}

proof fn lemma_lex_reflexive(a: Seq<char>)
    ensures
        lex_le(a, a),
    decreases a.len(),
{
    if a.len() > 0 {
        lemma_lex_reflexive(a.drop_first());
    }
}

proof fn lemma_lex_antisymmetric(a: Seq<char>, b: Seq<char>)
    requires
        lex_le(a, b),
        lex_le(b, a),
    ensures
        a == b,
    decreases a.len(),
{
    if a.len() > 0 && b.len() > 0 {
        if a[0] == b[0] {
            lemma_lex_antisymmetric(a.drop_first(), b.drop_first());
            assert(a =~= seq![a[0]] + a.drop_first());
            assert(b =~= seq![b[0]] + b.drop_first());
        } else {
            vstd::utf8::char_u32_cast(a[0], a[0] as u32);
            vstd::utf8::char_u32_cast(b[0], b[0] as u32);
        }
    }
}

proof fn lemma_lex_transitive(a: Seq<char>, b: Seq<char>, c: Seq<char>)
    requires
        lex_le(a, b),
        lex_le(b, c),
    ensures
        lex_le(a, c),
    decreases a.len(),
{
    if a.len() > 0 && b.len() > 0 && c.len() > 0 {
        if a[0] == b[0] && b[0] == c[0] {
            lemma_lex_transitive(a.drop_first(), b.drop_first(), c.drop_first());
        } else {
            vstd::utf8::char_u32_cast(a[0], a[0] as u32);
            vstd::utf8::char_u32_cast(b[0], b[0] as u32);
            vstd::utf8::char_u32_cast(c[0], c[0] as u32);
        }
    }
}

proof fn lemma_lex_total(a: Seq<char>, b: Seq<char>)
    ensures
        lex_le(a, b) || lex_le(b, a),
    decreases a.len(),
{
    if a.len() > 0 && b.len() > 0 {
        if a[0] == b[0] {
            lemma_lex_total(a.drop_first(), b.drop_first());
        } else {
            vstd::utf8::char_u32_cast(a[0], a[0] as u32);
            vstd::utf8::char_u32_cast(b[0], b[0] as u32);
        }
    }
}

/// Lexicographic order is a total order.
pub proof fn lemma_lex_total_ordering()
    ensures
        vstd::relations::total_ordering(|a: Seq<char>, b: Seq<char>| lex_le(a, b)),
{
    let r = |a: Seq<char>, b: Seq<char>| lex_le(a, b);
    assert forall|x: Seq<char>| #[trigger] r(x, x) by {
        lemma_lex_reflexive(x);
    }
    assert forall|x: Seq<char>, y: Seq<char>| #[trigger] r(x, y) && #[trigger] r(y, x) implies x
        == y by {
        lemma_lex_antisymmetric(x, y);
    }
    assert forall|x: Seq<char>, y: Seq<char>, z: Seq<char>| #[trigger] r(x, y) && #[trigger] r(
        y,
        z,
    ) implies r(x, z) by {
        lemma_lex_transitive(x, y, z);
    }
    assert forall|x: Seq<char>, y: Seq<char>| #[trigger] r(x, y) || #[trigger] r(y, x) by {
        lemma_lex_total(x, y);
    }
}

/// Whether `a` comes before or equals `b` in lexicographic order.
pub fn chars_le(a: &[char], b: &[char]) -> (r: bool)
    ensures
        r == lex_le(a@, b@),
{
    let mut i: usize = 0;
    assert(a@.skip(0) =~= a@);
    assert(b@.skip(0) =~= b@);
    while i < a.len() && i < b.len() && a[i] == b[i]
        invariant
            i <= a@.len(),
            i <= b@.len(),
            lex_le(a@, b@) == lex_le(a@.skip(i as int), b@.skip(i as int)),
        decreases a@.len() - i,
    {
        assert(a@.skip(i as int).drop_first() =~= a@.skip(i + 1));
        assert(b@.skip(i as int).drop_first() =~= b@.skip(i + 1));
        i = i + 1;
    }
    if i == a.len() {
        true
    } else if i == b.len() {
        false
    } else {
        assert(a@.skip(i as int)[0] == a@[i as int]);
        assert(b@.skip(i as int)[0] == b@[i as int]);
        (a[i] as u32) < (b[i] as u32)
    }
}

/// The strings sorted in lexicographic order, as `sort` orders `String`s.
pub fn sort_strings(v: Vec<String>) -> (r: Vec<String>)
    ensures
        r@.map_values(|s: String| s@) == v@.map_values(|s: String| s@).sort_by(
            |a: Seq<char>, b: Seq<char>| lex_le(a, b),
        ),
{
    let ghost input = v@.map_values(|s: String| s@);
    let ghost leq = |a: Seq<char>, b: Seq<char>| lex_le(a, b);
    proof {
        lemma_lex_total_ordering();
    }
    let mut out: Vec<String> = Vec::new();
    let mut keys: Vec<Vec<char>> = Vec::new();
    let mut i: usize = 0;
    assert(out@.map_values(|s: String| s@) =~= input.take(0));
    while i < v.len()
        invariant
            i <= v@.len(),
            input == v@.map_values(|s: String| s@),
            leq == (|a: Seq<char>, b: Seq<char>| lex_le(a, b)),
            keys@.len() == out@.len(),
            forall|k: int| 0 <= k < keys@.len() ==> (#[trigger] keys@[k])@ == out@[k]@,
            vstd::relations::sorted_by(out@.map_values(|s: String| s@), leq),
            out@.map_values(|s: String| s@).to_multiset() == input.take(i as int).to_multiset(),
            vstd::relations::total_ordering(leq),
        decreases v@.len() - i,
    {
        let x = v[i].clone();
        let xk = to_chars(x.as_str());
        let ghost before = out@.map_values(|s: String| s@);
        let mut j: usize = 0;
        while j < out.len() && chars_le(keys[j].as_slice(), xk.as_slice())
            invariant
                j <= out@.len(),
                keys@.len() == out@.len(),
                before == out@.map_values(|s: String| s@),
                forall|k: int| 0 <= k < keys@.len() ==> (#[trigger] keys@[k])@ == out@[k]@,
                forall|k: int| 0 <= k < j ==> #[trigger] lex_le(before[k], xk@),
            decreases out@.len() - j,
        {
            assert(before[j as int] == keys@[j as int]@);
            j = j + 1;
        }
        proof {
            if j < out@.len() {
                assert(before[j as int] == keys@[j as int]@);
                assert(!lex_le(before[j as int], xk@));
            }
        }
        out.insert(j, x);
        keys.insert(j, xk);
        proof {
            let after = out@.map_values(|s: String| s@);
            assert(after =~= before.insert(j as int, input[i as int]));
            vstd::seq_lib::to_multiset_insert(before, j as int, input[i as int]);
            assert(input.take(i + 1) =~= input.take(i as int).push(input[i as int]));
            vstd::seq_lib::to_multiset_build(input.take(i as int), input[i as int]);
            assert forall|p: int, q: int| 0 <= p < q < after.len() implies #[trigger] leq(
                after[p],
                after[q],
            ) by {
                let x = input[i as int];
                if q < j {
                    assert(after[p] == before[p] && after[q] == before[q]);
                } else if q == j {
                    assert(after[p] == before[p]);
                    assert(lex_le(before[p], x));
                } else if p == j {
                    assert(after[q] == before[q - 1]);
                    if j < before.len() {
                        lemma_lex_total(before[j as int], x);
                        if q - 1 > j {
                            assert(leq(before[j as int], before[q - 1]));
                            lemma_lex_transitive(x, before[j as int], before[q - 1]);
                        }
                    }
                } else if p < j {
                    assert(after[p] == before[p] && after[q] == before[q - 1]);
                } else {
                    assert(after[p] == before[p - 1] && after[q] == before[q - 1]);
                }
            }
            assert forall|k: int| 0 <= k < keys@.len() implies (#[trigger] keys@[k])@ == out@[k]@ by {
                if k < j {
                } else if k == j {
                } else {
                }
            }
        }
        i = i + 1;
    }
    proof {
        assert(input.take(v@.len() as int) =~= input);
        input.lemma_sort_by_ensures(leq);
        vstd::seq_lib::lemma_sorted_unique(
            out@.map_values(|s: String| s@),
            input.sort_by(leq),
            leq,
        );
    }
    out
}

/// Position of the first `c` in `v`, as `str::find` with a char pattern
/// locates it (counted in chars).
pub fn char_position(v: &[char], c: char) -> (r: Option<usize>)
    ensures
        match r {
            Some(k) => k == index_of(v@, c),
            None => index_of(v@, c) < 0,
        },
{
    let mut i: usize = 0;
    while i < v.len()
        invariant
            i <= v@.len(),
            forall|j: int| 0 <= j < i ==> v@[j] != c,
        decreases v.len() - i,
    {
        if v[i] == c {
            proof {
                lemma_index_of_at(v@, c, i as int);
            }
            return Some(i);
        }
        i = i + 1;
    }
    proof {
        lemma_index_of_none(v@, c);
    }
    None
}

/// `s` without its trailing `/` chars.
pub open spec fn trim_trailing_slashes(s: Seq<char>) -> Seq<char>
    decreases s.len(),
{
    if s.len() > 0 && s.last() == '/' {
        trim_trailing_slashes(s.drop_last())
    } else {
        s
    }
}

/// `s.trim_end_matches('/')`.
pub fn without_trailing_slashes(s: &str) -> (r: String)
    ensures
        r@ == trim_trailing_slashes(s@),
{
    let chars = to_chars(s);
    let mut end = chars.len();
    assert(chars@.subrange(0, end as int) =~= chars@);
    while end > 0 && chars[end - 1] == '/'
        invariant
            end <= chars@.len(),
            chars@ == s@,
            trim_trailing_slashes(s@) == trim_trailing_slashes(chars@.subrange(0, end as int)),
        decreases end,
    {
        assert(chars@.subrange(0, end as int).drop_last() =~= chars@.subrange(0, end - 1));
        end = end - 1;
    }
    let head = slice_range(chars.as_slice(), 0, end);
    string_from_chars(head.as_slice())
}

/// The pieces of `s` between the occurrences of `c`, as `str::split` with a
/// char pattern yields them (at least one piece; empty pieces kept).
pub open spec fn split_on(s: Seq<char>, c: char) -> Seq<Seq<char>>
    decreases s.len(),
{
    let k = index_of(s, c);
    if k < 0 {
        seq![s]
    } else {
        proof {
            lemma_index_of(s, c);
        }
        seq![s.take(k)] + split_on(s.skip(k + 1), c)
    }
}

/// A split has at least one piece, and at most one more than `s` has chars.
pub proof fn lemma_split_on_len(s: Seq<char>, c: char)
    ensures
        1 <= split_on(s, c).len() <= s.len() + 1,
    decreases s.len(),
{
    lemma_index_of(s, c);
    let k = index_of(s, c);
    if k >= 0 {
        lemma_split_on_len(s.skip(k + 1), c);
    }
}

/// `str::split` with a char pattern, on chars.
pub fn split_chars(v: &[char], c: char) -> (r: Vec<Vec<char>>)
    ensures
        seqs_of(r@) == split_on(v@, c),
{
    let len = v.len();
    let mut r: Vec<Vec<char>> = Vec::new();
    let mut start: usize = 0;
    let mut i: usize = 0;
    assert(v@.skip(0) =~= v@);
    while i < len
        invariant
            len == v@.len(),
            start <= i <= len,
            forall|j: int| start <= j < i ==> v@[j] != c,
            split_on(v@, c) == seqs_of(r@) + split_on(v@.skip(start as int), c),
        decreases len - i,
    {
        if v[i] == c {
            let piece = slice_range(v, start, i);
            let ghost t = v@.skip(start as int);
            proof {
                assert forall|j: int| 0 <= j < i - start implies t[j] != c by {
                    assert(t[j] == v@[start + j]);
                }
                lemma_index_of_at(t, c, i - start);
                assert(t.take(i - start) =~= v@.subrange(start as int, i as int));
                assert(t.skip(i - start + 1) =~= v@.skip(i + 1));
            }
            let ghost before = seqs_of(r@);
            r.push(piece);
            proof {
                assert(seqs_of(r@) =~= before.push(piece@));
                assert(before + split_on(t, c) =~= seqs_of(r@) + split_on(v@.skip(i + 1), c));
            }
            start = i + 1;
        }
        i = i + 1;
    }
    let ghost t = v@.skip(start as int);
    proof {
        assert forall|j: int| 0 <= j < t.len() implies t[j] != c by {
            assert(t[j] == v@[start + j]);
        }
        lemma_index_of_none(t, c);
    }
    let last = slice_range(v, start, len);
    let ghost before = seqs_of(r@);
    r.push(last);
    proof {
        assert(last@ =~= t);
        assert(seqs_of(r@) =~= before + split_on(t, c));
    }
    r
}

/// An ASCII decimal digit.
pub open spec fn is_digit(c: char) -> bool {
    '0' <= c && c <= '9'
}

/// The value of a string of decimal digits.
pub open spec fn digits_value(s: Seq<char>) -> nat
    decreases s.len(),
{
    if s.len() == 0 {
        0
    } else {
        digits_value(s.drop_last()) * 10 + ((s.last() as u32) - ('0' as u32)) as nat
    }
}

/// What `str::parse` makes of `s` for an unsigned integer type, before the
/// range check: an optional `+`, then one or more ASCII digits.
pub open spec fn unsigned_value(s: Seq<char>) -> Option<nat> {
    let d = unsigned_digits(s);
    if d.len() > 0 && all_digits(d) {
        Some(digits_value(d))
    } else {
        None
    }
}

/// `s` without its leading `+`, if it has one.
pub open spec fn unsigned_digits(s: Seq<char>) -> Seq<char> {
    if s.len() > 0 && s[0] == '+' {
        s.drop_first()
    } else {
        s
    }
}

/// Every char of `d` is an ASCII digit.
pub open spec fn all_digits(d: Seq<char>) -> bool {
    forall|i: int| 0 <= i < d.len() ==> is_digit(#[trigger] d[i])
}

/// `str::parse::<u64>` (and the narrower unsigned types, with `max` their
/// largest value): the value when it parses and fits.
pub open spec fn parse_unsigned_spec(s: Seq<char>, max: u64) -> Option<u64> {
    match unsigned_value(s) {
        Some(v) => if v <= max {
            Some(v as u64)
        } else {
            None
        },
        None => None,
    }
}

proof fn lemma_digits_value_grows(s: Seq<char>, k: int)
    requires
        0 <= k <= s.len(),
        all_digits(s),
    ensures
        digits_value(s.take(k)) <= digits_value(s),
    decreases s.len() - k,
{
    if k < s.len() {
        lemma_digits_value_grows(s, k + 1);
        assert(s.take(k + 1).drop_last() =~= s.take(k));
    } else {
        assert(s.take(k) =~= s);
    }
}

/// Parses an unsigned decimal integer no larger than `max`, as `str::parse`
/// does for unsigned types.
pub fn parse_unsigned(v: &[char], max: u64) -> (r: Option<u64>)
    ensures
        r == parse_unsigned_spec(v@, max),
{
    let start: usize = if v.len() > 0 && v[0] == '+' {
        1
    } else {
        0
    };
    let ghost d = v@.skip(start as int);
    proof {
        if start == 1 {
            assert(d =~= v@.drop_first());
        } else {
            assert(d =~= v@);
        }
    }
    if start >= v.len() {
        return None;
    }
    let mut value: u64 = 0;
    let mut i: usize = start;
    while i < v.len()
        invariant
            start <= i <= v@.len(),
            start < v@.len(),
            d == v@.skip(start as int),
            d == unsigned_digits(v@),
            d.len() > 0,
            forall|j: int| start <= j < i ==> is_digit(#[trigger] v@[j]),
            value == digits_value(d.take(i - start)),
            value <= max,
        decreases v@.len() - i,
    {
        let c = v[i];
        if !('0' <= c && c <= '9') {
            proof {
                assert(d[i - start] == c);
                assert(!is_digit(d[i - start]));
                assert(!all_digits(d));
            }
            return None;
        }
        let digit = (c as u32 - '0' as u32) as u64;
        proof {
            assert(d.take(i - start + 1).drop_last() =~= d.take(i - start));
            assert(d.take(i - start + 1).last() == c);
        }
        if (value as u128) * 10 + (digit as u128) > (max as u128) {
            proof {
                if all_digits(d) {
                    lemma_digits_value_grows(d, i - start + 1);
                    assert(digits_value(d.take(i - start + 1)) == value * 10 + digit);
                }
            }
            return None;
        }
        value = value * 10 + digit;
        i = i + 1;
    }
    proof {
        assert(d.take(i - start) =~= d);
        assert forall|j: int| 0 <= j < d.len() implies is_digit(#[trigger] d[j]) by {
            assert(d[j] == v@[start + j]);
        }
        assert(all_digits(d));
    }
    Some(value)
}

} // verus!
