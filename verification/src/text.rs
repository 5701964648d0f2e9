//! Character-level text operations used by every parser: trimming, searching,
//! splitting into lines, and measuring strings in UTF-8 bytes.
//!
//! Strings are modelled by their views, `Seq<char>`. Lengths that the parsers
//! compare against limits are UTF-8 byte lengths (`utf8_len`), and cuts at a
//! byte offset keep whole characters only (`byte_prefix`).
use vstd::prelude::*;
use crate::foreign::{lowercase_of, uppercase_of, to_lowercase, to_uppercase};

verus! {

// ---------------------------------------------------------------------------
// Character classes
// ---------------------------------------------------------------------------

/// White space as Unicode's `White_Space` property defines it.
pub open spec fn is_ws(c: char) -> bool {
    ||| c == '\t' || c == '\n' || c == '\u{0B}' || c == '\u{0C}' || c == '\r' || c == ' '
    ||| c == '\u{85}' || c == '\u{A0}' || c == '\u{1680}'
    ||| ('\u{2000}' <= c && c <= '\u{200A}')
    ||| c == '\u{2028}' || c == '\u{2029}' || c == '\u{202F}' || c == '\u{205F}' || c == '\u{3000}'
}

pub fn char_is_ws(c: char) -> (b: bool)
    ensures
        b == is_ws(c),
{
    c == '\t' || c == '\n' || c == '\u{0B}' || c == '\u{0C}' || c == '\r' || c == ' '
        || c == '\u{85}' || c == '\u{A0}' || c == '\u{1680}' || ('\u{2000}' <= c && c <= '\u{200A}')
        || c == '\u{2028}' || c == '\u{2029}' || c == '\u{202F}' || c == '\u{205F}'
        || c == '\u{3000}'
}

pub open spec fn is_ascii_digit(c: char) -> bool {
    '0' <= c && c <= '9'
}

pub open spec fn is_ascii_upper(c: char) -> bool {
    'A' <= c && c <= 'Z'
}

// ---------------------------------------------------------------------------
// UTF-8 lengths
// ---------------------------------------------------------------------------

/// Number of bytes UTF-8 uses for one character.
pub open spec fn utf8_width(c: char) -> nat {
    if (c as u32) < 0x80 {
        1
    } else if (c as u32) < 0x800 {
        2
    } else if (c as u32) < 0x10000 {
        3
    } else {
        4
    }
}

/// Number of bytes UTF-8 uses for a string.
pub open spec fn utf8_len(s: Seq<char>) -> nat
    decreases s.len(),
{
    if s.len() == 0 {
        0
    } else {
        utf8_width(s[0]) + utf8_len(s.drop_first())
    }
}

/// The longest prefix of `s` whose UTF-8 encoding fits in `b` bytes: the cut at byte
/// `b`, moved back to the previous character boundary if `b` falls inside a character.
pub open spec fn byte_prefix(s: Seq<char>, b: int) -> Seq<char>
    decreases s.len(),
{
    if s.len() == 0 || b < utf8_width(s[0]) {
        Seq::empty()
    } else {
        seq![s[0]] + byte_prefix(s.drop_first(), b - utf8_width(s[0]))
    }
}

/// What follows the first `b` bytes of `s` (cut at a character boundary as in `byte_prefix`).
/// Byte offset `b` falls between two characters of `s` (or at its ends), where
/// `str` slicing may cut.
pub open spec fn is_char_boundary(s: Seq<char>, b: int) -> bool {
    0 <= b <= utf8_len(s) && utf8_len(byte_prefix(s, b)) == b
}

pub open spec fn byte_suffix(s: Seq<char>, b: int) -> Seq<char> {
    s.skip(byte_prefix(s, b).len() as int)
}

pub fn char_width(c: char) -> (w: usize)
    ensures
        w == utf8_width(c),
{
    if (c as u32) < 0x80 {
        1
    } else if (c as u32) < 0x800 {
        2
    } else if (c as u32) < 0x10000 {
        3
    } else {
        4
    }
}

pub proof fn lemma_byte_prefix_is_prefix(s: Seq<char>, b: int)
    ensures
        byte_prefix(s, b).len() <= s.len(),
        byte_prefix(s, b) =~= s.take(byte_prefix(s, b).len() as int),
    decreases s.len(),
{
    if s.len() == 0 || b < utf8_width(s[0]) {
    } else {
        lemma_byte_prefix_is_prefix(s.drop_first(), b - utf8_width(s[0]));
    }
}

/// Bytes of `s`, computed by walking its characters.
pub fn utf8_length(s: &Vec<char>) -> (n: usize)
    requires
        utf8_len(s@) <= usize::MAX,
    ensures
        n == utf8_len(s@),
{
    let mut n: usize = 0;
    let mut i: usize = s.len();
    while i > 0
        invariant
            i <= s.len(),
            n == utf8_len(s@.skip(i as int)),
            utf8_len(s@) <= usize::MAX,
        decreases i,
    {
        i = i - 1;
        assert(s@.skip(i as int).drop_first() =~= s@.skip(i as int + 1));
        proof {
            lemma_utf8_len_skip_bound(s@, i as int);
        }
        n = n + char_width(s[i]);
    }
    assert(s@.skip(0) =~= s@);
    n
}

pub proof fn lemma_utf8_len_skip_bound(s: Seq<char>, i: int)
    requires
        0 <= i <= s.len(),
    ensures
        utf8_len(s.skip(i)) <= utf8_len(s),
    decreases i,
{
    if i > 0 {
        lemma_utf8_len_skip_bound(s.drop_first(), i - 1);
        assert(s.drop_first().skip(i - 1) =~= s.skip(i));
    } else {
        assert(s.skip(0) =~= s);
    }
}

/// No character takes more than four bytes.
pub proof fn lemma_utf8_len_le(s: Seq<char>)
    ensures
        utf8_len(s) <= 4 * s.len(),
    decreases s.len(),
{
    if s.len() > 0 {
        lemma_utf8_len_le(s.drop_first());
    }
}

/// The characters of `s` that fit in its first `b` UTF-8 bytes (see `byte_prefix`).
pub fn take_bytes(s: &Vec<char>, b: usize) -> (res: Vec<char>)
    ensures
        res@ == byte_prefix(s@, b as int),
{
    let mut res: Vec<char> = Vec::new();
    let mut i: usize = 0;
    let mut left: usize = b;
    assert(s@.skip(0) =~= s@);
    assert(res@ + byte_prefix(s@, b as int) =~= byte_prefix(s@, b as int));
    while i < s.len() && char_width(s[i]) <= left
        invariant
            i <= s.len(),
            left <= b,
            byte_prefix(s@, b as int) == res@ + byte_prefix(s@.skip(i as int), left as int),
        decreases s.len() - i,
    {
        let w = char_width(s[i]);
        let ghost t = s@.skip(i as int);
        assert(t.drop_first() =~= s@.skip(i as int + 1));
        res.push(s[i]);
        left = left - w;
        i = i + 1;
        assert(byte_prefix(s@, b as int) =~= res@ + byte_prefix(s@.skip(i as int), left as int));
    }
    assert(byte_prefix(s@.skip(i as int), left as int) =~= Seq::<char>::empty());
    assert(res@ =~= res@ + Seq::<char>::empty());
    res
}

/// What follows the first `b` UTF-8 bytes of `s` (see `byte_suffix`).
pub fn skip_bytes(s: &Vec<char>, b: usize) -> (res: Vec<char>)
    ensures
        res@ == byte_suffix(s@, b as int),
{
    let p = take_bytes(s, b);
    proof {
        lemma_byte_prefix_is_prefix(s@, b as int);
    }
    slice_from(s, p.len())
}

/// `min(utf8_len(s), cap)`, computed without overflow.
pub fn utf8_len_capped(s: &Vec<char>, cap: usize) -> (n: usize)
    ensures
        n == if utf8_len(s@) < cap { utf8_len(s@) } else { cap as nat },
{
    let mut n: usize = 0;
    let mut i: usize = s.len();
    assert(s@.skip(s.len() as int) =~= Seq::<char>::empty());
    while i > 0
        invariant
            i <= s.len(),
            n == if utf8_len(s@.skip(i as int)) < cap { utf8_len(s@.skip(i as int)) } else { cap as nat },
        decreases i,
    {
        i = i - 1;
        assert(s@.skip(i as int).drop_first() =~= s@.skip(i as int + 1));
        let w = char_width(s[i]);
        if n < cap {
            if w >= cap - n {
                n = cap;
            } else {
                n = n + w;
            }
        }
    }
    assert(s@.skip(0) =~= s@);
    n
}

/// Whether two character sequences are equal.
pub fn eq_chars(a: &Vec<char>, b: &Vec<char>) -> (r: bool)
    ensures
        r == (a@ == b@),
{
    if a.len() != b.len() {
        return false;
    }
    let mut i: usize = 0;
    while i < a.len()
        invariant
            a.len() == b.len(),
            i <= a.len(),
            forall|j: int| 0 <= j < i ==> a@[j] == b@[j],
        decreases a.len() - i,
    {
        if a[i] != b[i] {
            return false;
        }
        i = i + 1;
    }
    assert(a@ =~= b@);
    true
}

/// Whether the characters `a` spell the string slice `b`.
pub fn eq_str(a: &Vec<char>, b: &str) -> (r: bool)
    ensures
        r == (a@ == b@),
{
    let bc = chars_of(b);
    eq_chars(a, &bc)
}

// ---------------------------------------------------------------------------
// Building and slicing
// ---------------------------------------------------------------------------

/// Appends one character to a string.
///
/// Calls `String::push`, whose documentation says that it appends the given
/// `char` to the end of the string; the contract states exactly that.
#[verifier::external_body]
pub(crate) fn push_char(s: &mut String, c: char)
    ensures
        final(s)@ == old(s)@.push(c),
{
    s.push(c);
}

/// The characters of a string slice, in order.
pub fn chars_of(s: &str) -> (res: Vec<char>)
    ensures
        res@ == s@,
{
    let mut res: Vec<char> = Vec::new();
    for c in it: s.chars()
        invariant
            res@ == it.seq().take(it.index() as int),
    {
        res.push(c);
    }
    res
}

/// A string holding exactly the given characters.
pub fn string_of(cs: &Vec<char>) -> (res: String)
    ensures
        res@ == cs@,
{
    let mut res = String::new();
    let mut i: usize = 0;
    while i < cs.len()
        invariant
            i <= cs.len(),
            res@ == cs@.take(i as int),
        decreases cs.len() - i,
    {
        push_char(&mut res, cs[i]);
        assert(cs@.take(i as int + 1) =~= cs@.take(i as int).push(cs@[i as int]));
        i = i + 1;
    }
    assert(cs@.take(cs.len() as int) =~= cs@);
    res
}

/// An owned copy of a string slice.
pub fn own(s: &str) -> (res: String)
    ensures
        res@ == s@,
{
    s.to_owned()
}

/// The characters `s[a..b]`.
pub fn slice(s: &Vec<char>, a: usize, b: usize) -> (res: Vec<char>)
    requires
        a <= b <= s.len(),
    ensures
        res@ == s@.subrange(a as int, b as int),
{
    let mut res: Vec<char> = Vec::new();
    let mut i: usize = a;
    while i < b
        invariant
            a <= i <= b <= s.len(),
            res@ == s@.subrange(a as int, i as int),
        decreases b - i,
    {
        res.push(s[i]);
        assert(s@.subrange(a as int, i as int + 1) =~= s@.subrange(a as int, i as int).push(s@[i as int]));
        i = i + 1;
    }
    res
}

/// The characters of `s` from index `a` on.
pub fn slice_from(s: &Vec<char>, a: usize) -> (res: Vec<char>)
    requires
        a <= s.len(),
    ensures
        res@ == s@.skip(a as int),
{
    let r = slice(s, a, s.len());
    assert(s@.subrange(a as int, s.len() as int) =~= s@.skip(a as int));
    r
}

/// `a` followed by `b`.
pub fn concat(a: &Vec<char>, b: &Vec<char>) -> (res: Vec<char>)
    ensures
        res@ == a@ + b@,
{
    let mut res = a.clone();
    let mut i: usize = 0;
    while i < b.len()
        invariant
            i <= b.len(),
            res@ == a@ + b@.take(i as int),
        decreases b.len() - i,
    {
        res.push(b[i]);
        assert(a@ + b@.take(i as int + 1) =~= (a@ + b@.take(i as int)).push(b@[i as int]));
        i = i + 1;
    }
    assert(b@.take(b.len() as int) =~= b@);
    res
}

/// Appends the characters of `b` to `a`.
pub fn append(a: &mut Vec<char>, b: &Vec<char>)
    ensures
        final(a)@ == old(a)@ + b@,
{
    let mut i: usize = 0;
    while i < b.len()
        invariant
            i <= b.len(),
            a@ == old(a)@ + b@.take(i as int),
        decreases b.len() - i,
    {
        a.push(b[i]);
        assert(old(a)@ + b@.take(i as int + 1) =~= (old(a)@ + b@.take(i as int)).push(b@[i as int]));
        i = i + 1;
    }
    assert(b@.take(b.len() as int) =~= b@);
}

/// Appends the characters of a string slice to `a`.
pub fn append_str(a: &mut Vec<char>, b: &str)
    ensures
        final(a)@ == old(a)@ + b@,
{
    let bc = chars_of(b);
    append(a, &bc);
}

// ---------------------------------------------------------------------------
// Trimming
// ---------------------------------------------------------------------------

pub open spec fn trim_start_seq(s: Seq<char>) -> Seq<char>
    decreases s.len(),
{
    if s.len() > 0 && is_ws(s[0]) {
        trim_start_seq(s.drop_first())
    } else {
        s
    }
}

pub open spec fn trim_end_seq(s: Seq<char>) -> Seq<char>
    decreases s.len(),
{
    if s.len() > 0 && is_ws(s.last()) {
        trim_end_seq(s.drop_last())
    } else {
        s
    }
}

/// White space removed from both ends, as `str::trim` does.
pub open spec fn trim_seq(s: Seq<char>) -> Seq<char> {
    trim_end_seq(trim_start_seq(s))
}

pub fn trim_start(s: &Vec<char>) -> (res: Vec<char>)
    ensures
        res@ == trim_start_seq(s@),
{
    let mut i: usize = 0;
    assert(s@.skip(0) =~= s@);
    while i < s.len() && char_is_ws(s[i])
        invariant
            i <= s.len(),
            trim_start_seq(s@) == trim_start_seq(s@.skip(i as int)),
        decreases s.len() - i,
    {
        assert(s@.skip(i as int).drop_first() =~= s@.skip(i as int + 1));
        i = i + 1;
    }
    slice_from(s, i)
}

pub fn trim_end(s: &Vec<char>) -> (res: Vec<char>)
    ensures
        res@ == trim_end_seq(s@),
{
    let mut j: usize = s.len();
    assert(s@.take(s.len() as int) =~= s@);
    while j > 0 && char_is_ws(s[j - 1])
        invariant
            j <= s.len(),
            trim_end_seq(s@) == trim_end_seq(s@.take(j as int)),
        decreases j,
    {
        assert(s@.take(j as int).drop_last() =~= s@.take(j as int - 1));
        j = j - 1;
    }
    assert(s@.subrange(0, j as int) =~= s@.take(j as int));
    slice(s, 0, j)
}

pub fn trim(s: &Vec<char>) -> (res: Vec<char>)
    ensures
        res@ == trim_seq(s@),
{
    let t = trim_start(s);
    trim_end(&t)
}

// ---------------------------------------------------------------------------
// Searching
// ---------------------------------------------------------------------------

/// `n` occurs in `h` at index `i`.
pub open spec fn matches_at(h: Seq<char>, n: Seq<char>, i: int) -> bool {
    0 <= i && i + n.len() <= h.len() && h.subrange(i, i + n.len()) == n
}

/// `n` occurs somewhere in `h`.
pub open spec fn seq_contains(h: Seq<char>, n: Seq<char>) -> bool {
    exists|i: int| matches_at(h, n, i)
}

/// A text that holds `a` holds every prefix of `a`.
pub proof fn lemma_contains_prefix(h: Seq<char>, a: Seq<char>, b: Seq<char>)
    requires
        b.is_prefix_of(a),
        seq_contains(h, a),
    ensures
        seq_contains(h, b),
{
    let i = choose|i: int| matches_at(h, a, i);
    assert(h.subrange(i, i + b.len()) =~= a.subrange(0, b.len() as int));
    assert(matches_at(h, b, i));
}

/// A text that starts and ends with a character other than white space is its own
/// trimmed form.
pub proof fn lemma_trim_noop(s: Seq<char>)
    requires
        s.len() > 0,
        !is_ws(s[0]),
        !is_ws(s.last()),
    ensures
        trim_seq(s) == s,
{
    assert(trim_start_seq(s) == s);
    assert(trim_end_seq(s) == s);
}

/// The index of the first occurrence of `n` in `h`.
pub open spec fn find_seq(h: Seq<char>, n: Seq<char>) -> Option<int> {
    if seq_contains(h, n) {
        Some(choose|i: int| matches_at(h, n, i) && forall|j: int| 0 <= j < i ==> !matches_at(h, n, j))
    } else {
        None
    }
}

/// Whether `n` occurs in `h` at index `i`.
pub fn match_at(h: &Vec<char>, n: &Vec<char>, i: usize) -> (b: bool)
    ensures
        b == matches_at(h@, n@, i as int),
{
    if i > h.len() || n.len() > h.len() - i {
        return false;
    }
    let mut k: usize = 0;
    while k < n.len()
        invariant
            i + n.len() <= h.len(),
            k <= n.len(),
            forall|m: int| 0 <= m < k ==> h@[i + m] == n@[m],
        decreases n.len() - k,
    {
        if h[i + k] != n[k] {
            assert(h@.subrange(i as int, i + n.len())[k as int] != n@[k as int]);
            return false;
        }
        k = k + 1;
    }
    assert(h@.subrange(i as int, i + n.len()) =~= n@);
    true
}

pub proof fn lemma_find_first(h: Seq<char>, n: Seq<char>, i: int)
    requires
        matches_at(h, n, i),
        forall|j: int| 0 <= j < i ==> !matches_at(h, n, j),
    ensures
        find_seq(h, n) == Some(i),
{
    let k = choose|k: int| matches_at(h, n, k) && forall|j: int| 0 <= j < k ==> !matches_at(h, n, j);
    assert(matches_at(h, n, k));
    if k < i {
        assert(!matches_at(h, n, k));
    } else if k > i {
        assert(!matches_at(h, n, i));
    }
}

/// The index of the first occurrence of `n` in `h`, if any.
pub fn find(h: &Vec<char>, n: &Vec<char>) -> (r: Option<usize>)
    ensures
        match r {
            Some(i) => find_seq(h@, n@) == Some(i as int) && matches_at(h@, n@, i as int),
            None => find_seq(h@, n@) is None,
        },
        r is Some <==> seq_contains(h@, n@),
{
    let mut i: usize = 0;
    while i <= h.len()
        invariant
            forall|j: int| 0 <= j < i ==> !matches_at(h@, n@, j),
        decreases h.len() + 1 - i,
    {
        if match_at(h, n, i) {
            proof {
                lemma_find_first(h@, n@, i as int);
            }
            return Some(i);
        }
        if i == h.len() {
            assert forall|j: int| !matches_at(h@, n@, j) by {
                if 0 <= j && j <= i {
                }
            }
            return None;
        }
        i = i + 1;
    }
    None
}

/// Whether `n` occurs in `h`.
pub fn contains(h: &Vec<char>, n: &Vec<char>) -> (b: bool)
    ensures
        b == seq_contains(h@, n@),
{
    find(h, n).is_some()
}

/// Whether the string literal or slice `n` occurs in `h`.
pub fn contains_str(h: &Vec<char>, n: &str) -> (b: bool)
    ensures
        b == seq_contains(h@, n@),
{
    let nc = chars_of(n);
    contains(h, &nc)
}

/// Whether the character `c` occurs in `h`.
pub fn contains_char(h: &Vec<char>, c: char) -> (b: bool)
    ensures
        b == h@.contains(c),
{
    let mut i: usize = 0;
    while i < h.len()
        invariant
            i <= h.len(),
            forall|j: int| 0 <= j < i ==> h@[j] != c,
        decreases h.len() - i,
    {
        if h[i] == c {
            return true;
        }
        i = i + 1;
    }
    false
}

/// The index of the first `c` in `s`.
pub open spec fn index_of(s: Seq<char>, c: char) -> Option<int>
    decreases s.len(),
{
    if s.len() == 0 {
        None
    } else if s[0] == c {
        Some(0)
    } else {
        match index_of(s.drop_first(), c) {
            Some(i) => Some(i + 1),
            None => None,
        }
    }
}

pub proof fn lemma_index_of(s: Seq<char>, c: char)
    ensures
        match index_of(s, c) {
            Some(i) => 0 <= i < s.len() && s[i] == c && forall|j: int| 0 <= j < i ==> s[j] != c,
            None => !s.contains(c),
        },
    decreases s.len(),
{
    if s.len() > 0 {
        lemma_index_of(s.drop_first(), c);
        if s[0] != c {
            match index_of(s.drop_first(), c) {
                Some(i) => {
                    assert forall|j: int| 0 <= j < i + 1 implies s[j] != c by {
                        if j > 0 {
                            assert(s[j] == s.drop_first()[j - 1]);
                        }
                    }
                },
                None => {
                    assert forall|j: int| 0 <= j < s.len() implies s[j] != c by {
                        if j > 0 {
                            assert(s[j] == s.drop_first()[j - 1]);
                        }
                    }
                },
            }
        }
    }
}

pub proof fn lemma_index_of_char(s: Seq<char>, c: char, i: int)
    requires
        0 <= i <= s.len(),
        forall|j: int| 0 <= j < i ==> s[j] != c,
    ensures
        i < s.len() && s[i] == c ==> index_of(s, c) == Some(i),
        i == s.len() ==> index_of(s, c) is None,
{
    lemma_index_of(s, c);
    match index_of(s, c) {
        Some(k) => {
            if i < s.len() && s[i] == c {
                if k < i {
                } else if k > i {
                }
            }
        },
        None => {},
    }
}

/// The index of the first `c` in `s`, if any.
pub fn find_char(s: &Vec<char>, c: char) -> (r: Option<usize>)
    ensures
        match r {
            Some(i) => index_of(s@, c) == Some(i as int),
            None => index_of(s@, c) is None,
        },
{
    let mut i: usize = 0;
    while i < s.len()
        invariant
            i <= s.len(),
            forall|j: int| 0 <= j < i ==> s@[j] != c,
        decreases s.len() - i,
    {
        if s[i] == c {
            proof {
                lemma_index_of_char(s@, c, i as int);
            }
            return Some(i);
        }
        i = i + 1;
    }
    proof {
        lemma_index_of_char(s@, c, i as int);
    }
    None
}

/// What precedes the first `c` in `s` (all of `s` if there is none): the first item
/// of `s.split(c)`.
pub open spec fn before_char(s: Seq<char>, c: char) -> Seq<char> {
    match index_of(s, c) {
        Some(i) => s.take(i),
        None => s,
    }
}

pub fn take_before_char(s: &Vec<char>, c: char) -> (res: Vec<char>)
    ensures
        res@ == before_char(s@, c),
{
    proof {
        lemma_index_of(s@, c);
    }
    match find_char(s, c) {
        Some(i) => {
            assert(s@.subrange(0, i as int) =~= s@.take(i as int));
            slice(s, 0, i)
        },
        None => s.clone(),
    }
}

/// The pieces of `s` between occurrences of `c`, as `str::split(c)` yields them.
pub open spec fn split_char_seq(s: Seq<char>, c: char) -> Seq<Seq<char>>
    decreases s.len(),
{
    match index_of(s, c) {
        Some(i) => if 0 <= i < s.len() {
            seq![s.take(i)] + split_char_seq(s.skip(i + 1), c)
        } else {
            seq![s]
        },
        None => seq![s],
    }
}

/// Splits `s` at every `c` (see `split_char_seq`).
pub fn split_char(s: &Vec<char>, c: char) -> (res: Vec<Vec<char>>)
    ensures
        res@.map_values(|v: Vec<char>| v@) == split_char_seq(s@, c),
{
    let mut res: Vec<Vec<char>> = Vec::new();
    let mut rest = s.clone();
    let ghost done: Seq<Seq<char>> = Seq::empty();
    assert(res@.map_values(|v: Vec<char>| v@) =~= done);
    loop
        invariant
            res@.map_values(|v: Vec<char>| v@) == done,
            split_char_seq(s@, c) == done + split_char_seq(rest@, c),
        decreases rest@.len(),
    {
        proof {
            lemma_index_of(rest@, c);
        }
        match find_char(&rest, c) {
            Some(i) => {
                let piece = slice(&rest, 0, i);
                assert(piece@ =~= rest@.take(i as int));
                let next = slice_from(&rest, i + 1);
                proof {
                    done = done.push(piece@);
                }
                res.push(piece);
                assert(res@.map_values(|v: Vec<char>| v@) =~= done);
                assert(split_char_seq(s@, c) =~= done + split_char_seq(next@, c));
                rest = next;
            },
            None => {
                proof {
                    done = done.push(rest@);
                }
                res.push(rest);
                assert(res@.map_values(|v: Vec<char>| v@) =~= done);
                assert(split_char_seq(s@, c) =~= done);
                return res;
            },
        }
    }
}

/// `s` starts with `p`.
pub fn starts_with(s: &Vec<char>, p: &Vec<char>) -> (b: bool)
    ensures
        b == p@.is_prefix_of(s@),
{
    let r = match_at(s, p, 0);
    proof {
        if r {
            assert(s@.subrange(0, p@.len() as int) =~= s@.take(p@.len() as int));
        }
        if p@.is_prefix_of(s@) {
            assert(s@.subrange(0, p@.len() as int) =~= s@.take(p@.len() as int));
        }
    }
    r
}

pub fn starts_with_str(s: &Vec<char>, p: &str) -> (b: bool)
    ensures
        b == p@.is_prefix_of(s@),
{
    let pc = chars_of(p);
    starts_with(s, &pc)
}

/// `s` ends with `p`.
pub fn ends_with(s: &Vec<char>, p: &Vec<char>) -> (b: bool)
    ensures
        b == p@.is_suffix_of(s@),
{
    if p.len() > s.len() {
        return false;
    }
    let r = match_at(s, p, s.len() - p.len());
    proof {
        assert(s@.subrange(s@.len() - p@.len(), s@.len() as int) =~= s@.subrange(
            s@.len() - p@.len(),
            s@.len() - p@.len() + p@.len(),
        ));
    }
    r
}

/// Every occurrence of the character `from` replaced by `to`.
pub open spec fn replace_char_seq(s: Seq<char>, from: char, to: char) -> Seq<char> {
    s.map_values(|c: char| if c == from { to } else { c })
}

pub fn replace_char(s: &Vec<char>, from: char, to: char) -> (res: Vec<char>)
    ensures
        res@ == replace_char_seq(s@, from, to),
{
    let mut res: Vec<char> = Vec::new();
    let mut i: usize = 0;
    while i < s.len()
        invariant
            i <= s.len(),
            res@ == replace_char_seq(s@.take(i as int), from, to),
        decreases s.len() - i,
    {
        let c = if s[i] == from {
            to
        } else {
            s[i]
        };
        res.push(c);
        assert(replace_char_seq(s@.take(i as int + 1), from, to) =~= replace_char_seq(
            s@.take(i as int),
            from,
            to,
        ).push(c));
        i = i + 1;
    }
    assert(s@.take(s.len() as int) =~= s@);
    res
}

// ---------------------------------------------------------------------------
// Lines
// ---------------------------------------------------------------------------

/// One trailing carriage return removed.
pub open spec fn strip_cr(s: Seq<char>) -> Seq<char> {
    if s.len() > 0 && s.last() == '\r' {
        s.drop_last()
    } else {
        s
    }
}

/// The lines of `s` as `str::lines` yields them: split at each `'\n'`, a `'\r'`
/// right before a `'\n'` dropped, and no empty line after a final `'\n'`.
pub open spec fn lines_of(s: Seq<char>) -> Seq<Seq<char>>
    decreases s.len(),
{
    if s.len() == 0 {
        Seq::empty()
    } else {
        match index_of(s, '\n') {
            Some(i) => {
                if 0 <= i < s.len() {
                    seq![strip_cr(s.take(i))] + lines_of(s.skip(i + 1))
                } else {
                    Seq::empty()
                }
            },
            None => seq![s],
        }
    }
}

/// The lines of a text (see `lines_of`).
pub fn split_lines(s: &Vec<char>) -> (res: Vec<Vec<char>>)
    ensures
        res@.len() == lines_of(s@).len(),
        forall|k: int| 0 <= k < res@.len() ==> #[trigger] res@[k]@ == lines_of(s@)[k],
{
    let mut res: Vec<Vec<char>> = Vec::new();
    let mut start: usize = 0;
    let ghost done: Seq<Seq<char>> = Seq::empty();
    assert(s@.skip(0) =~= s@);
    assert(lines_of(s@) =~= done + lines_of(s@.skip(0)));
    while start < s.len()
        invariant
            start <= s.len(),
            res@.len() == done.len(),
            forall|k: int| 0 <= k < res@.len() ==> #[trigger] res@[k]@ == done[k],
            lines_of(s@) == done + lines_of(s@.skip(start as int)),
        decreases s.len() - start,
    {
        let rest = slice_from(s, start);
        proof {
            lemma_index_of(rest@, '\n');
        }
        match find_char(&rest, '\n') {
            Some(i) => {
                let mut line = slice(&rest, 0, i);
                if i > 0 && line[i - 1] == '\r' {
                    line.pop();
                }
                assert(line@ =~= strip_cr(rest@.take(i as int)));
                assert(rest@.skip(i as int + 1) =~= s@.skip(start + i + 1));
                proof {
                    done = done.push(line@);
                }
                res.push(line);
                assert(lines_of(s@) =~= done + lines_of(s@.skip(start + i + 1)));
                start = start + i + 1;
            },
            None => {
                proof {
                    done = done.push(rest@);
                }
                res.push(rest);
                assert(s@.skip(s.len() as int) =~= Seq::<char>::empty());
                assert(lines_of(s@) =~= done + lines_of(s@.skip(s.len() as int)));
                start = s.len();
            },
        }
    }
    assert(s@.skip(start as int) =~= Seq::<char>::empty());
    assert(lines_of(s@) =~= done);
    res
}

// ---------------------------------------------------------------------------
// Case mapping and numbers
// ---------------------------------------------------------------------------

/// The characters of `s` mapped to lower case by `str::to_lowercase`.
pub fn lower(s: &Vec<char>) -> (r: Vec<char>)
    ensures
        r@ == lowercase_of(s@),
{
    let st = string_of(s);
    let l = to_lowercase(st.as_str());
    chars_of(l.as_str())
}

/// The characters of `s` mapped to upper case by `str::to_uppercase`.
pub fn upper(s: &Vec<char>) -> (r: Vec<char>)
    ensures
        r@ == uppercase_of(s@),
{
    let st = string_of(s);
    let u = to_uppercase(st.as_str());
    chars_of(u.as_str())
}

/// The decimal digit for `d < 10`.
pub open spec fn digit_char(d: nat) -> char {
    if d == 0 {
        '0'
    } else if d == 1 {
        '1'
    } else if d == 2 {
        '2'
    } else if d == 3 {
        '3'
    } else if d == 4 {
        '4'
    } else if d == 5 {
        '5'
    } else if d == 6 {
        '6'
    } else if d == 7 {
        '7'
    } else if d == 8 {
        '8'
    } else {
        '9'
    }
}

/// The decimal notation of `n`, as `Display` writes an unsigned integer.
pub open spec fn decimal(n: nat) -> Seq<char>
    decreases n,
{
    if n < 10 {
        seq![digit_char(n)]
    } else {
        decimal(n / 10).push(digit_char(n % 10))
    }
}

fn digit(d: usize) -> (c: char)
    requires
        d < 10,
    ensures
        c == digit_char(d as nat),
{
    if d == 0 {
        '0'
    } else if d == 1 {
        '1'
    } else if d == 2 {
        '2'
    } else if d == 3 {
        '3'
    } else if d == 4 {
        '4'
    } else if d == 5 {
        '5'
    } else if d == 6 {
        '6'
    } else if d == 7 {
        '7'
    } else if d == 8 {
        '8'
    } else {
        '9'
    }
}

/// The decimal notation of `n`.
pub fn decimal_chars(n: usize) -> (r: Vec<char>)
    ensures
        r@ == decimal(n as nat),
    decreases n,
{
    if n < 10 {
        let mut v: Vec<char> = Vec::new();
        v.push(digit(n));
        assert(v@ =~= seq![digit_char(n as nat)]);
        v
    } else {
        let mut v = decimal_chars(n / 10);
        v.push(digit(n % 10));
        v
    }
}

/// The decimal notation of a 64-bit `n`.
pub fn decimal_chars_u64(n: u64) -> (r: Vec<char>)
    ensures
        r@ == decimal(n as nat),
    decreases n,
{
    if n < 10 {
        let mut v: Vec<char> = Vec::new();
        v.push(digit(n as usize));
        assert(v@ =~= seq![digit_char(n as nat)]);
        v
    } else {
        let mut v = decimal_chars_u64(n / 10);
        v.push(digit((n % 10) as usize));
        v
    }
}

/// The decimal notation of `n` as a string, what `n.to_string()` gives.
pub fn decimal_string(n: usize) -> (r: String)
    ensures
        r@ == decimal(n as nat),
{
    let v = decimal_chars(n);
    string_of(&v)
}

/// Parts joined with a separator between consecutive parts.
pub open spec fn join(parts: Seq<Seq<char>>, sep: Seq<char>) -> Seq<char>
    decreases parts.len(),
{
    if parts.len() == 0 {
        Seq::empty()
    } else if parts.len() == 1 {
        parts[0]
    } else {
        join(parts.drop_last(), sep) + sep + parts.last()
    }
}

/// Joins `parts` with `sep` between them, as `[String]::join` does.
pub fn join_parts(parts: &Vec<Vec<char>>, sep: &str) -> (r: Vec<char>)
    ensures
        r@ == join(parts@.map_values(|p: Vec<char>| p@), sep@),
{
    let ghost ps = parts@.map_values(|p: Vec<char>| p@);
    let sc = chars_of(sep);
    let mut r: Vec<char> = Vec::new();
    let mut i: usize = 0;
    while i < parts.len()
        invariant
            i <= parts@.len(),
            ps == parts@.map_values(|p: Vec<char>| p@),
            sc@ == sep@,
            r@ == join(ps.take(i as int), sep@),
        decreases parts.len() - i,
    {
        if i > 0 {
            append(&mut r, &sc);
        }
        append(&mut r, &parts[i]);
        assert(ps.take(i as int + 1).drop_last() =~= ps.take(i as int));
        if i == 0 {
            assert(r@ =~= join(ps.take(1), sep@));
        }
        i = i + 1;
    }
    assert(ps.take(parts@.len() as int) =~= ps);
    r
}

} // verus!
