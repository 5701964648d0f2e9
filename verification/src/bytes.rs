//! Cuts at UTF-8 byte offsets that may exceed `usize`, replacing every match of a
//! pattern, and the small trimming and token helpers that the filters use.
//!
//! Offsets are computed in `u128`, which holds the byte length of any string that
//! a `Vec<char>` can hold.
use vstd::prelude::*;
use crate::text::{
    byte_prefix, byte_suffix, char_is_ws, char_width, is_ws, lemma_byte_prefix_is_prefix,
    lemma_utf8_len_le, match_at, matches_at, slice, slice_from, utf8_len, utf8_width,
};

verus! {

/// Bytes used by the first `i` characters of `s`: the byte offset of character `i`.
pub open spec fn prefix_bytes(s: Seq<char>, i: int) -> int {
    utf8_len(s.take(i)) as int
}

/// The bytes from offset `a` up to offset `b` of `s`, both cuts moved back to a
/// character boundary; empty when `b` precedes `a`.
pub open spec fn bslice(s: Seq<char>, a: int, b: int) -> Seq<char> {
    byte_prefix(byte_suffix(s, a), b - a)
}

/// UTF-8 length of `s`, exact for every `Vec<char>`.
pub fn utf8_len_wide(s: &Vec<char>) -> (n: u128)
    ensures
        n == utf8_len(s@),
        n <= 4 * s@.len(),
{
    proof {
        lemma_utf8_len_le(s@);
    }
    let mut n: u128 = 0;
    let mut i: usize = s.len();
    assert(s@.skip(s.len() as int) =~= Seq::<char>::empty());
    while i > 0
        invariant
            i <= s.len(),
            n == utf8_len(s@.skip(i as int)),
        decreases i,
    {
        i = i - 1;
        assert(s@.skip(i as int).drop_first() =~= s@.skip(i as int + 1));
        proof {
            lemma_utf8_len_le(s@.skip(i as int));
        }
        let w = char_width(s[i]);
        n = n + w as u128;
    }
    assert(s@.skip(0) =~= s@);
    n
}

/// The characters of `s` that fit in its first `b` bytes (see `byte_prefix`).
pub fn take_bytes_wide(s: &Vec<char>, b: u128) -> (res: Vec<char>)
    ensures
        res@ == byte_prefix(s@, b as int),
{
    let mut res: Vec<char> = Vec::new();
    let mut i: usize = 0;
    let mut left: u128 = b;
    assert(s@.skip(0) =~= s@);
    assert(res@ + byte_prefix(s@, b as int) =~= byte_prefix(s@, b as int));
    while i < s.len() && (char_width(s[i]) as u128) <= left
        invariant
            i <= s.len(),
            left <= b,
            byte_prefix(s@, b as int) == res@ + byte_prefix(s@.skip(i as int), left as int),
        decreases s.len() - i,
    {
        let w = char_width(s[i]) as u128;
        assert(s@.skip(i as int).drop_first() =~= s@.skip(i as int + 1));
        res.push(s[i]);
        left = left - w;
        i = i + 1;
        assert(byte_prefix(s@, b as int) =~= res@ + byte_prefix(s@.skip(i as int), left as int));
    }
    assert(byte_prefix(s@.skip(i as int), left as int) =~= Seq::<char>::empty());
    assert(res@ =~= res@ + Seq::<char>::empty());
    res
}

/// What follows the first `b` bytes of `s` (see `byte_suffix`).
pub fn skip_bytes_wide(s: &Vec<char>, b: u128) -> (res: Vec<char>)
    ensures
        res@ == byte_suffix(s@, b as int),
{
    let p = take_bytes_wide(s, b);
    proof {
        lemma_byte_prefix_is_prefix(s@, b as int);
    }
    slice_from(s, p.len())
}

/// The bytes of `s` from offset `a` up to offset `b` (see `bslice`).
pub fn bslice_exec(s: &Vec<char>, a: u128, b: u128) -> (res: Vec<char>)
    ensures
        res@ == bslice(s@, a as int, b as int),
{
    let t = skip_bytes_wide(s, a);
    if b >= a {
        take_bytes_wide(&t, b - a)
    } else {
        assert(byte_prefix(t@, b - a) =~= Seq::<char>::empty());
        Vec::new()
    }
}

/// Byte offset of character `i` of `s`.
pub fn prefix_bytes_exec(s: &Vec<char>, i: usize) -> (n: u128)
    requires
        i <= s@.len(),
    ensures
        n == prefix_bytes(s@, i as int),
        n <= 4 * s@.len(),
{
    let h = slice(s, 0, i);
    assert(h@ =~= s@.take(i as int));
    utf8_len_wide(&h)
}

/// The text of `s` that follows `extra` bytes after the byte offset of character
/// `i` of `head`: the slice `&s[head_offset + extra..]` of a string whose offsets
/// were found in `head`, with the cut moved back to a character boundary.
pub fn skip_after(s: &Vec<char>, head: &Vec<char>, i: usize, extra: usize) -> (res: Vec<char>)
    requires
        i <= head@.len(),
    ensures
        res@ == byte_suffix(s@, prefix_bytes(head@, i as int) + extra),
{
    let h = slice(head, 0, i);
    assert(h@ =~= head@.take(i as int));
    let hb = utf8_len_wide(&h);
    proof {
        lemma_utf8_len_le(h@);
    }
    skip_bytes_wide(s, hb + extra as u128)
}

// ---------------------------------------------------------------------------
// Replacing every match
// ---------------------------------------------------------------------------

/// Every non-overlapping match of `p`, from left to right, replaced by `r`, as
/// `str::replace` does for a non-empty pattern.
pub open spec fn replace_all(s: Seq<char>, p: Seq<char>, r: Seq<char>) -> Seq<char>
    decreases s.len(),
{
    if s.len() == 0 || p.len() == 0 {
        s
    } else if p.is_prefix_of(s) {
        r + replace_all(s.skip(p.len() as int), p, r)
    } else {
        seq![s[0]] + replace_all(s.drop_first(), p, r)
    }
}

/// Replaces every match of `p` in `s` by `r` (see `replace_all`).
pub fn replace_str(s: &Vec<char>, p: &str, r: &str) -> (res: Vec<char>)
    ensures
        res@ == replace_all(s@, p@, r@),
{
    let pc = crate::text::chars_of(p);
    let rc = crate::text::chars_of(r);
    if pc.len() == 0 {
        return s.clone();
    }
    let mut out: Vec<char> = Vec::new();
    let mut i: usize = 0;
    assert(s@.skip(0) =~= s@);
    assert(out@ + replace_all(s@, p@, r@) =~= replace_all(s@, p@, r@));
    while i < s.len()
        invariant
            i <= s.len(),
            pc@ == p@,
            rc@ == r@,
            pc@.len() > 0,
            replace_all(s@, p@, r@) == out@ + replace_all(s@.skip(i as int), p@, r@),
        decreases s.len() - i,
    {
        let ghost t = s@.skip(i as int);
        if match_at(s, &pc, i) {
            assert(t.take(p@.len() as int) =~= s@.subrange(i as int, i + p@.len()));
            assert(p@.is_prefix_of(t));
            assert(t.skip(p@.len() as int) =~= s@.skip(i + p@.len()));
            crate::text::append(&mut out, &rc);
            i = i + pc.len();
        } else {
            proof {
                if p@.is_prefix_of(t) {
                    assert(t.take(p@.len() as int) =~= s@.subrange(i as int, i + p@.len()));
                    assert(matches_at(s@, p@, i as int));
                }
            }
            assert(t.drop_first() =~= s@.skip(i as int + 1));
            out.push(s[i]);
            i = i + 1;
        }
    }
    assert(s@.skip(i as int) =~= Seq::<char>::empty());
    assert(out@ + Seq::<char>::empty() =~= out@);
    out
}

// ---------------------------------------------------------------------------
// Trimming given characters
// ---------------------------------------------------------------------------

/// `c` removed from the start as often as it occurs there (`trim_start_matches(c)`).
pub open spec fn trim_start_char_seq(s: Seq<char>, c: char) -> Seq<char>
    decreases s.len(),
{
    if s.len() > 0 && s[0] == c {
        trim_start_char_seq(s.drop_first(), c)
    } else {
        s
    }
}

pub fn trim_start_char(s: &Vec<char>, c: char) -> (res: Vec<char>)
    ensures
        res@ == trim_start_char_seq(s@, c),
{
    let mut i: usize = 0;
    assert(s@.skip(0) =~= s@);
    while i < s.len() && s[i] == c
        invariant
            i <= s.len(),
            trim_start_char_seq(s@, c) == trim_start_char_seq(s@.skip(i as int), c),
        decreases s.len() - i,
    {
        assert(s@.skip(i as int).drop_first() =~= s@.skip(i as int + 1));
        i = i + 1;
    }
    slice_from(s, i)
}

/// A bracket, `[` or `]`.
pub open spec fn is_bracket(c: char) -> bool {
    c == '[' || c == ']'
}

pub open spec fn trim_start_brackets(s: Seq<char>) -> Seq<char>
    decreases s.len(),
{
    if s.len() > 0 && is_bracket(s[0]) {
        trim_start_brackets(s.drop_first())
    } else {
        s
    }
}

pub open spec fn trim_end_brackets(s: Seq<char>) -> Seq<char>
    decreases s.len(),
{
    if s.len() > 0 && is_bracket(s.last()) {
        trim_end_brackets(s.drop_last())
    } else {
        s
    }
}

/// Brackets removed from both ends (`trim_matches(&['[', ']'])`).
pub open spec fn trim_brackets_seq(s: Seq<char>) -> Seq<char> {
    trim_end_brackets(trim_start_brackets(s))
}

pub fn trim_brackets(s: &Vec<char>) -> (res: Vec<char>)
    ensures
        res@ == trim_brackets_seq(s@),
{
    let mut i: usize = 0;
    assert(s@.skip(0) =~= s@);
    while i < s.len() && (s[i] == '[' || s[i] == ']')
        invariant
            i <= s.len(),
            trim_start_brackets(s@) == trim_start_brackets(s@.skip(i as int)),
        decreases s.len() - i,
    {
        assert(s@.skip(i as int).drop_first() =~= s@.skip(i as int + 1));
        i = i + 1;
    }
    let t = slice_from(s, i);
    let mut j: usize = t.len();
    assert(t@.take(t.len() as int) =~= t@);
    while j > 0 && (t[j - 1] == '[' || t[j - 1] == ']')
        invariant
            j <= t.len(),
            trim_end_brackets(t@) == trim_end_brackets(t@.take(j as int)),
        decreases j,
    {
        assert(t@.take(j as int).drop_last() =~= t@.take(j as int - 1));
        j = j - 1;
    }
    assert(t@.subrange(0, j as int) =~= t@.take(j as int));
    slice(&t, 0, j)
}

// ---------------------------------------------------------------------------
// White-space separated tokens
// ---------------------------------------------------------------------------

/// The longest prefix of `s` without white space.
pub open spec fn until_ws(s: Seq<char>) -> Seq<char>
    decreases s.len(),
{
    if s.len() == 0 || is_ws(s[0]) {
        Seq::empty()
    } else {
        seq![s[0]] + until_ws(s.drop_first())
    }
}

pub proof fn lemma_until_ws_prefix(s: Seq<char>)
    ensures
        until_ws(s).len() <= s.len(),
        until_ws(s) =~= s.take(until_ws(s).len() as int),
    decreases s.len(),
{
    if s.len() > 0 && !is_ws(s[0]) {
        lemma_until_ws_prefix(s.drop_first());
    }
}

/// The second token of `s.split_whitespace()`.
pub open spec fn second_token(s: Seq<char>) -> Option<Seq<char>> {
    let t = crate::text::trim_start_seq(s);
    let rest = crate::text::trim_start_seq(t.skip(until_ws(t).len() as int));
    if rest.len() == 0 {
        None
    } else {
        Some(until_ws(rest))
    }
}

fn token_end(s: &Vec<char>, start: usize) -> (e: usize)
    requires
        start <= s@.len(),
    ensures
        start <= e <= s@.len(),
        s@.subrange(start as int, e as int) == until_ws(s@.skip(start as int)),
{
    let mut e: usize = start;
    assert(s@.skip(start as int) =~= s@.skip(e as int));
    while e < s.len() && !char_is_ws(s[e])
        invariant
            start <= e <= s@.len(),
            until_ws(s@.skip(start as int)) == s@.subrange(start as int, e as int) + until_ws(s@.skip(e as int)),
        decreases s.len() - e,
    {
        assert(s@.skip(e as int).drop_first() =~= s@.skip(e as int + 1));
        assert(s@.subrange(start as int, e as int + 1) =~= s@.subrange(start as int, e as int) + seq![s@[e as int]]);
        e = e + 1;
    }
    assert(until_ws(s@.skip(e as int)) =~= Seq::<char>::empty());
    assert(s@.subrange(start as int, e as int) + Seq::<char>::empty() =~= s@.subrange(start as int, e as int));
    e
}

/// The second white-space separated token of `s`, if there is one.
pub fn nth_token_1(s: &Vec<char>) -> (r: Option<Vec<char>>)
    ensures
        match r {
            Some(v) => second_token(s@) == Some(v@),
            None => second_token(s@) is None,
        },
{
    let t = crate::text::trim_start(s);
    let e = token_end(&t, 0);
    assert(t@.skip(0) =~= t@);
    proof {
        lemma_until_ws_prefix(t@);
    }
    let after = slice_from(&t, e);
    assert(after@ =~= t@.skip(until_ws(t@).len() as int));
    let rest = crate::text::trim_start(&after);
    if rest.len() == 0 {
        None
    } else {
        let e2 = token_end(&rest, 0);
        assert(rest@.skip(0) =~= rest@);
        Some(slice(&rest, 0, e2))
    }
}

} // verus!
