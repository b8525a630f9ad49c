//! Shared text-scanning helpers for the block and document grammars:
//! matching and finding multi-character tags given as string literals, and
//! skipping runs of whitespace characters.

use vstd::prelude::*;

use crate::spans::{find_tag, tag_at};

verus! {

/// `c` counts as whitespace between blocks: spaces, newlines and tabs.
pub open spec fn is_ws(c: char) -> bool {
    c == ' ' || c == '\n' || c == '\t'
}

/// The first position at or after `pos` whose character is not block
/// whitespace, or the end of the input.
pub open spec fn skip_ws(s: Seq<char>, pos: int) -> int
    decreases s.len() - pos,
{
    if pos < 0 || pos >= s.len() {
        s.len() as int
    } else if is_ws(s[pos]) {
        skip_ws(s, pos + 1)
    } else {
        pos
    }
}

/// The first position at or after `pos` whose character is not a newline,
/// or the end of the input.
pub open spec fn skip_nl(s: Seq<char>, pos: int) -> int
    decreases s.len() - pos,
{
    if pos < 0 || pos >= s.len() {
        s.len() as int
    } else if s[pos] == '\n' {
        skip_nl(s, pos + 1)
    } else {
        pos
    }
}

/// The first position at or after `pos` holding the character `c`, or the
/// end of the input: where `take_till`-style scanning for `c` stops.
pub open spec fn char_end(s: Seq<char>, pos: int, c: char) -> int
    decreases s.len() - pos,
{
    if pos < 0 || pos >= s.len() {
        s.len() as int
    } else if s[pos] == c {
        pos
    } else {
        char_end(s, pos + 1, c)
    }
}

/// A whitespace skip never moves backwards, never leaves the input, and
/// stops on the first character that is not whitespace.
pub proof fn lemma_skip_ws_bounds(s: Seq<char>, pos: int)
    requires
        0 <= pos <= s.len(),
    ensures
        pos <= skip_ws(s, pos) <= s.len(),
        skip_ws(s, pos) < s.len() ==> !is_ws(s[skip_ws(s, pos)]),
    decreases s.len() - pos,
{
    if pos < s.len() && is_ws(s[pos]) {
        lemma_skip_ws_bounds(s, pos + 1);
    }
}

/// A newline skip never moves backwards and never leaves the input.
pub proof fn lemma_skip_nl_bounds(s: Seq<char>, pos: int)
    requires
        0 <= pos <= s.len(),
    ensures
        pos <= skip_nl(s, pos) <= s.len(),
    decreases s.len() - pos,
{
    if pos < s.len() && s[pos] == '\n' {
        lemma_skip_nl_bounds(s, pos + 1);
    }
}

/// A character search never moves backwards and never leaves the input; it
/// stops either at the end of the input or on the character it looks for.
pub proof fn lemma_char_end_bounds(s: Seq<char>, pos: int, c: char)
    requires
        0 <= pos <= s.len(),
    ensures
        pos <= char_end(s, pos, c) <= s.len(),
        char_end(s, pos, c) < s.len() ==> s[char_end(s, pos, c)] == c,
    decreases s.len() - pos,
{
    if pos < s.len() && s[pos] != c {
        lemma_char_end_bounds(s, pos + 1, c);
    }
}

/// The tag `t` occurs in `input` starting exactly at `pos`.
pub fn tag_str_at(input: &Vec<char>, pos: usize, t: &str) -> (b: bool)
    ensures
        b == tag_at(input@, pos as int, t@),
{
    let n = t.unicode_len();
    if pos > input.len() || n > input.len() - pos {
        return false;
    }
    let mut j: usize = 0;
    while j < n
        invariant
            j <= n,
            n == t@.len(),
            pos + n <= input@.len(),
            input@.len() == input.len(),
            forall|m: int| 0 <= m < j ==> input@[pos + m] == t@[m],
        decreases n - j,
    {
        if input[pos + j] != t.get_char(j) {
            proof {
                assert(input@.subrange(pos as int, pos as int + t@.len() as int)[j as int]
                    == input@[pos + j as int]);
            }
            return false;
        }
        j = j + 1;
    }
    proof {
        assert(input@.subrange(pos as int, pos as int + t@.len() as int) =~= t@);
    }
    true
}

/// The first occurrence of the tag `t` in `input` at or after `pos`.
pub fn find_tag_str(input: &Vec<char>, pos: usize, t: &str) -> (r: Option<usize>)
    requires
        pos <= input@.len(),
    ensures
        match r {
            Some(k) => pos <= k && k + t@.len() <= input@.len() && find_tag(input@, pos as int, t@)
                == Some(k as int),
            None => find_tag(input@, pos as int, t@) is None,
        },
{
    let n = t.unicode_len();
    if n == 0 {
        return None;
    }
    let mut i: usize = pos;
    while input.len() - i >= n
        invariant
            pos <= i <= input@.len(),
            n == t@.len(),
            n >= 1,
            find_tag(input@, pos as int, t@) == find_tag(input@, i as int, t@),
        decreases input@.len() - i,
    {
        if tag_str_at(input, i, t) {
            return Some(i);
        }
        proof {
            assert(find_tag(input@, i as int, t@) == find_tag(input@, i as int + 1, t@));
        }
        i = i + 1;
    }
    None
}

/// Skips block whitespace (spaces, newlines and tabs) starting at `pos`.
pub fn skip_ws_exec(input: &Vec<char>, pos: usize) -> (r: usize)
    requires
        pos <= input@.len(),
    ensures
        r == skip_ws(input@, pos as int),
        pos <= r <= input@.len(),
{
    let mut i: usize = pos;
    while i < input.len() && (input[i] == ' ' || input[i] == '\n' || input[i] == '\t')
        invariant
            pos <= i <= input@.len(),
            skip_ws(input@, pos as int) == skip_ws(input@, i as int),
        decreases input@.len() - i,
    {
        proof {
            assert(skip_ws(input@, i as int) == skip_ws(input@, i as int + 1));
        }
        i = i + 1;
    }
    i
}

/// Skips newlines starting at `pos`.
pub fn skip_nl_exec(input: &Vec<char>, pos: usize) -> (r: usize)
    requires
        pos <= input@.len(),
    ensures
        r == skip_nl(input@, pos as int),
        pos <= r <= input@.len(),
{
    let mut i: usize = pos;
    while i < input.len() && input[i] == '\n'
        invariant
            pos <= i <= input@.len(),
            skip_nl(input@, pos as int) == skip_nl(input@, i as int),
        decreases input@.len() - i,
    {
        proof {
            assert(skip_nl(input@, i as int) == skip_nl(input@, i as int + 1));
        }
        i = i + 1;
    }
    i
}

/// Scans for the character `c` starting at `pos`; stops at it or at the end
/// of the input.
pub fn find_char(input: &Vec<char>, pos: usize, c: char) -> (r: usize)
    requires
        pos <= input@.len(),
    ensures
        r == char_end(input@, pos as int, c),
        pos <= r <= input@.len(),
{
    let mut i: usize = pos;
    while i < input.len() && input[i] != c
        invariant
            pos <= i <= input@.len(),
            char_end(input@, pos as int, c) == char_end(input@, i as int, c),
        decreases input@.len() - i,
    {
        proof {
            assert(char_end(input@, i as int, c) == char_end(input@, i as int + 1, c));
        }
        i = i + 1;
    }
    i
}

} // verus!
