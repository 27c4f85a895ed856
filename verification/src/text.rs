//! Byte-level text scanning shared by the per-source extractors: line
//! splitting and whitespace-separated fields, each executable function
//! proved equal to its specification.

use vstd::prelude::*;

verus! {

/// Line-internal ASCII whitespace: space, tab, form feed, carriage return.
/// The line feed is the line separator and never occurs inside a line.
pub open spec fn spec_is_ws(b: u8) -> bool {
    b == 32 || b == 9 || b == 12 || b == 13
}

/// Whether a byte is line-internal ASCII whitespace.
pub fn is_ws(b: u8) -> (r: bool)
    ensures
        r == spec_is_ws(b),
{
    b == 32 || b == 9 || b == 12 || b == 13
}

/// The end of the line that starts at `i`: the position of the next line
/// feed, or the end of the text.
pub open spec fn spec_line_end(s: Seq<u8>, i: int) -> int
    decreases s.len() - i,
{
    if i < 0 || i >= s.len() || s[i] == 10 {
        i
    } else {
        spec_line_end(s, i + 1)
    }
}

/// The line end lies between `i` and the end of the text, no line feed
/// stands before it, and it is a line feed unless it is the text's end.
pub proof fn lemma_line_end(s: Seq<u8>, i: int)
    requires
        0 <= i <= s.len(),
    ensures
        i <= spec_line_end(s, i) <= s.len(),
        forall|k: int| i <= k < spec_line_end(s, i) ==> s[k] != 10,
        spec_line_end(s, i) < s.len() ==> s[spec_line_end(s, i)] == 10,
    decreases s.len() - i,
{
    if i < s.len() && s[i] != 10 {
        lemma_line_end(s, i + 1);
    }
}

/// Finds the end of the line that starts at `i`.
pub fn line_end(s: &Vec<u8>, i: usize) -> (r: usize)
    requires
        i <= s@.len(),
    ensures
        r == spec_line_end(s@, i as int),
    decreases s@.len() - i,
{
    if i < s.len() && s[i] != 10 {
        line_end(s, i + 1)
    } else {
        i
    }
}

/// The first position at or after `i` that holds no line-internal
/// whitespace (or the end of the text).
pub open spec fn spec_skip_ws(s: Seq<u8>, i: int) -> int
    decreases s.len() - i,
{
    if 0 <= i < s.len() && spec_is_ws(s[i]) {
        spec_skip_ws(s, i + 1)
    } else {
        i
    }
}

/// Skipping whitespace stays within the text.
pub proof fn lemma_skip_ws(s: Seq<u8>, i: int)
    requires
        0 <= i <= s.len(),
    ensures
        i <= spec_skip_ws(s, i) <= s.len(),
    decreases s.len() - i,
{
    if i < s.len() && spec_is_ws(s[i]) {
        lemma_skip_ws(s, i + 1);
    }
}

/// Skips line-internal whitespace from `i` on.
pub fn skip_ws(s: &Vec<u8>, i: usize) -> (r: usize)
    requires
        i <= s@.len(),
    ensures
        r == spec_skip_ws(s@, i as int),
        i <= r <= s@.len(),
    decreases s@.len() - i,
{
    proof {
        lemma_skip_ws(s@, i as int);
    }
    if i < s.len() && is_ws(s[i]) {
        skip_ws(s, i + 1)
    } else {
        i
    }
}

/// The end of the whitespace-free run that starts at `i`.
pub open spec fn spec_token_end(s: Seq<u8>, i: int) -> int
    decreases s.len() - i,
{
    if 0 <= i < s.len() && !spec_is_ws(s[i]) {
        spec_token_end(s, i + 1)
    } else {
        i
    }
}

/// A token's end stays within the text.
pub proof fn lemma_token_end(s: Seq<u8>, i: int)
    requires
        0 <= i <= s.len(),
    ensures
        i <= spec_token_end(s, i) <= s.len(),
    decreases s.len() - i,
{
    if i < s.len() && !spec_is_ws(s[i]) {
        lemma_token_end(s, i + 1);
    }
}

/// Finds the end of the token that starts at `i`.
pub fn token_end(s: &Vec<u8>, i: usize) -> (r: usize)
    requires
        i <= s@.len(),
    ensures
        r == spec_token_end(s@, i as int),
        i <= r <= s@.len(),
    decreases s@.len() - i,
{
    proof {
        lemma_token_end(s@, i as int);
    }
    if i < s.len() && !is_ws(s[i]) {
        token_end(s, i + 1)
    } else {
        i
    }
}

/// The start of the `n`-th whitespace-separated field at or after `i`
/// (counted from zero); the text's end when there are fewer fields.
pub open spec fn spec_field_start(s: Seq<u8>, i: int, n: nat) -> int
    decreases n,
{
    if n == 0 {
        spec_skip_ws(s, i)
    } else {
        spec_field_start(s, spec_token_end(s, spec_skip_ws(s, i)), (n - 1) as nat)
    }
}

/// A field start stays within the text.
pub proof fn lemma_field_start(s: Seq<u8>, i: int, n: nat)
    requires
        0 <= i <= s.len(),
    ensures
        i <= spec_field_start(s, i, n) <= s.len(),
    decreases n,
{
    lemma_skip_ws(s, i);
    if n > 0 {
        lemma_token_end(s, spec_skip_ws(s, i));
        lemma_field_start(s, spec_token_end(s, spec_skip_ws(s, i)), (n - 1) as nat);
    }
}

/// Finds the start of the `n`-th whitespace-separated field at or after
/// `i`.
pub fn field_start(s: &Vec<u8>, i: usize, n: usize) -> (r: usize)
    requires
        i <= s@.len(),
    ensures
        r == spec_field_start(s@, i as int, n as nat),
        i <= r <= s@.len(),
    decreases n,
{
    proof {
        lemma_field_start(s@, i as int, n as nat);
    }
    let start = skip_ws(s, i);
    if n == 0 {
        start
    } else {
        let te = token_end(s, start);
        field_start(s, te, n - 1)
    }
}

/// Copies the byte range `[from, to)` out of the text.
pub fn copy_range(s: &Vec<u8>, from: usize, to: usize) -> (r: Vec<u8>)
    requires
        from <= to <= s@.len(),
    ensures
        r@ == s@.subrange(from as int, to as int),
{
    let mut out: Vec<u8> = Vec::new();
    let mut k: usize = from;
    while k < to
        invariant
            from <= k <= to <= s@.len(),
            out@ == s@.subrange(from as int, k as int),
        decreases to - k,
    {
        out.push(s[k]);
        proof {
            assert(s@.subrange(from as int, k + 1 as int) =~= s@.subrange(
                from as int,
                k as int,
            ).push(s@[k as int]));
        }
        k += 1;
    }
    out
}

} // verus!
