//! Small text helpers for the FEN and move-string parsers: the characters
//! of a string, splitting on spaces, and reading a decimal number.

use vstd::prelude::*;
use vstd::string::StrSliceExecFns;

verus! {

/// The index of the first space at or after `i`, or the length when none
/// follows.
pub open spec fn find_space(s: Seq<char>, i: int) -> int
    decreases s.len() - i,
{
    if i < 0 || i >= s.len() {
        s.len() as int
    } else if s[i] == ' ' {
        i
    } else {
        find_space(s, i + 1)
    }
}

/// The fields of `s` split on single spaces; consecutive spaces yield
/// empty fields, and the result always holds at least one field.
pub open spec fn split_spaces(s: Seq<char>) -> Seq<Seq<char>>
    decreases s.len(),
{
    let i = find_space(s, 0);
    if i < 0 || i >= s.len() {
        seq![s]
    } else {
        seq![s.subrange(0, i)] + split_spaces(s.subrange(i + 1, s.len() as int))
    }
}

/// The value of an all-digit field read in decimal, refused when empty,
/// when a character is no digit, or when the value passes `u32::MAX`.
pub open spec fn parse_u32(s: Seq<char>) -> Option<u32> {
    if s.len() == 0 {
        None
    } else {
        digits_scan(s, 0, 0)
    }
}

/// Reads digits from `i` on, with `acc` the value read so far.
pub open spec fn digits_scan(s: Seq<char>, i: int, acc: u32) -> Option<u32>
    decreases s.len() - i,
{
    if i < 0 || i > s.len() {
        None
    } else if i == s.len() {
        Some(acc)
    } else if '0' <= s[i] && s[i] <= '9' {
        let v = (acc as int) * 10 + (s[i] as u32 - '0' as u32);
        if v <= u32::MAX {
            digits_scan(s, i + 1, v as u32)
        } else {
            None
        }
    } else {
        None
    }
}

/// The characters of a string, as a vector.
pub fn chars_of(s: &str) -> (v: Vec<char>)
    ensures
        v@ == s@,
{
    let n = s.unicode_len();
    let mut v: Vec<char> = Vec::new();
    let mut i: usize = 0;
    while i < n
        invariant
            n == s@.len(),
            i <= n,
            v@ == s@.subrange(0, i as int),
        decreases n - i,
    {
        let c = s.get_char(i);
        v.push(c);
        proof {
            assert(v@ =~= s@.subrange(0, i as int + 1));
        }
        i = i + 1;
    }
    proof {
        assert(s@.subrange(0, s@.len() as int) =~= s@);
    }
    v
}

/// Copies the characters with indices in `[a, b)`.
fn vec_subrange(v: &Vec<char>, a: usize, b: usize) -> (r: Vec<char>)
    requires
        a <= b <= v@.len(),
    ensures
        r@ == v@.subrange(a as int, b as int),
{
    let mut r: Vec<char> = Vec::new();
    let mut i: usize = a;
    while i < b
        invariant
            a <= i <= b <= v@.len(),
            r@ == v@.subrange(a as int, i as int),
        decreases b - i,
    {
        r.push(v[i]);
        proof {
            assert(r@ =~= v@.subrange(a as int, i as int + 1));
        }
        i = i + 1;
    }
    r
}

/// Finds the first space at or after `start`.
fn find_space_exec(v: &Vec<char>, start: usize) -> (r: usize)
    requires
        start <= v@.len(),
    ensures
        r == find_space(v@, start as int),
        start <= r <= v@.len(),
    decreases v@.len() - start,
{
    let mut i: usize = start;
    while i < v.len() && v[i] != ' '
        invariant
            start <= i <= v@.len(),
            find_space(v@, start as int) == find_space(v@, i as int),
        decreases v@.len() - i,
    {
        i = i + 1;
    }
    i
}

/// Splits on single spaces, mirroring `split_spaces`.
pub fn split_fields(v: Vec<char>) -> (r: Vec<Vec<char>>)
    ensures
        r.deep_view() == split_spaces(v@),
        r@.len() >= 1,
    decreases v@.len(),
{
    let n = v.len();
    let i = find_space_exec(&v, 0);
    if i >= n {
        let mut r: Vec<Vec<char>> = Vec::new();
        r.push(v);
        proof {
            assert(r.deep_view() =~~= split_spaces(r@[0]@));
        }
        r
    } else {
        let head = vec_subrange(&v, 0, i);
        let tail = vec_subrange(&v, i + 1, n);
        let rest = split_fields(tail);
        let mut r: Vec<Vec<char>> = Vec::new();
        r.push(head);
        let mut rest_mut = rest;
        r.append(&mut rest_mut);
        proof {
            assert(r.deep_view() =~~= seq![head@] + split_spaces(tail@));
        }
        r
    }
}

/// Reads a decimal `u32` field, mirroring `parse_u32`.
pub fn parse_u32_field(v: &Vec<char>) -> (r: Option<u32>)
    ensures
        r == parse_u32(v@),
{
    if v.len() == 0 {
        return None;
    }
    let mut acc: u32 = 0;
    let mut i: usize = 0;
    while i < v.len()
        invariant
            i <= v@.len(),
            digits_scan(v@, 0, 0) == digits_scan(v@, i as int, acc),
        decreases v@.len() - i,
    {
        let c = v[i];
        if c < '0' || c > '9' {
            return None;
        }
        let d = (c as u32) - ('0' as u32);
        let wide = (acc as u64) * 10 + (d as u64);
        if wide > u32::MAX as u64 {
            return None;
        }
        acc = wide as u32;
        i = i + 1;
    }
    Some(acc)
}

} // verus!
