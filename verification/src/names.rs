//! Program-name normalization shared by the execution policy and the
//! `process_execute` grants: the basename (split on `/` and `\`), ASCII
//! lowercased, with one trailing `.exe` removed.

use vstd::prelude::*;
use vstd::string::*;

use crate::text::{chars_of, string_of};

verus! {

/// A path separator for program names (`/` or `\`).
pub open spec fn is_sep(c: char) -> bool {
    c == '/' || c == '\\'
}

/// Index of the last separator in `s`, or -1 when there is none.
pub open spec fn last_sep(s: Seq<char>) -> int
    decreases s.len(),
{
    if s.len() == 0 {
        -1
    } else if is_sep(s.last()) {
        s.len() - 1
    } else {
        last_sep(s.drop_last())
    }
}

/// The characters after the last separator.
pub open spec fn basename(s: Seq<char>) -> Seq<char> {
    s.subrange(last_sep(s) + 1, s.len() as int)
}

/// ASCII lowercase of one character.
pub open spec fn lower_char(c: char) -> char {
    if 'A' <= c && c <= 'Z' {
        ((c as u32) + 32) as char
    } else {
        c
    }
}

/// ASCII lowercase of a string.
pub open spec fn ascii_lower(s: Seq<char>) -> Seq<char> {
    Seq::new(s.len(), |i: int| lower_char(s[i]))
}

/// `.exe`
pub open spec fn exe_suffix() -> Seq<char> {
    seq!['.', 'e', 'x', 'e']
}

/// Remove one trailing `.exe`.
pub open spec fn strip_exe(s: Seq<char>) -> Seq<char> {
    if s.len() >= 4 && s.subrange(s.len() - 4, s.len() as int) == exe_suffix() {
        s.subrange(0, s.len() - 4)
    } else {
        s
    }
}

/// The canonical comparison form of a program name.
pub open spec fn normalized_program(s: Seq<char>) -> Seq<char> {
    strip_exe(ascii_lower(basename(s)))
}

proof fn lemma_last_sep_bounds(s: Seq<char>)
    ensures
        -1 <= last_sep(s) < s.len(),
        last_sep(s) >= 0 ==> is_sep(s[last_sep(s)]),
        forall|j: int| last_sep(s) < j < s.len() ==> !is_sep(#[trigger] s[j]),
    decreases s.len(),
{
    if s.len() > 0 {
        lemma_last_sep_bounds(s.drop_last());
        assert forall|j: int| last_sep(s) < j < s.len() implies !is_sep(#[trigger] s[j]) by {
            if j < s.len() - 1 {
                assert(s.drop_last()[j] == s[j]);
            }
        }
    }
}

fn last_sep_exec(s: &Vec<char>) -> (r: usize)
    ensures
        r == last_sep(s@) + 1,
{
    let mut i: usize = s.len();
    assert(s@.subrange(0, i as int) =~= s@);
    while i > 0
        invariant
            i <= s@.len(),
            last_sep(s@) == last_sep(s@.subrange(0, i as int)),
        decreases i,
    {
        let ghost t = s@.subrange(0, i as int);
        if s[i - 1] == '/' || s[i - 1] == '\\' {
            assert(t.last() == s@[i - 1]);
            return i;
        }
        assert(t.drop_last() =~= s@.subrange(0, i - 1));
        i = i - 1;
    }
    assert(s@.subrange(0, 0) =~= Seq::<char>::empty());
    0
}

/// Extract the basename of a program string, splitting on both `/` and `\`.
pub fn program_basename(program: &str) -> (b: &str)
    ensures
        b@ == basename(program@),
{
    let cs = chars_of(program);
    proof {
        assert(program@.subrange(0, program@.len() as int) =~= program@);
        lemma_last_sep_bounds(program@);
    }
    let start = last_sep_exec(&cs);
    program.substring_char(start, cs.len())
}

fn lower_char_exec(c: char) -> (r: char)
    ensures
        r == lower_char(c),
{
    if 'A' <= c && c <= 'Z' {
        let u: u32 = (c as u32) + 32;
        assert(u <= 0x7f);
        let r: char = ((u as u8) as char);
        assert(r == ((c as u32) + 32) as char);
        r
    } else {
        c
    }
}

/// The normalized program name: basename, ASCII lowercase, trailing `.exe`
/// removed.
pub fn normalize_program_name(program: &str) -> (n: String)
    ensures
        n@ == normalized_program(program@),
{
    let base = program_basename(program);
    let cs = chars_of(base);
    let mut low: Vec<char> = Vec::new();
    let mut i: usize = 0;
    while i < cs.len()
        invariant
            cs@ == basename(program@),
            i <= cs@.len(),
            low@ == ascii_lower(cs@).subrange(0, i as int),
        decreases cs@.len() - i,
    {
        low.push(lower_char_exec(cs[i]));
        assert(ascii_lower(cs@).subrange(0, i + 1) =~= ascii_lower(cs@).subrange(0, i as int).push(
            lower_char(cs@[i as int]),
        ));
        i = i + 1;
    }
    assert(low@ =~= ascii_lower(cs@));
    let n = low.len();
    if n >= 4 && low[n - 4] == '.' && low[n - 3] == 'e' && low[n - 2] == 'x' && low[n - 1] == 'e' {
        assert(low@.subrange(n - 4, n as int) =~= exe_suffix());
        let mut out: Vec<char> = Vec::new();
        let mut k: usize = 0;
        while k < n - 4
            invariant
                n == low@.len(),
                n >= 4,
                k <= n - 4,
                out@ == low@.subrange(0, k as int),
            decreases n - 4 - k,
        {
            out.push(low[k]);
            assert(low@.subrange(0, k + 1) == low@.subrange(0, k as int).push(low@[k as int]));
            k = k + 1;
        }
        string_of(out.as_slice())
    } else {
        assert(n >= 4 ==> low@.subrange(n - 4, n as int) != exe_suffix()) by {
            if n >= 4 && low@.subrange(n - 4, n as int) == exe_suffix() {
                assert(low@.subrange(n - 4, n as int)[0] == '.');
                assert(low@.subrange(n - 4, n as int)[1] == 'e');
                assert(low@.subrange(n - 4, n as int)[2] == 'x');
                assert(low@.subrange(n - 4, n as int)[3] == 'e');
            }
        }
        string_of(low.as_slice())
    }
}


/// ASCII lowercase of a string (other characters unchanged).
pub fn ascii_lowercase(s: &str) -> (r: String)
    ensures
        r@ == ascii_lower(s@),
{
    let cs = chars_of(s);
    let mut low: Vec<char> = Vec::new();
    let mut i: usize = 0;
    while i < cs.len()
        invariant
            cs@ == s@,
            i <= cs@.len(),
            low@ == ascii_lower(cs@).subrange(0, i as int),
        decreases cs@.len() - i,
    {
        low.push(lower_char_exec(cs[i]));
        assert(ascii_lower(cs@).subrange(0, i + 1) =~= ascii_lower(cs@).subrange(0, i as int).push(
            lower_char(cs@[i as int]),
        ));
        i = i + 1;
    }
    assert(low@ =~= ascii_lower(cs@));
    string_of(low.as_slice())
}

} // verus!
