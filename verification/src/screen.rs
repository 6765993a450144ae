//! Text screening used by the audit gate: lowercase folding and substring
//! search over fixed phrase lists.

use vstd::prelude::*;
use vstd::string::StrSliceExecFns;
use crate::hashes::push_char;

verus! {

/// The ASCII lowercase of a character; other characters are unchanged.
pub open spec fn lower_char(c: char) -> char {
    if c == 'A' { 'a' } else if c == 'B' { 'b' } else if c == 'C' { 'c' } else if c == 'D' { 'd' } else if c == 'E' { 'e' } else if c == 'F' { 'f' } else if c == 'G' { 'g' } else if c == 'H' { 'h' } else if c == 'I' { 'i' } else if c == 'J' { 'j' } else if c == 'K' { 'k' } else if c == 'L' { 'l' } else if c == 'M' { 'm' } else if c == 'N' { 'n' } else if c == 'O' { 'o' } else if c == 'P' { 'p' } else if c == 'Q' { 'q' } else if c == 'R' { 'r' } else if c == 'S' { 's' } else if c == 'T' { 't' } else if c == 'U' { 'u' } else if c == 'V' { 'v' } else if c == 'W' { 'w' } else if c == 'X' { 'x' } else if c == 'Y' { 'y' } else if c == 'Z' { 'z' } else { c }
}

/// The ASCII lowercase of a text.
pub open spec fn ascii_fold(s: Seq<char>) -> Seq<char> {
    Seq::new(s.len(), |i: int| lower_char(s[i]))
}

/// Whether `needle` occurs in `hay`.
pub open spec fn is_substring(hay: Seq<char>, needle: Seq<char>) -> bool {
    exists|k: int| 0 <= k <= hay.len() - needle.len()
        && #[trigger] hay.subrange(k, k + needle.len()) == needle
}

/// The ASCII lowercase of a character.
pub fn lower_char_exec(c: char) -> (r: char)
    ensures
        r == lower_char(c),
{
    match c {
        'A' => 'a',
        'B' => 'b',
        'C' => 'c',
        'D' => 'd',
        'E' => 'e',
        'F' => 'f',
        'G' => 'g',
        'H' => 'h',
        'I' => 'i',
        'J' => 'j',
        'K' => 'k',
        'L' => 'l',
        'M' => 'm',
        'N' => 'n',
        'O' => 'o',
        'P' => 'p',
        'Q' => 'q',
        'R' => 'r',
        'S' => 's',
        'T' => 't',
        'U' => 'u',
        'V' => 'v',
        'W' => 'w',
        'X' => 'x',
        'Y' => 'y',
        'Z' => 'z',
        _ => c,
    }
}

/// The ASCII lowercase of a string.
pub fn fold_lower(s: &str) -> (r: String)
    ensures
        r@ == ascii_fold(s@),
{
    let n = s.unicode_len();
    let mut r = String::new();
    let mut i: usize = 0;
    while i < n
        invariant
            n == s@.len(),
            i <= n,
            r@ == ascii_fold(s@).take(i as int),
        decreases n - i,
    {
        let c = lower_char_exec(s.get_char(i));
        push_char(&mut r, c);
        proof {
            assert(r@ =~= ascii_fold(s@).take(i + 1));
        }
        i += 1;
    }
    proof {
        assert(ascii_fold(s@).take(n as int) =~= ascii_fold(s@));
    }
    r
}

/// Decides whether `needle` occurs in `hay`.
pub fn str_contains(hay: &str, needle: &str) -> (r: bool)
    ensures
        r == is_substring(hay@, needle@),
{
    let nh = hay.unicode_len();
    let nn = needle.unicode_len();
    if nn > nh {
        proof {
            if is_substring(hay@, needle@) {
                let k = choose|k: int| 0 <= k <= hay@.len() - needle@.len()
                    && #[trigger] hay@.subrange(k, k + needle@.len()) == needle@;
            }
        }
        return false;
    }
    let mut k: usize = 0;
    while k <= nh - nn
        invariant
            nh == hay@.len(),
            nn == needle@.len(),
            nn <= nh,
            k <= nh - nn + 1,
            forall|kk: int| 0 <= kk < k
                ==> #[trigger] hay@.subrange(kk, kk + needle@.len()) != needle@,
        decreases nh - nn - k + 1,
    {
        let mut j: usize = 0;
        let mut hit = true;
        while j < nn
            invariant
                nh == hay@.len(),
                nn == needle@.len(),
                nn <= nh,
                k <= nh - nn,
                j <= nn,
                hit == forall|jj: int| 0 <= jj < j ==> hay@[k + jj] == needle@[jj],
            decreases nn - j,
        {
            let hc = hay.get_char(k + j);
            let nc = needle.get_char(j);
            proof {
                if hit && hc != nc {
                    assert(hay@[k + j] != needle@[j as int]);
                }
            }
            hit = hit && hc == nc;
            j += 1;
        }
        if hit {
            proof {
                assert(hay@.subrange(k as int, k + needle@.len()) =~= needle@);
            }
            return true;
        }
        proof {
            let kk = k as int;
            if hay@.subrange(kk, kk + needle@.len()) == needle@ {
                let jj = choose|jj: int| 0 <= jj < nn && hay@[kk + jj] != needle@[jj];
                assert(hay@.subrange(kk, kk + needle@.len())[jj] == hay@[kk + jj]);
            }
        }
        k += 1;
    }
    proof {
        if is_substring(hay@, needle@) {
            let kk = choose|kk: int| 0 <= kk <= hay@.len() - needle@.len()
                && #[trigger] hay@.subrange(kk, kk + needle@.len()) == needle@;
            assert(kk < k);
        }
    }
    false
}

} // verus!
