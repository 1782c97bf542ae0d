//! Path-text normalization.
//!
//! A submitted path arrives as raw typed or pasted text. Before it is
//! handed to the image loader it is normalized: surrounding whitespace
//! is stripped, then up to one layer of matching surrounding quotes.
//! A separate check decides whether the normalized text names a
//! recognized image file, by its extension, case-insensitively.

use vstd::prelude::*;

verus! {

/// Whitespace stripped from the ends of a submitted path.
pub open spec fn is_space(c: char) -> bool {
    c == ' ' || c == '\t' || c == '\n' || c == '\r'
}

/// The two quote characters that may surround a dragged path.
pub open spec fn is_quote(c: char) -> bool {
    c == '\'' || c == '"'
}

/// ASCII lowercase of a character; identity outside 'A'..'Z'.
pub open spec fn lower(c: char) -> char {
    if c == 'A' {
        'a'
    } else if c == 'B' {
        'b'
    } else if c == 'C' {
        'c'
    } else if c == 'D' {
        'd'
    } else if c == 'E' {
        'e'
    } else if c == 'F' {
        'f'
    } else if c == 'G' {
        'g'
    } else if c == 'H' {
        'h'
    } else if c == 'I' {
        'i'
    } else if c == 'J' {
        'j'
    } else if c == 'K' {
        'k'
    } else if c == 'L' {
        'l'
    } else if c == 'M' {
        'm'
    } else if c == 'N' {
        'n'
    } else if c == 'O' {
        'o'
    } else if c == 'P' {
        'p'
    } else if c == 'Q' {
        'q'
    } else if c == 'R' {
        'r'
    } else if c == 'S' {
        's'
    } else if c == 'T' {
        't'
    } else if c == 'U' {
        'u'
    } else if c == 'V' {
        'v'
    } else if c == 'W' {
        'w'
    } else if c == 'X' {
        'x'
    } else if c == 'Y' {
        'y'
    } else if c == 'Z' {
        'z'
    } else {
        c
    }
}

/// The text with leading whitespace removed.
pub open spec fn trim_front(s: Seq<char>) -> Seq<char>
    decreases s.len(),
{
    if s.len() > 0 && is_space(s[0]) {
        trim_front(s.drop_first())
    } else {
        s
    }
}

/// The text with trailing whitespace removed.
pub open spec fn trim_back(s: Seq<char>) -> Seq<char>
    decreases s.len(),
{
    if s.len() > 0 && is_space(s[s.len() - 1]) {
        trim_back(s.drop_last())
    } else {
        s
    }
}

/// The text with whitespace removed from both ends.
pub open spec fn trimmed(s: Seq<char>) -> Seq<char> {
    trim_back(trim_front(s))
}

/// Up to one layer of matching surrounding quotes removed.
pub open spec fn unquoted(s: Seq<char>) -> Seq<char> {
    if s.len() >= 2 && is_quote(s[0]) && s[s.len() - 1] == s[0] {
        s.subrange(1, s.len() - 1)
    } else {
        s
    }
}

/// Full normalization of submitted path text: trim, then unquote.
pub open spec fn normalized(s: Seq<char>) -> Seq<char> {
    unquoted(trimmed(s))
}

/// The text ends with `pat`, comparing each character after ASCII
/// lowercasing. `pat` is expected already lowercase.
pub open spec fn ends_with_lower(s: Seq<char>, pat: Seq<char>) -> bool {
    s.len() >= pat.len() && (forall|k: int|
        0 <= k < pat.len() ==> lower(s[s.len() - pat.len() + k]) == pat[k])
}

/// The lowercase form of the text ends in a recognized image extension.
pub open spec fn is_image_path(s: Seq<char>) -> bool {
    ||| ends_with_lower(s, seq!['.', 'p', 'n', 'g'])
    ||| ends_with_lower(s, seq!['.', 'j', 'p', 'g'])
    ||| ends_with_lower(s, seq!['.', 'j', 'p', 'e', 'g'])
    ||| ends_with_lower(s, seq!['.', 'g', 'i', 'f'])
    ||| ends_with_lower(s, seq!['.', 'w', 'e', 'b', 'p'])
}

/// Runtime test for [`is_space`].
pub fn is_space_char(c: char) -> (r: bool)
    ensures
        r == is_space(c),
{
    c == ' ' || c == '\t' || c == '\n' || c == '\r'
}

/// Runtime ASCII lowercasing, matching [`lower`].
pub fn lower_char(c: char) -> (r: char)
    ensures
        r == lower(c),
{
    match c {
        'A' => 'a',
        'B' => 'b',
        'C' => 'c',
        'D' => 'd',
        'E' => 'e',
        'F' => 'f',
        'G' => 'g',
        'H' => 'h',
        'I' => 'i',
        'J' => 'j',
        'K' => 'k',
        'L' => 'l',
        'M' => 'm',
        'N' => 'n',
        'O' => 'o',
        'P' => 'p',
        'Q' => 'q',
        'R' => 'r',
        'S' => 's',
        'T' => 't',
        'U' => 'u',
        'V' => 'v',
        'W' => 'w',
        'X' => 'x',
        'Y' => 'y',
        'Z' => 'z',
        _ => c,
    }
}

/// The last four characters match `a b c d` after lowercasing.
#[verifier::loop_isolation(false)]
fn suffix4(s: &Vec<char>, a: char, b: char, c: char, d: char) -> (r: bool)
    ensures
        r == ends_with_lower(s@, seq![a, b, c, d]),
{
    if s.len() < 4 {
        return false;
    }
    let n = s.len();
    let r = lower_char(s[n - 4]) == a && lower_char(s[n - 3]) == b && lower_char(s[n - 2]) == c
        && lower_char(s[n - 1]) == d;
    proof {
        let pat = seq![a, b, c, d];
        if r {
            assert forall|k: int| 0 <= k < pat.len() implies lower(
                s@[s@.len() - pat.len() + k],
            ) == pat[k] by {
                if k == 0 {
                } else if k == 1 {
                } else if k == 2 {
                } else {
                    assert(k == 3);
                }
            }
        }
    }
    r
}

/// The last five characters match `a b c d e` after lowercasing.
#[verifier::loop_isolation(false)]
fn suffix5(s: &Vec<char>, a: char, b: char, c: char, d: char, e: char) -> (r: bool)
    ensures
        r == ends_with_lower(s@, seq![a, b, c, d, e]),
{
    if s.len() < 5 {
        return false;
    }
    let n = s.len();
    let r = lower_char(s[n - 5]) == a && lower_char(s[n - 4]) == b && lower_char(s[n - 3]) == c
        && lower_char(s[n - 2]) == d && lower_char(s[n - 1]) == e;
    proof {
        let pat = seq![a, b, c, d, e];
        if r {
            assert forall|k: int| 0 <= k < pat.len() implies lower(
                s@[s@.len() - pat.len() + k],
            ) == pat[k] by {
                if k == 0 {
                } else if k == 1 {
                } else if k == 2 {
                } else if k == 3 {
                } else {
                    assert(k == 4);
                }
            }
        }
    }
    r
}

/// Decide whether the text names a recognized image file by extension,
/// case-insensitively.
pub fn has_image_extension(path: &Vec<char>) -> (r: bool)
    ensures
        r == is_image_path(path@),
{
    suffix4(path, '.', 'p', 'n', 'g') || suffix4(path, '.', 'j', 'p', 'g') || suffix5(
        path,
        '.',
        'j',
        'p',
        'e',
        'g',
    ) || suffix4(path, '.', 'g', 'i', 'f') || suffix5(path, '.', 'w', 'e', 'b', 'p')
}

/// Normalize submitted path text: strip surrounding whitespace, then up
/// to one layer of matching surrounding quotes.
#[verifier::loop_isolation(false)]
pub fn normalize_path(text: &Vec<char>) -> (r: Vec<char>)
    ensures
        r@ == normalized(text@),
{
    let n = text.len();
    proof {
        assert(text@.subrange(0, n as int) =~= text@);
    }
    let mut i: usize = 0;
    while i < n && is_space_char(text[i])
        invariant
            0 <= i <= n,
            trim_front(text@) == trim_front(text@.subrange(i as int, n as int)),
        decreases n - i,
    {
        proof {
            let t = text@.subrange(i as int, n as int);
            assert(t.len() > 0 && is_space(t[0]));
            assert(t.drop_first() =~= text@.subrange(i as int + 1, n as int));
        }
        i += 1;
    }
    proof {
        assert(trim_front(text@) == text@.subrange(i as int, n as int));
    }
    let mut j: usize = n;
    while j > i && is_space_char(text[j - 1])
        invariant
            i <= j <= n,
            trim_back(text@.subrange(i as int, n as int)) == trim_back(
                text@.subrange(i as int, j as int),
            ),
        decreases j,
    {
        proof {
            let t = text@.subrange(i as int, j as int);
            assert(t.len() > 0 && is_space(t[t.len() - 1]));
            assert(t.drop_last() =~= text@.subrange(i as int, j as int - 1));
        }
        j -= 1;
    }
    proof {
        assert(trimmed(text@) == text@.subrange(i as int, j as int));
    }
    let mut lo = i;
    let mut hi = j;
    if hi - lo >= 2 {
        let first = text[lo];
        let last = text[hi - 1];
        if (first == '\'' || first == '"') && last == first {
            lo += 1;
            hi -= 1;
        }
    }
    proof {
        assert(normalized(text@) =~= text@.subrange(lo as int, hi as int));
    }
    let mut r: Vec<char> = Vec::new();
    let mut k = lo;
    while k < hi
        invariant
            lo <= k <= hi,
            r@ == text@.subrange(lo as int, k as int),
        decreases hi - k,
    {
        r.push(text[k]);
        proof {
            assert(r@ =~= text@.subrange(lo as int, k as int + 1));
        }
        k += 1;
    }
    r
}

} // verus!
