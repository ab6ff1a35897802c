//! Small verified string helpers: ASCII case folding, trimming, searching
//! and splitting, as needed for header-value and path handling.
//!
//! Header values reaching this library are visible ASCII plus space and
//! horizontal tab, so trimming considers exactly those two blank characters.

use vstd::prelude::*;
use vstd::string::StrSliceExecFns;

verus! {

/// A blank character inside a header value: space or horizontal tab.
pub open spec fn is_blank(c: char) -> bool {
    c == ' ' || c == '\t'
}

/// ASCII lower-casing of a single character; other characters are unchanged.
pub open spec fn char_lower(c: char) -> char {
    if 'A' <= c && c <= 'Z' {
        ((c as int) + 32) as char
    } else {
        c
    }
}

/// Two character sequences are equal up to ASCII case.
pub open spec fn eq_ignore_ascii_case(a: Seq<char>, b: Seq<char>) -> bool {
    a.len() == b.len() && (forall|i: int| 0 <= i < a.len() ==> char_lower(a[i]) == char_lower(b[i]))
}

/// The sequence with its leading blanks removed.
pub open spec fn trim_start(s: Seq<char>) -> Seq<char>
    decreases s.len(),
{
    if s.len() > 0 && is_blank(s[0]) {
        trim_start(s.drop_first())
    } else {
        s
    }
}

/// The sequence with its trailing blanks removed.
pub open spec fn trim_end(s: Seq<char>) -> Seq<char>
    decreases s.len(),
{
    if s.len() > 0 && is_blank(s[s.len() - 1]) {
        trim_end(s.drop_last())
    } else {
        s
    }
}

/// The sequence with leading and trailing blanks removed.
pub open spec fn spec_trim(s: Seq<char>) -> Seq<char> {
    trim_end(trim_start(s))
}

/// The position of the first occurrence of `c` in `s`, if any.
pub open spec fn find_first(s: Seq<char>, c: char) -> Option<int>
    decreases s.len(),
{
    if s.len() == 0 {
        None
    } else if s[0] == c {
        Some(0int)
    } else {
        match find_first(s.drop_first(), c) {
            None => None,
            Some(i) => Some(i + 1),
        }
    }
}

/// `find_first` returns the first occurrence: a position holding `c` with no
/// earlier one, or `None` when `c` does not occur at all.
pub proof fn lemma_find_first(s: Seq<char>, c: char)
    ensures
        match find_first(s, c) {
            Some(i) => 0 <= i < s.len() && s[i] == c && (forall|k: int| 0 <= k < i ==> s[k] != c),
            None => forall|k: int| 0 <= k < s.len() ==> s[k] != c,
        },
    decreases s.len(),
{
    if s.len() > 0 && s[0] != c {
        lemma_find_first(s.drop_first(), c);
        let rest = s.drop_first();
        match find_first(rest, c) {
            Some(i) => {
                assert(s[i + 1] == rest[i]);
                assert forall|k: int| 0 <= k < i + 1 implies s[k] != c by {
                    if k > 0 {
                        assert(s[k] == rest[k - 1]);
                    }
                }
            },
            None => {
                assert forall|k: int| 0 <= k < s.len() implies s[k] != c by {
                    if k > 0 {
                        assert(s[k] == rest[k - 1]);
                    }
                }
            },
        }
    }
}

/// A position holding `c`, with no earlier one, is what `find_first` returns.
pub proof fn lemma_find_first_is(s: Seq<char>, c: char, i: int)
    requires
        0 <= i < s.len(),
        s[i] == c,
        forall|k: int| 0 <= k < i ==> s[k] != c,
    ensures
        find_first(s, c) == Some(i),
    decreases s.len(),
{
    if s[0] != c {
        lemma_find_first_is(s.drop_first(), c, i - 1);
    }
}

/// Splitting on a separator: the pieces between the occurrences of `sep`
/// in `s`, in order.  A string without the separator yields itself as the
/// single piece.
pub open spec fn split_on(s: Seq<char>, sep: char) -> Seq<Seq<char>>
    decreases s.len(),
{
    match find_first(s, sep) {
        None => seq![s],
        Some(i) => {
            if 0 <= i < s.len() {
                seq![s.take(i)] + split_on(s.skip(i + 1), sep)
            } else {
                seq![s]
            }
        },
    }
}

/// Whether a character is a blank (space or horizontal tab).
pub fn blank_char(c: char) -> (r: bool)
    ensures
        r == is_blank(c),
{
    c == ' ' || c == '\t'
}

/// ASCII lower-casing of a single character.
pub fn lower_char(c: char) -> (r: char)
    ensures
        r == char_lower(c),
{
    if 'A' <= c && c <= 'Z' {
        let b: u8 = c as u8;
        (b + 32) as char
    } else {
        c
    }
}

/// Whether two strings hold the same characters.
pub fn str_eq(a: &str, b: &str) -> (r: bool)
    ensures
        r == (a@ == b@),
{
    let alen = a.unicode_len();
    let blen = b.unicode_len();
    if alen != blen {
        return false;
    }
    let mut i: usize = 0;
    while i < alen
        invariant
            alen == a@.len(),
            blen == b@.len(),
            alen == blen,
            0 <= i <= alen,
            forall|k: int| 0 <= k < i ==> a@[k] == b@[k],
        decreases alen - i,
    {
        if a.get_char(i) != b.get_char(i) {
            return false;
        }
        i = i + 1;
    }
    proof {
        assert(a@ =~= b@);
    }
    true
}

/// Whether two strings are equal up to ASCII case.
pub fn str_eq_ignore_case(a: &str, b: &str) -> (r: bool)
    ensures
        r == eq_ignore_ascii_case(a@, b@),
{
    let alen = a.unicode_len();
    let blen = b.unicode_len();
    if alen != blen {
        return false;
    }
    let mut i: usize = 0;
    while i < alen
        invariant
            alen == a@.len(),
            blen == b@.len(),
            alen == blen,
            0 <= i <= alen,
            forall|k: int| 0 <= k < i ==> char_lower(a@[k]) == char_lower(b@[k]),
        decreases alen - i,
    {
        let ca = lower_char(a.get_char(i));
        let cb = lower_char(b.get_char(i));
        if ca != cb {
            return false;
        }
        i = i + 1;
    }
    true
}

/// The byte-blind position of the first occurrence of `c` in `s`, if any,
/// counted in characters.
pub fn find_char(s: &str, c: char) -> (r: Option<usize>)
    ensures
        match r {
            Some(i) => find_first(s@, c) == Some(i as int),
            None => find_first(s@, c) is None,
        },
{
    let len = s.unicode_len();
    let mut i: usize = 0;
    while i < len
        invariant
            len == s@.len(),
            0 <= i <= len,
            forall|k: int| 0 <= k < i ==> s@[k] != c,
        decreases len - i,
    {
        if s.get_char(i) == c {
            proof {
                lemma_find_first_is(s@, c, i as int);
            }
            return Some(i);
        }
        i = i + 1;
    }
    proof {
        lemma_find_first(s@, c);
    }
    None
}

/// Trimming a prefix of blanks is the same as skipping it.
proof fn lemma_trim_start_skip(s: Seq<char>, i: int)
    requires
        0 <= i <= s.len(),
        forall|k: int| 0 <= k < i ==> is_blank(s[k]),
        i < s.len() ==> !is_blank(s[i]),
    ensures
        trim_start(s) == s.skip(i),
    decreases i,
{
    if i == 0 {
        assert(s.skip(0) =~= s);
    } else {
        lemma_trim_start_skip(s.drop_first(), i - 1);
        assert(s.drop_first().skip(i - 1) =~= s.skip(i));
    }
}

/// Trimming a suffix of blanks is the same as taking what precedes it.
proof fn lemma_trim_end_take(s: Seq<char>, j: int)
    requires
        0 <= j <= s.len(),
        forall|k: int| j <= k < s.len() ==> is_blank(s[k]),
        j > 0 ==> !is_blank(s[j - 1]),
    ensures
        trim_end(s) == s.take(j),
    decreases s.len() - j,
{
    if j == s.len() {
        assert(s.take(j) =~= s);
    } else {
        lemma_trim_end_take(s.drop_last(), j);
        assert(s.drop_last().take(j) =~= s.take(j));
    }
}

/// The string with leading and trailing blanks removed.
pub fn trim(s: &str) -> (r: &str)
    ensures
        r@ == spec_trim(s@),
{
    let len = s.unicode_len();
    let mut i: usize = 0;
    while i < len && blank_char(s.get_char(i))
        invariant
            len == s@.len(),
            0 <= i <= len,
            forall|k: int| 0 <= k < i ==> is_blank(s@[k]),
        decreases len - i,
    {
        i = i + 1;
    }
    proof {
        lemma_trim_start_skip(s@, i as int);
    }
    let mut j: usize = len;
    while j > i && blank_char(s.get_char(j - 1))
        invariant
            len == s@.len(),
            0 <= i <= j <= len,
            forall|k: int| 0 <= k < i ==> is_blank(s@[k]),
            forall|k: int| j <= k < len ==> is_blank(s@[k]),
        decreases j,
    {
        j = j - 1;
    }
    let r = s.substring_char(i, j);
    proof {
        let t = trim_start(s@);
        assert(t == s@.skip(i as int));
        if j > i {
            lemma_trim_end_take(t, j - i as int);
        } else {
            assert(forall|k: int| 0 <= k < t.len() ==> is_blank(t[k]));
            lemma_trim_end_take(t, 0);
        }
        assert(s@.skip(i as int).take(j - i as int) =~= s@.subrange(i as int, j as int));
    }
    r
}

/// The pieces of `s` after `start`, split on `sep`.
fn split_on_char_from<'a>(s: &'a str, sep: char, start: usize) -> (r: Vec<&'a str>)
    requires
        start <= s@.len(),
    ensures
        r@.len() == split_on(s@.skip(start as int), sep).len(),
        forall|i: int|
            0 <= i < r@.len() ==> r@[i]@ == split_on(s@.skip(start as int), sep)[i],
    decreases s@.len() - start,
{
    let len = s.unicode_len();
    let mut j = start;
    while j < len && s.get_char(j) != sep
        invariant
            len == s@.len(),
            start <= j <= len,
            forall|k: int| start <= k < j ==> s@[k] != sep,
        decreases len - j,
    {
        j = j + 1;
    }
    let ghost suffix = s@.skip(start as int);
    proof {
        if j < len {
            assert(suffix[j - start as int] == s@[j as int]);
            assert forall|k: int| 0 <= k < j - start as int implies suffix[k] != sep by {
                assert(suffix[k] == s@[k + start]);
            }
            lemma_find_first_is(suffix, sep, j - start as int);
        } else {
            assert forall|k: int| 0 <= k < suffix.len() implies suffix[k] != sep by {
                assert(suffix[k] == s@[k + start]);
            }
            lemma_find_first(suffix, sep);
        }
    }
    let piece = s.substring_char(start, j);
    proof {
        assert(piece@ =~= suffix.take(j - start as int));
    }
    if j == len {
        let mut r: Vec<&'a str> = Vec::new();
        r.push(piece);
        proof {
            assert(split_on(suffix, sep) =~= seq![suffix]);
            assert(piece@ =~= suffix);
        }
        r
    } else {
        let mut r = split_on_char_from(s, sep, j + 1);
        r.insert(0, piece);
        proof {
            assert(s@.skip(j + 1 as int) =~= suffix.skip(j - start as int + 1));
            assert(split_on(suffix, sep) =~= seq![suffix.take(j - start as int)]
                + split_on(suffix.skip(j - start as int + 1), sep));
        }
        r
    }
}

/// The pieces of `s` between occurrences of `sep`, in order, untrimmed.
pub fn split_on_char<'a>(s: &'a str, sep: char) -> (r: Vec<&'a str>)
    ensures
        r@.len() == split_on(s@, sep).len(),
        forall|i: int| 0 <= i < r@.len() ==> r@[i]@ == split_on(s@, sep)[i],
{
    proof {
        assert(s@.skip(0) =~= s@);
    }
    split_on_char_from(s, sep, 0)
}

} // verus!
