//! Plain-text helpers: lexicographic comparison of lines, substring search,
//! and splitting off the first line of a file's content.

use vstd::prelude::*;

verus! {

/// Strict lexicographic order on character sequences: `a` comes before `b`
/// when, at the first position where they differ, `a` holds the smaller
/// character, or when `a` is a proper prefix of `b`.
pub open spec fn lex_lt(a: Seq<char>, b: Seq<char>) -> bool
    decreases a.len(),
{
    if b.len() == 0 {
        false
    } else if a.len() == 0 {
        true
    } else if a[0] != b[0] {
        a[0] < b[0]
    } else {
        lex_lt(a.skip(1), b.skip(1))
    }
}

/// Decides `lex_lt(a@, b@)` by walking both strings character by character.
pub fn lex_lt_exec(a: &str, b: &str) -> (r: bool)
    ensures
        r == lex_lt(a@, b@),
{
    let a_len = a.unicode_len();
    let b_len = b.unicode_len();
    let mut i: usize = 0;
    proof {
        assert(a@.skip(0) =~= a@);
        assert(b@.skip(0) =~= b@);
    }
    loop
        invariant
            i <= a_len,
            i <= b_len,
            a_len == a@.len(),
            b_len == b@.len(),
            lex_lt(a@, b@) == lex_lt(a@.skip(i as int), b@.skip(i as int)),
        decreases a_len - i,
    {
        if i >= b_len {
            proof {
                assert(b@.skip(i as int).len() == 0);
            }
            return false;
        }
        if i >= a_len {
            proof {
                assert(a@.skip(i as int).len() == 0);
                assert(b@.skip(i as int).len() > 0);
            }
            return true;
        }
        let ca = a.get_char(i);
        let cb = b.get_char(i);
        if ca != cb {
            proof {
                assert(a@.skip(i as int)[0] == a@[i as int]);
                assert(b@.skip(i as int)[0] == b@[i as int]);
            }
            return ca < cb;
        }
        proof {
            assert(a@.skip(i as int)[0] == b@.skip(i as int)[0]);
            assert(a@.skip(i as int).skip(1) =~= a@.skip(i as int + 1));
            assert(b@.skip(i as int).skip(1) =~= b@.skip(i as int + 1));
        }
        i = i + 1;
    }
}

/// The needle occurs in the haystack starting at position `i`.
pub open spec fn contains_at(hay: Seq<char>, i: int, needle: Seq<char>) -> bool {
    0 <= i && i + needle.len() <= hay.len() && hay.subrange(i, i + needle.len()) == needle
}

/// The needle occurs somewhere in the haystack as a contiguous substring.
pub open spec fn contains_seq(hay: Seq<char>, needle: Seq<char>) -> bool {
    exists|i: int| contains_at(hay, i, needle)
}

/// Checks whether the needle occurs at position `i` of the haystack.
fn match_at(hay: &str, i: usize, needle: &str) -> (r: bool)
    requires
        i + needle@.len() <= hay@.len(),
    ensures
        r == contains_at(hay@, i as int, needle@),
{
    let hay_len = hay.unicode_len();
    let n = needle.unicode_len();
    let mut j: usize = 0;
    while j < n
        invariant
            j <= n,
            n == needle@.len(),
            hay_len == hay@.len(),
            i + n <= hay_len,
            forall|t: int| 0 <= t < j ==> hay@[i + t] == needle@[t],
        decreases n - j,
    {
        let ch = hay.get_char(i + j);
        let cn = needle.get_char(j);
        if ch != cn {
            proof {
                assert(hay@.subrange(i as int, i + n) != needle@) by {
                    assert(hay@.subrange(i as int, i + n)[j as int] == hay@[i + j]);
                }
            }
            return false;
        }
        j = j + 1;
    }
    proof {
        assert(hay@.subrange(i as int, i + n) =~= needle@);
    }
    true
}

/// Decides `contains_seq(hay@, needle@)` by a forward scan.
pub fn contains_str(hay: &str, needle: &str) -> (r: bool)
    ensures
        r == contains_seq(hay@, needle@),
{
    let hay_len = hay.unicode_len();
    let n = needle.unicode_len();
    if n > hay_len {
        proof {
            assert(forall|i: int| !contains_at(hay@, i, needle@));
        }
        return false;
    }
    let mut i: usize = 0;
    loop
        invariant
            hay_len == hay@.len(),
            n == needle@.len(),
            n <= hay_len,
            i <= hay_len - n,
            forall|t: int| 0 <= t < i ==> !contains_at(hay@, t, needle@),
        decreases hay_len - n - i,
    {
        if match_at(hay, i, needle) {
            return true;
        }
        if i == hay_len - n {
            proof {
                assert(forall|t: int| contains_at(hay@, t, needle@) ==> 0 <= t <= i);
            }
            return false;
        }
        i = i + 1;
    }
}

/// The characters of `s` before its first newline; all of `s` when it has
/// no newline.
pub open spec fn first_line(s: Seq<char>) -> Seq<char>
    decreases s.len(),
{
    if s.len() == 0 {
        s
    } else if s[0] == '\n' {
        Seq::empty()
    } else {
        seq![s[0]] + first_line(s.skip(1))
    }
}

/// The first line of `p + "\n" + rest` is exactly `p`, whenever `p` itself
/// holds no newline.
pub proof fn lemma_first_line_of_concat(p: Seq<char>, rest: Seq<char>)
    requires
        !p.contains('\n'),
    ensures
        first_line(p + seq!['\n'] + rest) == p,
    decreases p.len(),
{
    let s = p + seq!['\n'] + rest;
    if p.len() == 0 {
        assert(s[0] == '\n');
        assert(first_line(s) =~= p);
    } else {
        assert(p[0] != '\n') by {
            if p[0] == '\n' {
                assert(p.contains('\n'));
            }
        }
        assert(s[0] == p[0]);
        assert(!p.skip(1).contains('\n')) by {
            if p.skip(1).contains('\n') {
                let k = choose|k: int| 0 <= k < p.skip(1).len() && p.skip(1)[k] == '\n';
                assert(p[k + 1] == '\n');
                assert(p.contains('\n'));
            }
        }
        assert(s.skip(1) =~= p.skip(1) + seq!['\n'] + rest);
        lemma_first_line_of_concat(p.skip(1), rest);
        assert(first_line(s) =~= p);
    }
}

/// Lexicographic order is trichotomous: `a` is not below `b` exactly when
/// `b` is below `a` or the two are equal.
pub proof fn lemma_lex_trichotomy(a: Seq<char>, b: Seq<char>)
    ensures
        !lex_lt(a, b) <==> (lex_lt(b, a) || a == b),
    decreases a.len(),
{
    if b.len() == 0 {
        if a.len() == 0 {
            assert(a =~= b);
        } else {
            assert(a.len() != b.len());
        }
    } else if a.len() == 0 {
        assert(a.len() != b.len());
        assert(a != b);
    } else if a[0] != b[0] {
        assert(a != b) by {
            if a == b {
                assert(a[0] == b[0]);
            }
        }
    } else {
        lemma_lex_trichotomy(a.skip(1), b.skip(1));
        if a.skip(1) == b.skip(1) {
            assert forall|i: int| 0 <= i < a.len() implies a[i] == b[i] by {
                if i >= 1 {
                    assert(a.skip(1)[i - 1] == b.skip(1)[i - 1]);
                }
            }
            assert(a =~= b);
        }
        if a == b {
            assert(a.skip(1) =~= b.skip(1));
        }
    }
}

} // verus!
