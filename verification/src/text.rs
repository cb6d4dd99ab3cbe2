//! Questions about the characters of a string.

use vstd::prelude::*;
use vstd::std_specs::iter::IteratorSpec;

verus! {

/// The position of the first `c` in `s`.
pub open spec fn position_of(s: Seq<char>, c: char) -> Option<nat>
    decreases s.len(),
{
    if s.len() == 0 {
        None
    } else if s.first() == c {
        Some(0)
    } else {
        match position_of(s.drop_first(), c) {
            Some(at) => Some(at + 1),
            None => None,
        }
    }
}

/// `position_of` finds an occurrence, and the first one.
pub proof fn lemma_position_of(s: Seq<char>, c: char)
    ensures
        match position_of(s, c) {
            Some(at) => at < s.len() && s[at as int] == c && forall|i: int|
                0 <= i < at ==> s[i] != c,
            None => forall|i: int| 0 <= i < s.len() ==> s[i] != c,
        },
    decreases s.len(),
{
    if s.len() > 0 && s.first() != c {
        let rest = s.drop_first();
        lemma_position_of(rest, c);
        match position_of(rest, c) {
            Some(at) => {
                assert forall|i: int| 0 <= i < at + 1 implies s[i] != c by {
                    if i > 0 {
                        assert(rest[i - 1] == s[i]);
                    }
                }
            },
            None => {
                assert forall|i: int| 0 <= i < s.len() implies s[i] != c by {
                    if i > 0 {
                        assert(rest[i - 1] == s[i]);
                    }
                }
            },
        }
    }
}

/// The first occurrence of `c` from `from` on decides `position_of`.
pub proof fn lemma_position_found(s: Seq<char>, c: char, at: int)
    requires
        0 <= at < s.len(),
        s[at] == c,
        forall|i: int| 0 <= i < at ==> s[i] != c,
    ensures
        position_of(s, c) == Some(at as nat),
    decreases at,
{
    if at > 0 {
        let rest = s.drop_first();
        assert(s.first() == s[0]);
        assert forall|i: int| 0 <= i < at - 1 implies rest[i] != c by {
            assert(rest[i] == s[i + 1]);
        }
        lemma_position_found(rest, c, at - 1);
    }
}

/// Where nothing is `c`, `position_of` finds nothing.
pub proof fn lemma_position_absent(s: Seq<char>, c: char)
    requires
        forall|i: int| 0 <= i < s.len() ==> s[i] != c,
    ensures
        position_of(s, c) is None,
    decreases s.len(),
{
    if s.len() > 0 {
        let rest = s.drop_first();
        assert(s.first() == s[0]);
        assert forall|i: int| 0 <= i < rest.len() implies rest[i] != c by {
            assert(rest[i] == s[i + 1]);
        }
        lemma_position_absent(rest, c);
    }
}

/// Whether two strings hold the same characters.
pub fn same_text(a: &str, b: &str) -> (same: bool)
    ensures
        same == (a@ == b@),
{
    let n: usize = a.unicode_len();
    if n != b.unicode_len() {
        return false;
    }
    let mut others = b.chars();
    let chars = a.chars();
    for c in it: chars
        invariant
            it.seq() == a@,
            n == a@.len(),
            n == b@.len(),
            others.remaining() == b@.skip(it.index()),
            forall|j: int| 0 <= j < it.index() ==> a@[j] == b@[j],
    {
        match others.next() {
            Some(other) => {
                assert(b@.skip(it.index()).drop_first() =~= b@.skip(it.index() + 1));
                if c != other {
                    return false;
                }
            },
            None => {
                return false;
            },
        }
    }
    assert(a@ =~= b@);
    true
}

/// The position of the first `needle` in `s`.
pub fn find_char(s: &str, needle: char) -> (found: Option<usize>)
    ensures
        match found {
            Some(at) => position_of(s@, needle) == Some(at as nat),
            None => position_of(s@, needle) is None,
        },
{
    let n: usize = s.unicode_len();
    let mut at: usize = 0;
    let chars = s.chars();
    for c in it: chars
        invariant
            it.seq() == s@,
            n == s@.len(),
            at == it.index(),
            forall|j: int| 0 <= j < at ==> s@[j] != needle,
    {
        if c == needle {
            proof {
                lemma_position_found(s@, needle, at as int);
            }
            return Some(at);
        }
        at += 1;
    }
    proof {
        lemma_position_absent(s@, needle);
    }
    None
}

} // verus!
