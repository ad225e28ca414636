//! Plain text scanning: prefix test and substring search, used for the
//! repost heuristic and the suppression marker.

use vstd::prelude::*;

verus! {

/// The pattern `m` occurs in `s` at position `i`.
pub open spec fn occurs_at(s: Seq<char>, m: Seq<char>, i: int) -> bool {
    0 <= i && i + m.len() <= s.len() && s.subrange(i, i + m.len()) == m
}

/// The pattern `m` occurs somewhere in `s`.
pub open spec fn occurs_in(s: Seq<char>, m: Seq<char>) -> bool {
    exists|i: int| occurs_at(s, m, i)
}

/// `s` begins with the prefix `p`.
pub open spec fn has_prefix(s: Seq<char>, p: Seq<char>) -> bool {
    p.len() <= s.len() && s.subrange(0, p.len() as int) == p
}

/// Compares `m` against the characters of `s` starting at position `i`.
fn match_at(s: &str, m: &str, i: usize, s_len: usize, m_len: usize) -> (r: bool)
    requires
        s_len == s@.len(),
        m_len == m@.len(),
        i + m_len <= s_len,
    ensures
        r == occurs_at(s@, m@, i as int),
{
    let mut j: usize = 0;
    while j < m_len
        invariant
            0 <= j <= m_len,
            s_len == s@.len(),
            m_len == m@.len(),
            i + m_len <= s_len,
            forall|k: int| 0 <= k < j ==> s@[i + k] == m@[k],
        decreases m_len - j,
    {
        if s.get_char(i + j) != m.get_char(j) {
            proof {
                assert(s@.subrange(i as int, i + m@.len())[j as int] != m@[j as int]);
            }
            return false;
        }
        j = j + 1;
    }
    proof {
        assert(s@.subrange(i as int, i + m@.len()) =~= m@);
    }
    true
}

/// Whether `s` begins with `p`.
pub fn str_has_prefix(s: &str, p: &str) -> (r: bool)
    ensures
        r == has_prefix(s@, p@),
{
    let s_len = s.unicode_len();
    let p_len = p.unicode_len();
    if p_len > s_len {
        return false;
    }
    match_at(s, p, 0, s_len, p_len)
}

/// Whether `m` occurs anywhere in `s`.
pub fn str_contains(s: &str, m: &str) -> (r: bool)
    ensures
        r == occurs_in(s@, m@),
{
    let s_len = s.unicode_len();
    let m_len = m.unicode_len();
    if m_len > s_len {
        proof {
            assert(forall|i: int| !occurs_at(s@, m@, i));
        }
        return false;
    }
    if m_len == 0 {
        proof {
            assert(s@.subrange(0, 0) =~= m@);
            assert(occurs_at(s@, m@, 0));
        }
        return true;
    }
    let mut i: usize = 0;
    while i < s_len
        invariant
            0 <= i <= s_len,
            0 < m_len <= s_len,
            s_len == s@.len(),
            m_len == m@.len(),
            forall|k: int| 0 <= k < i ==> !occurs_at(s@, m@, k),
        decreases s_len - i,
    {
        if i <= s_len - m_len {
            if match_at(s, m, i, s_len, m_len) {
                proof {
                    assert(occurs_at(s@, m@, i as int));
                }
                return true;
            }
        }
        i = i + 1;
    }
    proof {
        assert forall|k: int| !occurs_at(s@, m@, k) by {
            if k >= s_len {
                assert(!(k + m@.len() <= s@.len()));
            }
        }
    }
    false
}

} // verus!
