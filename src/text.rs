//! Small text rules: the trailing `:port` of an endpoint string.

use vstd::prelude::*;
use vstd::string::*;

verus! {

/// Index of the last `c` in `s`, or `-1`.
pub open spec fn last_index_of(s: Seq<char>, c: char) -> int
    decreases s.len(),
{
    if s.len() == 0 {
        -1
    } else if s.last() == c {
        s.len() - 1
    } else {
        last_index_of(s.drop_last(), c)
    }
}

pub open spec fn is_digit(c: char) -> bool {
    '0' <= c <= '9'
}

/// Value of a string of decimal digits.
pub open spec fn decimal_value(s: Seq<char>) -> nat
    decreases s.len(),
{
    if s.len() == 0 {
        0
    } else {
        (decimal_value(s.drop_last()) * 10 + (s.last() as int - '0' as int)) as nat
    }
}

/// The port written after the last `:` of `s`, when that suffix is a non-empty
/// run of decimal digits whose value fits in 16 bits.
pub open spec fn trailing_port(s: Seq<char>) -> Option<u16> {
    let i = last_index_of(s, ':');
    let d = s.subrange(i + 1, s.len() as int);
    if i >= 0 && d.len() > 0 && (forall|k: int| 0 <= k < d.len() ==> is_digit(#[trigger] d[k]))
        && decimal_value(d) <= 65535 {
        Some(decimal_value(d) as u16)
    } else {
        None
    }
}

pub proof fn lemma_last_index_bounds(s: Seq<char>, c: char)
    ensures
        -1 <= last_index_of(s, c) < s.len(),
        last_index_of(s, c) >= 0 ==> s[last_index_of(s, c)] == c,
    decreases s.len(),
{
    if s.len() > 0 && s.last() != c {
        lemma_last_index_bounds(s.drop_last(), c);
    }
}

/// Finds the last `c` in `s`.
pub fn find_last_char(s: &str, c: char) -> (r: Option<usize>)
    ensures
        match r {
            Some(i) => last_index_of(s@, c) == i as int,
            None => last_index_of(s@, c) == -1,
        },
{
    let n = s.unicode_len();
    let mut i: usize = n;
    proof {
        assert(s@.subrange(0, n as int) =~= s@);
    }
    while i > 0
        invariant
            i <= n,
            n == s@.len(),
            last_index_of(s@, c) == last_index_of(s@.subrange(0, i as int), c),
        decreases i,
    {
        let ch = s.get_char(i - 1);
        let ghost pre = s@.subrange(0, i as int);
        proof {
            assert(pre.drop_last() =~= s@.subrange(0, i - 1));
        }
        if ch == c {
            return Some(i - 1);
        }
        i = i - 1;
    }
    None
}

/// Parses the port after the last `:` of `s`.
pub fn parse_trailing_port(s: &str) -> (r: Option<u16>)
    ensures
        r == trailing_port(s@),
{
    let n = s.unicode_len();
    let colon = find_last_char(s, ':');
    proof {
        lemma_last_index_bounds(s@, ':');
    }
    match colon {
        None => None,
        Some(ci) => {
            let start = ci + 1;
            let ghost d = s@.subrange(start as int, n as int);
            if start >= n {
                return None;
            }
            let mut acc: u32 = 0;
            let mut big = false;
            let mut j: usize = start;
            while j < n
                invariant
                    start <= j <= n,
                    start == ci + 1,
                    last_index_of(s@, ':') == ci as int,
                    n == s@.len(),
                    d == s@.subrange(start as int, n as int),
                    forall|k: int| 0 <= k < j - start ==> is_digit(#[trigger] d[k]),
                    big == (decimal_value(d.subrange(0, j - start)) > 65535),
                    !big ==> acc == decimal_value(d.subrange(0, j - start)),
                decreases n - j,
            {
                let ch = s.get_char(j);
                assert(ch == d[j - start]);
                if !('0' <= ch && ch <= '9') {
                    assert(!is_digit(d[j - start]));
                    return None;
                }
                let ghost prev = d.subrange(0, j - start);
                let ghost next = d.subrange(0, j + 1 - start);
                assert(next.drop_last() =~= prev);
                let digit = (ch as u32) - ('0' as u32);
                if !big {
                    acc = acc * 10 + digit;
                    if acc > 65535 {
                        big = true;
                    }
                }
                j = j + 1;
            }
            assert(d.subrange(0, n - start) =~= d);
            if big {
                None
            } else {
                Some(acc as u16)
            }
        },
    }
}

/// Index of the first `c` in `s`, or `-1`.
pub open spec fn first_index_of(s: Seq<char>, c: char) -> int
    decreases s.len(),
{
    if s.len() == 0 {
        -1
    } else if s[0] == c {
        0
    } else {
        let r = first_index_of(s.subrange(1, s.len() as int), c);
        if r < 0 {
            -1
        } else {
            r + 1
        }
    }
}

proof fn lemma_first_index_step(s: Seq<char>, c: char, i: int)
    requires
        0 <= i < s.len(),
        forall|k: int| 0 <= k < i ==> s[k] != c,
    ensures
        first_index_of(s, c) == (if s[i] == c {
            i
        } else {
            first_index_of(s.subrange(i + 1, s.len() as int), c) + (if first_index_of(
                s.subrange(i + 1, s.len() as int),
                c,
            ) < 0 {
                0int
            } else {
                i + 1
            })
        }),
    decreases i,
{
    if i > 0 {
        let t = s.subrange(1, s.len() as int);
        assert forall|k: int| 0 <= k < i - 1 implies t[k] != c by {
            assert(t[k] == s[k + 1]);
        }
        lemma_first_index_step(t, c, i - 1);
        assert(t.subrange(i, t.len() as int) =~= s.subrange(i + 1, s.len() as int));
    }
}

proof fn lemma_first_index_none(s: Seq<char>, c: char)
    requires
        forall|k: int| 0 <= k < s.len() ==> s[k] != c,
    ensures
        first_index_of(s, c) == -1,
    decreases s.len(),
{
    if s.len() > 0 {
        let t = s.subrange(1, s.len() as int);
        assert forall|k: int| 0 <= k < t.len() implies t[k] != c by {
            assert(t[k] == s[k + 1]);
        }
        lemma_first_index_none(t, c);
    }
}

/// Finds the first `c` in `s`.
pub fn find_first_char(s: &str, c: char) -> (r: Option<usize>)
    ensures
        match r {
            Some(i) => first_index_of(s@, c) == i as int && i < s@.len(),
            None => first_index_of(s@, c) == -1,
        },
{
    let n = s.unicode_len();
    let mut i: usize = 0;
    while i < n
        invariant
            i <= n,
            n == s@.len(),
            forall|k: int| 0 <= k < i ==> s@[k] != c,
        decreases n - i,
    {
        if s.get_char(i) == c {
            proof {
                lemma_first_index_step(s@, c, i as int);
            }
            return Some(i);
        }
        i = i + 1;
    }
    proof {
        lemma_first_index_none(s@, c);
    }
    None
}

/// Whether `s` begins with `prefix`.
pub fn starts_with_text(s: &str, prefix: &str) -> (r: bool)
    ensures
        r == (prefix@.len() <= s@.len() && s@.subrange(0, prefix@.len() as int) == prefix@),
{
    let n = s.unicode_len();
    let m = prefix.unicode_len();
    if m > n {
        return false;
    }
    let mut i: usize = 0;
    while i < m
        invariant
            i <= m <= n,
            n == s@.len(),
            m == prefix@.len(),
            forall|k: int| 0 <= k < i ==> s@[k] == prefix@[k],
        decreases m - i,
    {
        if s.get_char(i) != prefix.get_char(i) {
            assert(s@.subrange(0, m as int)[i as int] != prefix@[i as int]);
            return false;
        }
        i = i + 1;
    }
    assert(s@.subrange(0, m as int) =~= prefix@);
    true
}

} // verus!
