//! Character-level helpers on strings, each proved against a spec function.

use vstd::prelude::*;

verus! {

/// `i` is the position of the first `c` in `s`, or `s.len()` when there is none.
pub open spec fn is_first_index(s: Seq<char>, c: char, i: int) -> bool {
    &&& 0 <= i <= s.len()
    &&& forall|j: int| 0 <= j < i ==> s[j] != c
    &&& i < s.len() ==> s[i] == c
}

/// The position of the first `c` in `s`, or `s.len()` when `s` holds no `c`.
pub open spec fn index_of(s: Seq<char>, c: char) -> int {
    choose|i: int| is_first_index(s, c, i)
}

pub proof fn lemma_first_index_unique(s: Seq<char>, c: char, i: int, k: int)
    requires
        is_first_index(s, c, i),
        is_first_index(s, c, k),
    ensures
        i == k,
{
    if i < k {
        assert(s[i] != c);
    } else if k < i {
        assert(s[k] != c);
    }
}

pub proof fn lemma_index_of(s: Seq<char>, c: char, i: int)
    requires
        is_first_index(s, c, i),
    ensures
        index_of(s, c) == i,
{
    let k = index_of(s, c);
    assert(is_first_index(s, c, k));
    lemma_first_index_unique(s, c, i, k);
}

proof fn lemma_first_index_from(s: Seq<char>, c: char, i: int)
    requires
        0 <= i <= s.len(),
        forall|j: int| 0 <= j < i ==> s[j] != c,
    ensures
        exists|k: int| is_first_index(s, c, k),
    decreases s.len() - i,
{
    if i == s.len() || s[i] == c {
        assert(is_first_index(s, c, i));
    } else {
        lemma_first_index_from(s, c, i + 1);
    }
}

pub proof fn lemma_index_of_contains(s: Seq<char>, c: char)
    ensures
        is_first_index(s, c, index_of(s, c)),
        (index_of(s, c) < s.len()) == s.contains(c),
{
    lemma_first_index_from(s, c, 0);
    let k = index_of(s, c);
    if s.contains(c) {
        let w = choose|w: int| 0 <= w < s.len() && s[w] == c;
        assert(k <= w);
    }
}

/// Position of the first `c` in `s`, or its length in characters.
pub fn find_char(s: &str, c: char) -> (r: usize)
    ensures
        r == index_of(s@, c),
        r <= s@.len(),
        (r < s@.len()) == s@.contains(c),
{
    let n = s.unicode_len();
    let mut i: usize = 0;
    while i < n && s.get_char(i) != c
        invariant
            n == s@.len(),
            0 <= i <= n,
            forall|j: int| 0 <= j < i ==> s@[j] != c,
        decreases n - i,
    {
        i = i + 1;
    }
    proof {
        lemma_index_of(s@, c, i as int);
        lemma_index_of_contains(s@, c);
    }
    i
}

/// A new `String` holding the characters of `s` from `from` up to `to`.
pub fn substring(s: &str, from: usize, to: usize) -> (r: String)
    requires
        from <= to <= s@.len(),
    ensures
        r@ == s@.subrange(from as int, to as int),
{
    String::from_str(s.substring_char(from, to))
}

} // verus!
