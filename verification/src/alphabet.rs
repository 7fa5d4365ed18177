//! Alphabet extraction: the set of distinct characters of the reference text.

use vstd::prelude::*;

verus! {

/// Whether `c` occurs among the characters of `v`.
pub fn contains_char(v: &Vec<char>, c: char) -> (b: bool)
    ensures
        b == v@.contains(c),
{
    let mut i: usize = 0;
    while i < v.len()
        invariant
            i <= v@.len(),
            forall|j: int| 0 <= j < i ==> v@[j] != c,
        decreases v@.len() - i,
    {
        if v[i] == c {
            return true;
        }
        i = i + 1;
    }
    false
}

/// The distinct characters of `text`, each exactly once, usable as an
/// alphabet for uniform random indexing.  For a non-empty text the result
/// holds between 1 and `text@.len()` characters.
pub fn parse_all_chars(text: &str) -> (r: Vec<char>)
    ensures
        r@.no_duplicates(),
        forall|c: char| r@.contains(c) <==> text@.contains(c),
        r@.len() <= text@.len(),
        text@.len() > 0 ==> r@.len() >= 1,
{
    let mut found: Vec<char> = Vec::new();
    for c in it: text.chars()
        invariant
            it.seq() == text@,
            found@.no_duplicates(),
            forall|x: char| found@.contains(x) <==> it.seq().take(it.index() as int).contains(x),
    {
        let ghost i = it.index() as int;
        let ghost s = it.seq();
        let ghost f0 = found@;
        if !contains_char(&found, c) {
            found.push(c);
        }
        proof {
            assert(c == s[i]);
            assert(s.take(i + 1) =~= s.take(i).push(c));
            assert forall|x: char| found@.contains(x) <==> s.take(i + 1).contains(x) by {
                vstd::seq_lib::lemma_seq_contains_after_push(s.take(i), c, x);
                vstd::seq_lib::lemma_seq_contains_after_push(f0, c, x);
            }
        }
    }
    proof {
        assert(text@.take(text@.len() as int) =~= text@);
        lemma_distinct_len_bounds(found@, text@);
    }
    found
}

/// The number of distinct characters of a sequence is at most its length,
/// and at least 1 when the sequence is non-empty.
proof fn lemma_distinct_len_bounds(alpha: Seq<char>, text: Seq<char>)
    requires
        alpha.no_duplicates(),
        forall|c: char| alpha.contains(c) <==> text.contains(c),
    ensures
        alpha.len() <= text.len(),
        text.len() > 0 ==> alpha.len() >= 1,
{
    broadcast use vstd::seq_lib::seq_to_set_is_finite;

    alpha.unique_seq_to_set();
    text.lemma_cardinality_of_set();
    assert(alpha.to_set().subset_of(text.to_set()));
    vstd::set_lib::lemma_len_subset(alpha.to_set(), text.to_set());
    if text.len() > 0 {
        assert(alpha.contains(text[0]));
    }
}

} // verus!
