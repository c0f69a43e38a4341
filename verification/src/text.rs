use vstd::prelude::*;

verus! {

/// The view of a vector of owned string pairs: the sequence of the pairs'
/// character sequences.
pub open spec fn pairs_view(s: Seq<(String, String)>) -> Seq<(Seq<char>, Seq<char>)> {
    s.map_values(|p: (String, String)| (p.0@, p.1@))
}

/// Compares two string slices by their characters.
pub fn str_eq(a: &str, b: &str) -> (r: bool)
    ensures
        r == (a@ == b@),
{
    let sa: String = a.to_owned();
    let sb: String = b.to_owned();
    sa == sb
}

/// True when `c` occurs in `s`.
pub open spec fn has_char(s: Seq<char>, c: char) -> bool {
    exists|i: int| 0 <= i < s.len() && s[i] == c
}

/// True when `i` is the position of the first occurrence of `c` in `s`.
pub open spec fn is_first_char_at(s: Seq<char>, c: char, i: int) -> bool {
    &&& 0 <= i < s.len()
    &&& s[i] == c
    &&& forall|j: int| 0 <= j < i ==> s[j] != c
}

/// The position of the first occurrence of `c` in `s`; meaningful only when
/// `has_char(s, c)` holds.
pub open spec fn first_char_at(s: Seq<char>, c: char) -> int {
    choose|i: int| is_first_char_at(s, c, i)
}

/// A first occurrence exists whenever any occurrence does.
pub proof fn lemma_first_char_exists(s: Seq<char>, c: char)
    requires
        has_char(s, c),
    ensures
        is_first_char_at(s, c, first_char_at(s, c)),
{
    let k = choose|i: int| 0 <= i < s.len() && s[i] == c;
    lemma_first_char_exists_below(s, c, k);
}

proof fn lemma_first_char_exists_below(s: Seq<char>, c: char, k: int)
    requires
        0 <= k < s.len(),
        s[k] == c,
    ensures
        is_first_char_at(s, c, first_char_at(s, c)),
    decreases k,
{
    if exists|j: int| 0 <= j < k && s[j] == c {
        let j = choose|j: int| 0 <= j < k && s[j] == c;
        lemma_first_char_exists_below(s, c, j);
    } else {
        assert(is_first_char_at(s, c, k));
        let w = choose|i: int| is_first_char_at(s, c, i);
        assert(is_first_char_at(s, c, w));
    }
}

/// The first occurrence position is unique.
pub proof fn lemma_first_char_unique(s: Seq<char>, c: char, i: int, j: int)
    requires
        is_first_char_at(s, c, i),
        is_first_char_at(s, c, j),
    ensures
        i == j,
{
}

/// How a file name splits at its first `.`: the stem before it and the
/// extension after it, or nothing when the name holds no `.` at all.
pub open spec fn split_name(s: Seq<char>) -> Option<(Seq<char>, Seq<char>)> {
    if has_char(s, '.') {
        let i = first_char_at(s, '.');
        Some((s.take(i), s.skip(i + 1)))
    } else {
        None
    }
}

/// Splits a file name at the first `.` into stem and extension, as the
/// scheme store expects file names to be shaped.
pub fn split_file_name(name: &str) -> (r: Option<(String, String)>)
    ensures
        match r {
            Some(p) => {
                &&& split_name(name@) == Some((p.0@, p.1@))
            },
            None => split_name(name@) is None,
        },
{
    let n = name.unicode_len();
    let mut i: usize = 0;
    while i < n
        invariant
            n == name@.len(),
            0 <= i <= n,
            forall|j: int| 0 <= j < i ==> name@[j] != '.',
        decreases n - i,
    {
        if name.get_char(i) == '.' {
            proof {
                assert(is_first_char_at(name@, '.', i as int));
                lemma_first_char_exists(name@, '.');
                lemma_first_char_unique(name@, '.', i as int, first_char_at(name@, '.'));
            }
            let stem = name.substring_char(0, i).to_owned();
            let ext = name.substring_char(i + 1, n).to_owned();
            proof {
                assert(name@.take(i as int) =~= name@.subrange(0, i as int));
                assert(name@.skip(i as int + 1) =~= name@.subrange(i as int + 1, n as int));
            }
            return Some((stem, ext));
        }
        i = i + 1;
    }
    None
}

} // verus!
