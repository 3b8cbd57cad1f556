use vstd::prelude::*;
use vstd::string::*;

verus! {

/// Index of the first occurrence of `c` in `s`, or `-1` when `c` does not
/// occur.
pub open spec fn find_char(s: Seq<char>, c: char) -> int
    decreases s.len(),
{
    if s.len() == 0 {
        -1
    } else if s[0] == c {
        0
    } else {
        let rest = find_char(s.subrange(1, s.len() as int), c);
        if rest < 0 {
            -1
        } else {
            1 + rest
        }
    }
}

/// `find_char` returns `-1` exactly when `c` is absent, and otherwise the
/// smallest index holding `c`.
pub proof fn lemma_find_char(s: Seq<char>, c: char)
    ensures
        find_char(s, c) < 0 ==> forall|j: int| 0 <= j < s.len() ==> s[j] != c,
        find_char(s, c) >= 0 ==> {
            &&& 0 <= find_char(s, c) < s.len()
            &&& s[find_char(s, c)] == c
            &&& forall|j: int| 0 <= j < find_char(s, c) ==> s[j] != c
        },
    decreases s.len(),
{
    if s.len() == 0 {
    } else if s[0] == c {
    } else {
        let rest = s.subrange(1, s.len() as int);
        lemma_find_char(rest, c);
        let r = find_char(rest, c);
        if r < 0 {
            assert forall|j: int| 0 <= j < s.len() implies s[j] != c by {
                if j > 0 {
                    assert(rest[j - 1] == s[j]);
                }
            }
        } else {
            assert(s[1 + r] == rest[r]);
            assert forall|j: int| 0 <= j < 1 + r implies s[j] != c by {
                if j > 0 {
                    assert(rest[j - 1] == s[j]);
                }
            }
        }
    }
}

/// Finds the first occurrence of `c` in `s`.
pub fn find_char_in(s: &str, c: char) -> (r: Option<usize>)
    ensures
        match r {
            Some(i) => find_char(s@, c) == i as int,
            None => find_char(s@, c) < 0,
        },
{
    let n = s.unicode_len();
    let mut i: usize = 0;
    while i < n
        invariant
            i <= n,
            n == s@.len(),
            forall|j: int| 0 <= j < i ==> s@[j] != c,
        decreases n - i,
    {
        if s.get_char(i) == c {
            proof {
                lemma_find_char(s@, c);
            }
            return Some(i);
        }
        i += 1;
    }
    proof {
        lemma_find_char(s@, c);
    }
    None
}

/// The pieces of `s` between occurrences of the separator `c`, in order.
/// A string without the separator is a single piece; every separator ends
/// the piece before it, so `n` separators give `n + 1` pieces.
pub open spec fn split_char(s: Seq<char>, c: char) -> Seq<Seq<char>>
    decreases s.len(),
{
    let i = find_char(s, c);
    if i < 0 || i >= s.len() {
        seq![s]
    } else {
        seq![s.subrange(0, i)] + split_char(s.subrange(i + 1, s.len() as int), c)
    }
}

/// Splits `s` on every occurrence of `c`.
pub fn split_char_str(s: &str, c: char) -> (r: Vec<String>)
    ensures
        r@.map_values(|t: String| t@) == split_char(s@, c),
{
    let n = s.unicode_len();
    let mut out: Vec<String> = Vec::new();
    let mut start: usize = 0;
    let mut i: usize = 0;
    proof {
        assert(s@.subrange(0, n as int) =~= s@);
        assert(out@.map_values(|t: String| t@) =~= Seq::<Seq<char>>::empty());
        assert(out@.map_values(|t: String| t@) + split_char(s@, c) =~= split_char(s@, c));
    }
    while i < n
        invariant
            start <= i <= n,
            n == s@.len(),
            forall|j: int| start <= j < i ==> s@[j] != c,
            split_char(s@, c) == out@.map_values(|t: String| t@) + split_char(
                s@.subrange(start as int, n as int),
                c,
            ),
        decreases n - i,
    {
        if s.get_char(i) == c {
            let tok = String::from_str(s.substring_char(start, i));
            proof {
                let k = i as int - start as int;
                let rest = s@.subrange(start as int, n as int);
                lemma_find_char(rest, c);
                assert(rest[k] == s@[i as int]);
                assert forall|j: int| 0 <= j < k implies rest[j] != c by {
                    assert(rest[j] == s@[start + j]);
                }
                assert(find_char(rest, c) == k);
                let after = rest.subrange(k + 1, rest.len() as int);
                assert(split_char(rest, c) == seq![rest.subrange(0, k)] + split_char(after, c));
                assert(rest.subrange(0, k) =~= s@.subrange(start as int, i as int));
                assert(after =~= s@.subrange(i as int + 1, n as int));
                assert(out@.push(tok).map_values(|t: String| t@) =~= out@.map_values(
                    |t: String| t@,
                ).push(tok@));
                assert(out@.map_values(|t: String| t@).push(tok@) + split_char(
                    s@.subrange(i as int + 1, n as int),
                    c,
                ) =~= out@.map_values(|t: String| t@) + split_char(rest, c));
            }
            out.push(tok);
            start = i + 1;
        }
        i += 1;
    }
    let tok = String::from_str(s.substring_char(start, n));
    proof {
        let rest = s@.subrange(start as int, n as int);
        lemma_find_char(rest, c);
        assert forall|j: int| 0 <= j < rest.len() implies rest[j] != c by {
            assert(rest[j] == s@[start + j]);
        }
        assert(split_char(rest, c) == seq![rest]);
        assert(rest =~= tok@);
        assert(out@.push(tok).map_values(|t: String| t@) =~= out@.map_values(
            |t: String| t@,
        ).push(tok@));
        assert(out@.map_values(|t: String| t@).push(tok@) =~= out@.map_values(|t: String| t@)
            + seq![tok@]);
    }
    out.push(tok);
    out
}

/// Compares a `String` with a string slice by contents.
pub fn text_eq(a: &String, b: &str) -> (r: bool)
    ensures
        r == (a@ == b@),
{
    let bs = String::from_str(b);
    a.eq(&bs)
}

} // verus!
