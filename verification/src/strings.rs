//! Verified string helpers: equality, substring search, replace-all and
//! splitting, each specified against a sequence-of-characters model.

use vstd::prelude::*;
use vstd::string::*;

verus! {

/// Character-wise equality of two string slices.
pub fn str_eq(a: &str, b: &str) -> (r: bool)
    ensures
        r == (a@ == b@),
{
    let alen = a.unicode_len();
    let blen = b.unicode_len();
    if alen != blen {
        return false;
    }
    let mut i: usize = 0;
    while i < alen
        invariant
            alen == a@.len(),
            blen == b@.len(),
            alen == blen,
            i <= alen,
            forall|j: int| 0 <= j < i ==> a@[j] == b@[j],
        decreases alen - i,
    {
        let ca = a.get_char(i);
        let cb = b.get_char(i);
        if ca != cb {
            return false;
        }
        i = i + 1;
    }
    proof {
        assert(a@ =~= b@);
    }
    true
}

/// The pattern `pat` occurs in `s` starting at index `i`.
pub open spec fn match_at(s: Seq<char>, pat: Seq<char>, i: int) -> bool {
    &&& 0 <= i
    &&& i + pat.len() <= s.len()
    &&& s.subrange(i, i + pat.len() as int) == pat
}

/// Index of the first occurrence of `pat` in `s`, if any.
pub open spec fn spec_find(s: Seq<char>, pat: Seq<char>) -> Option<int>
    decreases s.len(),
{
    if pat.len() > s.len() {
        None
    } else if pat.len() == 0 {
        Some(0)
    } else if s.subrange(0, pat.len() as int) == pat {
        Some(0)
    } else {
        match spec_find(s.skip(1), pat) {
            Some(i) => Some(i + 1),
            None => None,
        }
    }
}

pub proof fn lemma_spec_find_bounds(s: Seq<char>, pat: Seq<char>)
    ensures
        match spec_find(s, pat) {
            Some(i) => 0 <= i && i + pat.len() <= s.len(),
            None => true,
        },
    decreases s.len(),
{
    if pat.len() > s.len() {
    } else if pat.len() == 0 {
    } else if s.subrange(0, pat.len() as int) == pat {
    } else {
        lemma_spec_find_bounds(s.skip(1), pat);
    }
}

/// `spec_find` returns exactly the least index at which `pat` matches.
pub proof fn lemma_spec_find(s: Seq<char>, pat: Seq<char>)
    ensures
        match spec_find(s, pat) {
            Some(i) => match_at(s, pat, i) && (forall|k: int| 0 <= k < i ==> !match_at(s, pat, k)),
            None => forall|k: int| !match_at(s, pat, k),
        },
    decreases s.len(),
{
    if pat.len() > s.len() {
    } else if pat.len() == 0 {
        assert(s.subrange(0, 0) =~= pat);
        assert(match_at(s, pat, 0));
    } else if s.subrange(0, pat.len() as int) == pat {
        assert(match_at(s, pat, 0));
    } else {
        lemma_spec_find(s.skip(1), pat);
        assert forall|k: int| 0 <= k implies match_at(s.skip(1), pat, k) == match_at(
            s,
            pat,
            k + 1,
        ) by {
            if k + 1 + pat.len() <= s.len() {
                assert(s.skip(1).subrange(k, k + pat.len() as int) =~= s.subrange(
                    k + 1,
                    k + 1 + pat.len() as int,
                ));
            } else {
                assert(!match_at(s.skip(1), pat, k));
                assert(!match_at(s, pat, k + 1));
            }
        }
        assert(!match_at(s, pat, 0));
        match spec_find(s.skip(1), pat) {
            Some(i) => {
                assert(match_at(s.skip(1), pat, i));
                assert forall|k: int| 0 <= k < i + 1 implies !match_at(s, pat, k) by {
                    if k > 0 {
                        assert(!match_at(s.skip(1), pat, k - 1));
                    }
                }
            },
            None => {
                assert forall|k: int| !match_at(s, pat, k) by {
                    if k > 0 {
                        assert(!match_at(s.skip(1), pat, k - 1));
                    }
                }
            },
        }
    }
}

/// First occurrence of `pat` in `s`, as an index in characters.
pub fn find_sub(s: &str, pat: &str) -> (r: Option<usize>)
    ensures
        match r {
            Some(i) => spec_find(s@, pat@) == Some(i as int),
            None => spec_find(s@, pat@) is None,
        },
{
    proof {
        lemma_spec_find(s@, pat@);
    }
    let n = s.unicode_len();
    let m = pat.unicode_len();
    if m > n {
        return None;
    }
    let mut i: usize = 0;
    while i <= n - m
        invariant
            m <= n,
            n == s@.len(),
            m == pat@.len(),
            i <= n - m + 1,
            forall|k: int| 0 <= k < i ==> !match_at(s@, pat@, k),
        decreases n - m - i + 1,
    {
        let mut j: usize = 0;
        let mut ok = true;
        while j < m
            invariant
                m <= n,
                n == s@.len(),
                m == pat@.len(),
                i <= n - m,
                j <= m,
                ok == (forall|l: int| 0 <= l < j ==> s@[i + l] == pat@[l]),
            decreases m - j,
        {
            let ca = s.get_char(i + j);
            let cb = pat.get_char(j);
            if ca != cb {
                ok = false;
            }
            j = j + 1;
        }
        if ok {
            proof {
                assert(s@.subrange(i as int, i + m) =~= pat@);
                assert(match_at(s@, pat@, i as int));
                lemma_spec_find(s@, pat@);
            }
            return Some(i);
        }
        proof {
            if match_at(s@, pat@, i as int) {
                assert(forall|l: int|
                    0 <= l < m ==> s@.subrange(i as int, i + m)[l] == #[trigger] s@[i + l]);
                assert(false);
            }
        }
        i = i + 1;
    }
    proof {
        if spec_find(s@, pat@) is Some {
            let w = spec_find(s@, pat@)->Some_0;
            assert(match_at(s@, pat@, w));
            assert(false);
        }
    }
    None
}

/// Whether `pat` occurs anywhere in `s`.
pub fn contains_sub(s: &str, pat: &str) -> (r: bool)
    ensures
        r == (spec_find(s@, pat@) is Some),
{
    find_sub(s, pat).is_some()
}

/// `s` with every occurrence of `pat` replaced by `rep`, scanning left to
/// right over non-overlapping occurrences.
pub open spec fn spec_replace_all(s: Seq<char>, pat: Seq<char>, rep: Seq<char>) -> Seq<char>
    decreases s.len(),
    when pat.len() > 0
    via spec_replace_all_dec
{
    match spec_find(s, pat) {
        None => s,
        Some(i) => s.subrange(0, i) + rep + spec_replace_all(
            s.skip(i + pat.len() as int),
            pat,
            rep,
        ),
    }
}

#[via_fn]
proof fn spec_replace_all_dec(s: Seq<char>, pat: Seq<char>, rep: Seq<char>) {
    lemma_spec_find_bounds(s, pat);
}

/// Replace every occurrence of `pat` in `s` by `rep`.
pub fn replace_all(s: &str, pat: &str, rep: &str) -> (r: String)
    requires
        pat@.len() > 0,
    ensures
        r@ == spec_replace_all(s@, pat@, rep@),
{
    let n = s.unicode_len();
    let m = pat.unicode_len();
    let mut out = String::new();
    let mut pos: usize = 0;
    let mut done = false;
    proof {
        assert(s@.skip(0) =~= s@);
        assert(out@ + spec_replace_all(s@, pat@, rep@) =~= spec_replace_all(s@, pat@, rep@));
    }
    while !done
        invariant
            pos <= n,
            n == s@.len(),
            m == pat@.len(),
            m > 0,
            done ==> out@ == spec_replace_all(s@, pat@, rep@),
            !done ==> out@ + spec_replace_all(s@.skip(pos as int), pat@, rep@)
                == spec_replace_all(s@, pat@, rep@),
        decreases n - pos + (if done { 0int } else { 1int }),
    {
        let rem = s.substring_char(pos, n);
        proof {
            assert(rem@ =~= s@.skip(pos as int));
        }
        match find_sub(rem, pat) {
            Some(k) => {
                proof {
                    lemma_spec_find_bounds(rem@, pat@);
                }
                let ghost out0 = out@;
                out.append(s.substring_char(pos, pos + k));
                out.append(rep);
                proof {
                    assert(rem@.subrange(0, k as int) =~= s@.subrange(pos as int, pos + k));
                    assert(rem@.skip(k + m) =~= s@.skip(pos + k + m));
                    assert(out@ + spec_replace_all(s@.skip(pos + k + m), pat@, rep@) =~= out0
                        + spec_replace_all(rem@, pat@, rep@));
                }
                pos = pos + k + m;
            },
            None => {
                out.append(rem);
                pos = n;
                done = true;
            },
        }
    }
    out
}

/// Index of the first occurrence of the character `c` in `s`, if any.
pub open spec fn spec_find_char(s: Seq<char>, c: char) -> Option<int>
    decreases s.len(),
{
    if s.len() == 0 {
        None
    } else if s[0] == c {
        Some(0)
    } else {
        match spec_find_char(s.skip(1), c) {
            Some(i) => Some(i + 1),
            None => None,
        }
    }
}

pub proof fn lemma_spec_find_char(s: Seq<char>, c: char)
    ensures
        match spec_find_char(s, c) {
            Some(i) => 0 <= i < s.len() && s[i] == c && (forall|k: int| 0 <= k < i ==> s[k] != c),
            None => forall|k: int| 0 <= k < s.len() ==> s[k] != c,
        },
    decreases s.len(),
{
    if s.len() == 0 {
    } else if s[0] == c {
    } else {
        lemma_spec_find_char(s.skip(1), c);
        match spec_find_char(s.skip(1), c) {
            Some(i) => {
                assert(s[i + 1] == s.skip(1)[i]);
                assert forall|k: int| 0 <= k < i + 1 implies s[k] != c by {
                    if k >= 1 {
                        assert(s.skip(1)[k - 1] != c);
                    }
                }
            },
            None => {
                assert forall|k: int| 0 <= k < s.len() implies s[k] != c by {
                    if k >= 1 {
                        assert(s.skip(1)[k - 1] != c);
                    }
                }
            },
        }
    }
}

/// First occurrence of the character `c` in `s`.
pub fn find_char(s: &str, c: char) -> (r: Option<usize>)
    ensures
        match r {
            Some(i) => spec_find_char(s@, c) == Some(i as int),
            None => spec_find_char(s@, c) is None,
        },
{
    proof {
        lemma_spec_find_char(s@, c);
    }
    let n = s.unicode_len();
    let mut i: usize = 0;
    while i < n
        invariant
            n == s@.len(),
            i <= n,
            forall|k: int| 0 <= k < i ==> s@[k] != c,
        decreases n - i,
    {
        if s.get_char(i) == c {
            proof {
                lemma_spec_find_char(s@, c);
                match spec_find_char(s@, c) {
                    Some(w) => {
                        assert(w == i);
                    },
                    None => {
                        assert(false);
                    },
                }
            }
            return Some(i);
        }
        i = i + 1;
    }
    None
}

/// Whether the character `c` occurs in `s`.
pub fn contains_char(s: &str, c: char) -> (r: bool)
    ensures
        r == (spec_find_char(s@, c) is Some),
{
    find_char(s, c).is_some()
}

/// The segments of `s` between occurrences of the separator `c`; a string
/// without the separator is a single segment, and empty segments are kept.
pub open spec fn spec_split(s: Seq<char>, c: char) -> Seq<Seq<char>>
    decreases s.len(),
    via spec_split_dec
{
    match spec_find_char(s, c) {
        None => seq![s],
        Some(i) => seq![s.subrange(0, i)] + spec_split(s.skip(i + 1), c),
    }
}

#[via_fn]
proof fn spec_split_dec(s: Seq<char>, c: char) {
    lemma_spec_find_char(s, c);
}

pub proof fn lemma_split_nonempty(s: Seq<char>, c: char)
    ensures
        spec_split(s, c).len() >= 1,
{
    lemma_spec_find_char(s, c);
}

/// Split `s` on the character `c`.
pub fn split_char(s: &str, c: char) -> (parts: Vec<String>)
    ensures
        parts@.map_values(|t: String| t@) == spec_split(s@, c),
{
    let n = s.unicode_len();
    let mut parts: Vec<String> = Vec::new();
    let mut pos: usize = 0;
    let mut done = false;
    proof {
        assert(s@.skip(0) =~= s@);
        assert(parts@.map_values(|t: String| t@) + spec_split(s@, c) =~= spec_split(s@, c));
    }
    while !done
        invariant
            pos <= n,
            n == s@.len(),
            done ==> parts@.map_values(|t: String| t@) == spec_split(s@, c),
            !done ==> parts@.map_values(|t: String| t@) + spec_split(s@.skip(pos as int), c)
                == spec_split(s@, c),
        decreases n - pos + (if done { 0int } else { 1int }),
    {
        let rem = s.substring_char(pos, n);
        proof {
            assert(rem@ =~= s@.skip(pos as int));
        }
        let ghost prev = parts@.map_values(|t: String| t@);
        match find_char(rem, c) {
            Some(k) => {
                proof {
                    lemma_spec_find_char(rem@, c);
                }
                let piece = s.substring_char(pos, pos + k).to_owned();
                parts.push(piece);
                proof {
                    assert(rem@.subrange(0, k as int) =~= s@.subrange(pos as int, pos + k));
                    assert(rem@.skip(k + 1) =~= s@.skip(pos + k + 1));
                    assert(parts@.map_values(|t: String| t@) =~= prev + seq![
                        s@.subrange(pos as int, pos + k),
                    ]);
                    assert(prev + spec_split(s@.skip(pos as int), c) =~= (prev + seq![
                        s@.subrange(pos as int, pos + k),
                    ]) + spec_split(s@.skip(pos + k + 1), c));
                }
                pos = pos + k + 1;
            },
            None => {
                let piece = rem.to_owned();
                parts.push(piece);
                proof {
                    assert(parts@.map_values(|t: String| t@) =~= prev + seq![
                        s@.skip(pos as int),
                    ]);
                    assert(prev + spec_split(s@.skip(pos as int), c) =~= parts@.map_values(
                        |t: String| t@,
                    ));
                }
                pos = n;
                done = true;
            },
        }
    }
    parts
}

/// Two string slices concatenated into an owned string.
pub fn concat_str(a: &str, b: &str) -> (r: String)
    ensures
        r@ == a@ + b@,
{
    let mut out = a.to_owned();
    out.append(b);
    out
}

} // verus!
