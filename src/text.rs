//! Case-insensitive substring matching, the semantics of `name ILIKE '%q%'`.

use vstd::prelude::*;

verus! {

/// The lowercase form of a string, as std's `str::to_lowercase` computes it.
pub uninterp spec fn lower_of(s: Seq<char>) -> Seq<char>;

/// Whether `needle` occurs as a contiguous run inside `hay`.
pub open spec fn contains_run(hay: Seq<char>, needle: Seq<char>) -> bool {
    exists|i: int|
        0 <= i && i + needle.len() <= hay.len() && #[trigger] hay.subrange(i, i + needle.len())
            == needle
}

/// Whether `name` matches the pattern `'%' + query + '%'` with case ignored.
pub open spec fn ilike(name: Seq<char>, query: Seq<char>) -> bool {
    contains_run(lower_of(name), lower_of(query))
}

/// Relies on `str::to_lowercase`: its result depends on the characters alone,
/// and the empty string stays empty.
#[verifier::external_body]
fn lowercase_chars(s: &str) -> (r: Vec<char>)
    ensures
        r@ == lower_of(s@),
        s@.len() == 0 ==> r@.len() == 0,
{
    s.to_lowercase().chars().collect()
}

/// Whether `needle` occurs as a contiguous run inside `hay`.
pub fn contains_chars(hay: &Vec<char>, needle: &Vec<char>) -> (r: bool)
    ensures
        r == contains_run(hay@, needle@),
{
    let h = hay.len();
    let n = needle.len();
    if n > h {
        proof {
            assert forall|i: int| 0 <= i && i + n <= h implies #[trigger] hay@.subrange(
                i,
                i + needle@.len(),
            ) != needle@ by {}
        }
        return false;
    }
    let mut i: usize = 0;
    while i <= h - n
        invariant
            h == hay@.len(),
            n == needle@.len(),
            n <= h,
            i <= h - n + 1,
            forall|k: int|
                0 <= k < i ==> #[trigger] hay@.subrange(k, k + needle@.len()) != needle@,
        decreases h - n + 1 - i,
    {
        let mut j: usize = 0;
        let mut same = true;
        while j < n && same
            invariant
                h == hay@.len(),
                n == needle@.len(),
                i + n <= h,
                j <= n,
                same ==> forall|m: int| 0 <= m < j ==> hay@[i + m] == needle@[m],
                !same ==> hay@.subrange(i as int, i + n) != needle@,
            decreases n - j,
        {
            if hay[i + j] != needle[j] {
                same = false;
                proof {
                    assert(hay@.subrange(i as int, i + n)[j as int] != needle@[j as int]);
                }
                j = n;
            } else {
                j = j + 1;
            }
        }
        if same {
            proof {
                assert(hay@.subrange(i as int, i + n) =~= needle@);
            }
            return true;
        }
        if i == h - n {
            return false;
        }
        i = i + 1;
    }
    false
}

/// Whether `name` contains `query`, both compared in lowercase.
pub fn name_matches(name: &str, query: &str) -> (r: bool)
    ensures
        r == ilike(name@, query@),
{
    let hay = lowercase_chars(name);
    let needle = lowercase_chars(query);
    contains_chars(&hay, &needle)
}

} // verus!
