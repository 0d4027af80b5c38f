//! Substring search over byte and character sequences, used for header-value
//! probing (`Accept-Encoding: ... gzip ...`) and for hidden-path filtering.

use vstd::prelude::*;

verus! {

/// The needle occurs in the haystack starting at position `i`.
pub open spec fn match_at<T>(hay: Seq<T>, needle: Seq<T>, i: int) -> bool {
    &&& 0 <= i
    &&& i + needle.len() <= hay.len()
    &&& forall|j: int| 0 <= j < needle.len() ==> hay[i + j] == needle[j]
}

/// The needle occurs somewhere in the haystack.
pub open spec fn contains_seq<T>(hay: Seq<T>, needle: Seq<T>) -> bool {
    exists|i: int| match_at(hay, needle, i)
}

/// Whether `needle` occurs as a contiguous run of bytes inside `hay`.
pub fn bytes_contains(hay: &[u8], needle: &[u8]) -> (b: bool)
    ensures
        b == contains_seq(hay@, needle@),
{
    if needle.len() > hay.len() {
        proof {
            assert(forall|i: int| !match_at(hay@, needle@, i));
        }
        return false;
    }
    if needle.len() == 0 {
        proof {
            assert(match_at(hay@, needle@, 0));
        }
        return true;
    }
    let hay_len: usize = hay.len();
    let needle_len: usize = needle.len();
    let bound: usize = hay_len - needle_len;
    let mut i: usize = 0;
    loop
        invariant
            hay_len == hay@.len(),
            needle_len == needle@.len(),
            1 <= needle@.len() <= hay@.len(),
            bound == hay@.len() - needle@.len(),
            i <= bound + 1,
            forall|k: int| 0 <= k < i ==> !match_at(hay@, needle@, k),
        ensures
            i <= bound ==> match_at(hay@, needle@, i as int),
            i > bound ==> forall|k: int| !match_at(hay@, needle@, k),
        decreases bound + 1 - i,
    {
        if i > bound {
            proof {
                assert(forall|k: int| k > bound ==> !match_at(hay@, needle@, k));
            }
            break;
        }
        let mut j: usize = 0;
        let mut mismatch = false;
        while j < needle.len() && !mismatch
            invariant
                i <= bound,
                hay_len == hay@.len(),
                needle_len == needle@.len(),
                1 <= needle@.len() <= hay@.len(),
                bound == hay@.len() - needle@.len(),
                j <= needle@.len(),
                !mismatch ==> forall|t: int| 0 <= t < j ==> hay@[i + t] == needle@[t],
                mismatch ==> !match_at(hay@, needle@, i as int),
            decreases needle@.len() - j + (if mismatch { 0int } else { 1int }),
        {
            proof {
                assert(i + j < hay@.len());
            }
            if hay[i + j] != needle[j] {
                proof {
                    assert(hay@[i + j] != needle@[j as int]);
                }
                mismatch = true;
            } else {
                j = j + 1;
            }
        }
        if !mismatch {
            proof {
                assert(match_at(hay@, needle@, i as int));
            }
            return true;
        }
        i = i + 1;
    }
    if i <= bound {
        return true;
    }
    false
}

/// Whether `needle` occurs as a contiguous run of characters inside `hay`.
pub fn chars_contain(hay: &Vec<char>, needle: &Vec<char>) -> (b: bool)
    ensures
        b == contains_seq(hay@, needle@),
{
    if needle.len() > hay.len() {
        proof {
            assert(forall|i: int| !match_at(hay@, needle@, i));
        }
        return false;
    }
    if needle.len() == 0 {
        proof {
            assert(match_at(hay@, needle@, 0));
        }
        return true;
    }
    let hay_len: usize = hay.len();
    let needle_len: usize = needle.len();
    let bound: usize = hay_len - needle_len;
    let mut i: usize = 0;
    loop
        invariant
            hay_len == hay@.len(),
            needle_len == needle@.len(),
            1 <= needle@.len() <= hay@.len(),
            bound == hay@.len() - needle@.len(),
            i <= bound + 1,
            forall|k: int| 0 <= k < i ==> !match_at(hay@, needle@, k),
        ensures
            i <= bound ==> match_at(hay@, needle@, i as int),
            i > bound ==> forall|k: int| !match_at(hay@, needle@, k),
        decreases bound + 1 - i,
    {
        if i > bound {
            proof {
                assert(forall|k: int| k > bound ==> !match_at(hay@, needle@, k));
            }
            break;
        }
        let mut j: usize = 0;
        let mut mismatch = false;
        while j < needle.len() && !mismatch
            invariant
                i <= bound,
                hay_len == hay@.len(),
                needle_len == needle@.len(),
                1 <= needle@.len() <= hay@.len(),
                bound == hay@.len() - needle@.len(),
                j <= needle@.len(),
                !mismatch ==> forall|t: int| 0 <= t < j ==> hay@[i + t] == needle@[t],
                mismatch ==> !match_at(hay@, needle@, i as int),
            decreases needle@.len() - j + (if mismatch { 0int } else { 1int }),
        {
            proof {
                assert(i + j < hay@.len());
            }
            if hay[i + j] != needle[j] {
                proof {
                    assert(hay@[i + j] != needle@[j as int]);
                }
                mismatch = true;
            } else {
                j = j + 1;
            }
        }
        if !mismatch {
            proof {
                assert(match_at(hay@, needle@, i as int));
            }
            return true;
        }
        i = i + 1;
    }
    if i <= bound {
        return true;
    }
    false
}

} // verus!
