use vstd::prelude::*;
use vstd::string::StrSliceExecFns;

verus! {

/// ASCII lower-casing: the case folding this library's
/// case-insensitive matching uses.
pub open spec fn lower_char(c: char) -> char {
    if 65 <= c as u32 && c as u32 <= 90 {
        ((c as u32 + 32) as u8) as char
    } else {
        c
    }
}

/// Does `s` start with `prefix`, ignoring ASCII case?
pub open spec fn starts_with_ci(prefix: Seq<char>, s: Seq<char>) -> bool {
    prefix.len() <= s.len() && forall|i: int|
        0 <= i < prefix.len() ==> lower_char(s[i]) == lower_char(prefix[i])
}

/// Does `needle` occur in `hay` at position `k`, ignoring ASCII case?
pub open spec fn matches_at(hay: Seq<char>, needle: Seq<char>, k: int) -> bool {
    0 <= k && k + needle.len() <= hay.len() && forall|i: int|
        0 <= i < needle.len() ==> lower_char(hay[k + i]) == lower_char(needle[i])
}

/// Does `hay` contain `needle` anywhere, ignoring ASCII case?
pub open spec fn contains_ci(hay: Seq<char>, needle: Seq<char>) -> bool {
    exists|k: int| matches_at(hay, needle, k)
}

fn lower_char_x(c: char) -> (r: char)
    ensures
        r == lower_char(c),
{
    let u = c as u32;
    if 65 <= u && u <= 90 {
        ((u + 32) as u8) as char
    } else {
        c
    }
}

/// Case-insensitive "starts with": the prefix-filter semantics of the
/// category and author listings.
pub fn prefix_matches_ci(prefix: &str, s: &str) -> (r: bool)
    ensures
        r == starts_with_ci(prefix@, s@),
{
    let plen = prefix.unicode_len();
    let slen = s.unicode_len();
    if plen > slen {
        return false;
    }
    let mut i: usize = 0;
    while i < plen
        invariant
            plen == prefix@.len(),
            slen == s@.len(),
            plen <= slen,
            i <= plen,
            forall|j: int| 0 <= j < i ==> lower_char(s@[j]) == lower_char(prefix@[j]),
        decreases plen - i,
    {
        let pc = lower_char_x(prefix.get_char(i));
        let sc = lower_char_x(s.get_char(i));
        if pc != sc {
            return false;
        }
        i += 1;
    }
    true
}

/// Character-for-character string equality.
pub fn str_eq(a: &str, b: &str) -> (r: bool)
    ensures
        r == (a@ == b@),
{
    let alen = a.unicode_len();
    let blen = b.unicode_len();
    if alen != blen {
        return false;
    }
    let mut i: usize = 0;
    while i < alen
        invariant
            alen == a@.len(),
            alen == b@.len(),
            i <= alen,
            forall|j: int| 0 <= j < i ==> a@[j] == b@[j],
        decreases alen - i,
    {
        if a.get_char(i) != b.get_char(i) {
            return false;
        }
        i += 1;
    }
    proof {
        assert(a@ =~= b@);
    }
    true
}

fn matches_at_x(hay: &str, needle: &str, k: usize) -> (r: bool)
    requires
        k + needle@.len() <= hay@.len(),
    ensures
        r == matches_at(hay@, needle@, k as int),
{
    let nlen = needle.unicode_len();
    let hlen = hay.unicode_len();
    let mut i: usize = 0;
    while i < nlen
        invariant
            nlen == needle@.len(),
            hlen == hay@.len(),
            k + nlen <= hay@.len(),
            i <= nlen,
            forall|j: int| 0 <= j < i ==> lower_char(hay@[k + j]) == lower_char(needle@[j]),
        decreases nlen - i,
    {
        let hc = lower_char_x(hay.get_char(k + i));
        let nc = lower_char_x(needle.get_char(i));
        if hc != nc {
            return false;
        }
        i += 1;
    }
    true
}

/// Case-insensitive containment: the text-match semantics of the
/// search operation.
pub fn contains_ci_x(hay: &str, needle: &str) -> (r: bool)
    ensures
        r == contains_ci(hay@, needle@),
{
    let hlen = hay.unicode_len();
    let nlen = needle.unicode_len();
    if nlen > hlen {
        return false;
    }
    let mut k: usize = 0;
    while k <= hlen - nlen
        invariant
            hlen == hay@.len(),
            nlen == needle@.len(),
            nlen <= hlen,
            k <= hlen - nlen + 1,
            forall|k2: int| 0 <= k2 < k ==> !matches_at(hay@, needle@, k2),
        decreases hlen - nlen - k + 1,
    {
        if matches_at_x(hay, needle, k) {
            return true;
        }
        k += 1;
    }
    false
}

} // verus!
