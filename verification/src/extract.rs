use vstd::prelude::*;
use vstd::string::StrSliceExecFns;

verus! {

/// `i` is the position of the first '>' in `s`.
pub open spec fn is_first_gt(s: Seq<char>, i: int) -> bool {
    &&& 0 <= i < s.len()
    &&& s[i] == '>'
    &&& forall|k: int| 0 <= k < i ==> s[k] != '>'
}

/// `j` is the position of the last '<' in `s`.
pub open spec fn is_last_lt(s: Seq<char>, j: int) -> bool {
    &&& 0 <= j < s.len()
    &&& s[j] == '<'
    &&& forall|k: int| j < k < s.len() ==> s[k] != '<'
}

/// Well-formed identifier markup: both delimiters are present and the
/// first '>' comes strictly before the last '<'.
pub open spec fn extract_ok(s: Seq<char>) -> bool {
    exists|i: int, j: int| is_first_gt(s, i) && is_last_lt(s, j) && i < j
}

/// The identifier embedded in well-formed markup: the characters strictly
/// between the first '>' and the last '<'.
pub open spec fn spec_extracted(s: Seq<char>) -> Seq<char>
    recommends
        extract_ok(s),
{
    let i = choose|i: int| is_first_gt(s, i);
    let j = choose|j: int| is_last_lt(s, j);
    s.subrange(i + 1, j)
}

/// The first '>' sits at one position only.
pub proof fn lemma_first_gt_unique(s: Seq<char>, i1: int, i2: int)
    requires
        is_first_gt(s, i1),
        is_first_gt(s, i2),
    ensures
        i1 == i2,
{
    if i1 < i2 {
        assert(s[i1] != '>');
    }
    if i2 < i1 {
        assert(s[i2] != '>');
    }
}

/// The last '<' sits at one position only.
pub proof fn lemma_last_lt_unique(s: Seq<char>, j1: int, j2: int)
    requires
        is_last_lt(s, j1),
        is_last_lt(s, j2),
    ensures
        j1 == j2,
{
    if j1 < j2 {
        assert(s[j2] != '<');
    }
    if j2 < j1 {
        assert(s[j1] != '<');
    }
}

/// Extract the image identifier from the hyperlink markup of a catalog
/// row: the substring strictly between the first '>' and the last '<', as
/// in `<a href="...">IDENTIFIER</a>`. Returns `None` when a delimiter is
/// absent or the first '>' does not come strictly before the last '<'.
pub fn parse_ami<'a>(a_tag: &'a str) -> (r: Option<&'a str>)
    ensures
        r is Some <==> extract_ok(a_tag@),
        r matches Some(t) ==> t@ == spec_extracted(a_tag@),
{
    let n = a_tag.unicode_len();
    let mut gt_found = false;
    let mut gt: usize = 0;
    let mut lt_found = false;
    let mut lt: usize = 0;
    let mut i: usize = 0;
    while i < n
        invariant
            n == a_tag@.len(),
            i <= n,
            gt_found ==> gt < i && a_tag@[gt as int] == '>' && (forall|k: int|
                0 <= k < gt ==> a_tag@[k] != '>'),
            !gt_found ==> (forall|k: int| 0 <= k < i ==> a_tag@[k] != '>'),
            lt_found ==> lt < i && a_tag@[lt as int] == '<' && (forall|k: int|
                lt < k < i ==> a_tag@[k] != '<'),
            !lt_found ==> (forall|k: int| 0 <= k < i ==> a_tag@[k] != '<'),
        decreases n - i,
    {
        let c = a_tag.get_char(i);
        if !gt_found && c == '>' {
            gt_found = true;
            gt = i;
        }
        if c == '<' {
            lt_found = true;
            lt = i;
        }
        i = i + 1;
    }
    if !gt_found || !lt_found {
        proof {
            if extract_ok(a_tag@) {
                let (fi, lj): (int, int) = choose|fi: int, lj: int|
                    is_first_gt(a_tag@, fi) && is_last_lt(a_tag@, lj) && fi < lj;
                assert(a_tag@[fi] == '>');
                assert(a_tag@[lj] == '<');
            }
        }
        return None;
    }
    proof {
        assert(is_first_gt(a_tag@, gt as int));
        assert(is_last_lt(a_tag@, lt as int));
    }
    if gt >= lt {
        proof {
            if extract_ok(a_tag@) {
                let (fi, lj): (int, int) = choose|fi: int, lj: int|
                    is_first_gt(a_tag@, fi) && is_last_lt(a_tag@, lj) && fi < lj;
                lemma_first_gt_unique(a_tag@, fi, gt as int);
                lemma_last_lt_unique(a_tag@, lj, lt as int);
            }
        }
        return None;
    }
    proof {
        assert(extract_ok(a_tag@));
        let fi = choose|fi: int| is_first_gt(a_tag@, fi);
        let lj = choose|lj: int| is_last_lt(a_tag@, lj);
        lemma_first_gt_unique(a_tag@, fi, gt as int);
        lemma_last_lt_unique(a_tag@, lj, lt as int);
    }
    Some(a_tag.substring_char(gt + 1, lt))
}

} // verus!
