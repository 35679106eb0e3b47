use vstd::prelude::*;
use vstd::string::StrSliceExecFns;
use vstd::string::StringExecFns;

use crate::errors::LookupError;

verus! {

/// Number of characters at the end of the raw body inside which the
/// upstream document's stray trailing comma is repaired.
pub const PATCH_WINDOW: usize = 10;

/// The body after the tail patch: every comma among the last `PATCH_WINDOW`
/// characters becomes a space; every other character is kept in place, so
/// the positions of the rest of the suffix are preserved.
pub open spec fn spec_patched(s: Seq<char>) -> Seq<char> {
    s.map(
        |i: int, c: char|
            if i >= s.len() - PATCH_WINDOW && c == ',' {
                ' '
            } else {
                c
            },
    )
}

/// Repair the known upstream defect: a trailing comma near the end of the
/// raw catalog document that makes it invalid JSON. Only the fixed window
/// of the last `PATCH_WINDOW` characters is touched; this is a one-time
/// patch for a known quirk, not a general JSON sanitizer.
///
/// A body whose length is at or below the window is rejected as malformed.
pub fn patch_tail(body: &str) -> (r: Result<String, LookupError>)
    ensures
        r is Ok <==> body@.len() > PATCH_WINDOW,
        body@.len() <= PATCH_WINDOW ==> r == Err::<String, LookupError>(
            LookupError::MalformedPayloadError,
        ),
        r matches Ok(p) ==> p@ == spec_patched(body@),
{
    let n = body.unicode_len();
    if n <= PATCH_WINDOW {
        return Err(LookupError::MalformedPayloadError);
    }
    let keep = n - PATCH_WINDOW;
    let mut out = String::from_str(body.substring_char(0, keep));
    proof {
        assert(out@ =~= spec_patched(body@).subrange(0, keep as int));
    }
    let mut i: usize = keep;
    while i < n
        invariant
            n == body@.len(),
            n > PATCH_WINDOW,
            keep == n - PATCH_WINDOW,
            keep <= i <= n,
            out@ == spec_patched(body@).subrange(0, i as int),
        decreases n - i,
    {
        let c = body.get_char(i);
        if c == ',' {
            out.append(" ");
            proof {
                reveal_strlit(" ");
                assert(out@ =~= spec_patched(body@).subrange(0, i + 1));
            }
        } else {
            out.append(body.substring_char(i, i + 1));
            proof {
                assert(out@ =~= spec_patched(body@).subrange(0, i + 1));
            }
        }
        i = i + 1;
    }
    proof {
        assert(out@ =~= spec_patched(body@));
    }
    Ok(out)
}

} // verus!
