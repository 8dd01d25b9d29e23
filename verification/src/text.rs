//! Byte-level substring search on UTF-8 text.

use vstd::prelude::*;
use vstd::string::StringSliceAdditionalSpecFns;

verus! {

/// `pattern` occurs in `text` starting at byte offset `at`.
pub open spec fn occurs_at(text: Seq<u8>, pattern: Seq<u8>, at: int) -> bool {
    &&& 0 <= at
    &&& at + pattern.len() <= text.len()
    &&& text.subrange(at, at + pattern.len()) == pattern
}

/// `pattern` occurs somewhere in `text`, as a contiguous run of bytes.
pub open spec fn contains_bytes(text: Seq<u8>, pattern: Seq<u8>) -> bool {
    exists|at: int| occurs_at(text, pattern, at)
}

/// `pattern` occurs in `text`: the UTF-8 bytes of the one occur in those of
/// the other.
pub open spec fn contains_text(text: Seq<char>, pattern: Seq<char>) -> bool {
    contains_bytes(vstd::utf8::encode_utf8(text), vstd::utf8::encode_utf8(pattern))
}

/// The first `n` bytes of `pattern` stand in `text` from offset `at` on.
pub open spec fn prefix_matches(text: Seq<u8>, pattern: Seq<u8>, at: int, n: int) -> bool {
    forall|k: int| 0 <= k < n ==> text[at + k] == #[trigger] pattern[k]
}

fn matches_at(text: &[u8], pattern: &[u8], at: usize) -> (r: bool)
    requires
        at + pattern@.len() <= text@.len(),
    ensures
        r == occurs_at(text@, pattern@, at as int),
{
    let text_len = text.len();
    let mut k: usize = 0;
    while k < pattern.len()
        invariant
            0 <= k <= pattern@.len(),
            text_len == text@.len(),
            at + pattern@.len() <= text@.len(),
            prefix_matches(text@, pattern@, at as int, k as int),
        decreases pattern@.len() - k,
    {
        if text[at + k] != pattern[k] {
            proof {
                let window = text@.subrange(at as int, at + pattern@.len());
                assert(window[k as int] == text@[at + k]);
            }
            return false;
        }
        k += 1;
    }
    proof {
        let window = text@.subrange(at as int, at + pattern@.len());
        assert forall|j: int| 0 <= j < pattern@.len() implies window[j] == pattern@[j] by {
            assert(window[j] == text@[at + j]);
        }
        assert(window =~= pattern@);
    }
    true
}

/// Whether `pattern` occurs in `text`.
pub fn contains(text: &str, pattern: &str) -> (r: bool)
    ensures
        r == contains_text(text@, pattern@),
{
    let t = text.as_bytes();
    let p = pattern.as_bytes();
    if p.len() > t.len() {
        assert forall|at: int| !occurs_at(t@, p@, at) by {}
        return false;
    }
    let last: usize = t.len() - p.len();
    let mut at: usize = 0;
    loop
        invariant
            t@ == text.spec_bytes(),
            p@ == pattern.spec_bytes(),
            last + p@.len() == t@.len(),
            0 <= at <= last,
            forall|j: int| 0 <= j < at ==> !occurs_at(t@, p@, j),
        decreases last - at,
    {
        if matches_at(t, p, at) {
            assert(occurs_at(t@, p@, at as int));
            return true;
        }
        if at == last {
            assert forall|j: int| !occurs_at(t@, p@, j) by {}
            return false;
        }
        at += 1;
    }
}

/// Whether two strings hold the same characters.
pub fn str_eq(a: &str, b: &str) -> (r: bool)
    ensures
        r == (a@ == b@),
{
    let x = a.as_bytes();
    let y = b.as_bytes();
    proof {
        vstd::utf8::encode_utf8_decode_utf8(a@);
        vstd::utf8::encode_utf8_decode_utf8(b@);
    }
    if x.len() != y.len() {
        return false;
    }
    let mut i: usize = 0;
    while i < x.len()
        invariant
            0 <= i <= x@.len(),
            x@.len() == y@.len(),
            x@ == a.spec_bytes(),
            y@ == b.spec_bytes(),
            forall|k: int| 0 <= k < i ==> x@[k] == y@[k],
        decreases x@.len() - i,
    {
        if x[i] != y[i] {
            return false;
        }
        i += 1;
    }
    assert(x@ =~= y@);
    true
}

} // verus!
