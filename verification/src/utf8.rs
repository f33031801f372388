//! UTF-8 validity.
//!
//! Classification assumes text content: a file whose bytes are not valid
//! UTF-8 is skipped with a decode error rather than classified. Validity is
//! stated byte-wise against the standard encoding table (shortest form only,
//! surrogates refused) and the executable check is proved equivalent.

use vstd::prelude::*;

verus! {

/// A continuation byte, `10xxxxxx`.
pub open spec fn is_cont(b: u8) -> bool {
    0x80 <= b && b <= 0xBF
}

/// The bytes of `s` from position `i` on form valid UTF-8.
pub open spec fn utf8_from(s: Seq<u8>, i: int) -> bool
    decreases s.len() - i,
{
    if i >= s.len() {
        true
    } else if !(0 <= i) {
        false
    } else {
        let b = s[i];
        if b < 0x80 {
            utf8_from(s, i + 1)
        } else if 0xC2 <= b && b <= 0xDF {
            i + 2 <= s.len() && is_cont(s[i + 1]) && utf8_from(s, i + 2)
        } else if b == 0xE0 {
            i + 3 <= s.len() && 0xA0 <= s[i + 1] && s[i + 1] <= 0xBF && is_cont(s[i + 2])
                && utf8_from(s, i + 3)
        } else if b == 0xED {
            i + 3 <= s.len() && 0x80 <= s[i + 1] && s[i + 1] <= 0x9F && is_cont(s[i + 2])
                && utf8_from(s, i + 3)
        } else if 0xE1 <= b && b <= 0xEF {
            i + 3 <= s.len() && is_cont(s[i + 1]) && is_cont(s[i + 2]) && utf8_from(s, i + 3)
        } else if b == 0xF0 {
            i + 4 <= s.len() && 0x90 <= s[i + 1] && s[i + 1] <= 0xBF && is_cont(s[i + 2])
                && is_cont(s[i + 3]) && utf8_from(s, i + 4)
        } else if 0xF1 <= b && b <= 0xF3 {
            i + 4 <= s.len() && is_cont(s[i + 1]) && is_cont(s[i + 2]) && is_cont(s[i + 3])
                && utf8_from(s, i + 4)
        } else if b == 0xF4 {
            i + 4 <= s.len() && 0x80 <= s[i + 1] && s[i + 1] <= 0x8F && is_cont(s[i + 2])
                && is_cont(s[i + 3]) && utf8_from(s, i + 4)
        } else {
            false
        }
    }
}

/// The whole content is valid UTF-8.
pub open spec fn is_utf8(s: Seq<u8>) -> bool {
    utf8_from(s, 0)
}

/// Executable UTF-8 check, equivalent to [`is_utf8`].
pub fn is_valid_utf8(s: &[u8]) -> (r: bool)
    ensures
        r == is_utf8(s@),
{
    let slen = s.len();
    let mut i: usize = 0;
    while i < slen
        invariant
            i <= slen,
            slen == s@.len(),
            is_utf8(s@) == utf8_from(s@, i as int),
        decreases slen - i,
    {
        let b = s[i];
        if b < 0x80 {
            i += 1;
        } else if 0xC2 <= b && b <= 0xDF {
            if slen - i < 2 || !(0x80 <= s[i + 1] && s[i + 1] <= 0xBF) {
                return false;
            }
            i += 2;
        } else if 0xE0 <= b && b <= 0xEF {
            if slen - i < 3 {
                return false;
            }
            let b1 = s[i + 1];
            let b2 = s[i + 2];
            let lo: u8 = if b == 0xE0 {
                0xA0
            } else {
                0x80
            };
            let hi: u8 = if b == 0xED {
                0x9F
            } else {
                0xBF
            };
            if !(lo <= b1 && b1 <= hi && 0x80 <= b2 && b2 <= 0xBF) {
                return false;
            }
            i += 3;
        } else if 0xF0 <= b && b <= 0xF4 {
            if slen - i < 4 {
                return false;
            }
            let b1 = s[i + 1];
            let b2 = s[i + 2];
            let b3 = s[i + 3];
            let lo: u8 = if b == 0xF0 {
                0x90
            } else {
                0x80
            };
            let hi: u8 = if b == 0xF4 {
                0x8F
            } else {
                0xBF
            };
            if !(lo <= b1 && b1 <= hi && 0x80 <= b2 && b2 <= 0xBF && 0x80 <= b3 && b3 <= 0xBF) {
                return false;
            }
            i += 4;
        } else {
            return false;
        }
    }
    true
}

} // verus!
