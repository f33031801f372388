//! Mapping a file path to a language.
//!
//! An exact file-name match anywhere in the registry takes priority over any
//! extension match; within each kind, the first matching definition wins.
//! Matching is case-sensitive. A path matching nothing has no language and
//! the file is left out of all counts; that is not an error.

use vstd::prelude::*;

use crate::grammar::LanguageDef;
use crate::paths::{ext_spec, extension, file_name, file_name_spec};

verus! {

/// Definition `d` claims the exact file name `f`.
pub open spec fn name_matches(d: LanguageDef, f: Seq<u8>) -> bool {
    exists|k: int| 0 <= k < d.filenames@.len() && #[trigger] d.filenames@[k]@ == f
}

/// Definition `d` claims the extension of file name `f`.
pub open spec fn ext_matches(d: LanguageDef, f: Seq<u8>) -> bool {
    match ext_spec(f) {
        Some(e) => exists|k: int| 0 <= k < d.extensions@.len() && #[trigger] d.extensions@[k]@ == e,
        None => false,
    }
}

/// First definition (index `j` on) claiming file name `f` exactly, if any.
pub open spec fn first_name_match(reg: Seq<LanguageDef>, f: Seq<u8>, j: int) -> Option<int>
    decreases reg.len() - j,
{
    if j < 0 || j >= reg.len() {
        None
    } else if name_matches(reg[j], f) {
        Some(j)
    } else {
        first_name_match(reg, f, j + 1)
    }
}

/// First definition (index `j` on) claiming the extension of `f`, if any.
pub open spec fn first_ext_match(reg: Seq<LanguageDef>, f: Seq<u8>, j: int) -> Option<int>
    decreases reg.len() - j,
{
    if j < 0 || j >= reg.len() {
        None
    } else if ext_matches(reg[j], f) {
        Some(j)
    } else {
        first_ext_match(reg, f, j + 1)
    }
}

/// The language of file name `f`: an exact name match takes priority over an
/// extension match; no match means no language.
pub open spec fn lookup_name_spec(reg: Seq<LanguageDef>, f: Seq<u8>) -> Option<int> {
    match first_name_match(reg, f, 0) {
        Some(i) => Some(i),
        None => first_ext_match(reg, f, 0),
    }
}

/// The language of a full path: its file name decides.
pub open spec fn lookup_spec(reg: Seq<LanguageDef>, path: Seq<u8>) -> Option<int> {
    lookup_name_spec(reg, file_name_spec(path))
}

/// Whether `d` lists `f` as an exact file name.
fn matches_name(d: &LanguageDef, f: &Vec<u8>) -> (r: bool)
    ensures
        r == name_matches(*d, f@),
{
    let mut k: usize = 0;
    while k < d.filenames.len()
        invariant
            k <= d.filenames@.len(),
            forall|t: int| 0 <= t < k ==> #[trigger] d.filenames@[t]@ != f@,
        decreases d.filenames@.len() - k,
    {
        if crate::paths::bytes_eq(d.filenames[k].as_slice(), f.as_slice()) {
            return true;
        }
        k += 1;
    }
    false
}

/// Whether `d` lists `e` as an extension.
fn matches_ext(d: &LanguageDef, e: &Vec<u8>) -> (r: bool)
    ensures
        r == exists|k: int| 0 <= k < d.extensions@.len() && #[trigger] d.extensions@[k]@ == e@,
{
    let mut k: usize = 0;
    while k < d.extensions.len()
        invariant
            k <= d.extensions@.len(),
            forall|t: int| 0 <= t < k ==> #[trigger] d.extensions@[t]@ != e@,
        decreases d.extensions@.len() - k,
    {
        if crate::paths::bytes_eq(d.extensions[k].as_slice(), e.as_slice()) {
            return true;
        }
        k += 1;
    }
    false
}

/// Find the language of `path` in the registry: the first definition with an
/// exact file-name match, else the first with an extension match.
pub fn lookup(reg: &Vec<LanguageDef>, path: &[u8]) -> (r: Option<usize>)
    ensures
        match r {
            Some(i) => lookup_spec(reg@, path@) == Some(i as int) && i < reg@.len(),
            None => lookup_spec(reg@, path@) is None,
        },
{
    let f = file_name(path);
    let mut j: usize = 0;
    while j < reg.len()
        invariant
            j <= reg@.len(),
            f@ == file_name_spec(path@),
            first_name_match(reg@, f@, 0) == first_name_match(reg@, f@, j as int),
        decreases reg@.len() - j,
    {
        if matches_name(&reg[j], &f) {
            return Some(j);
        }
        j += 1;
    }
    let e_opt = extension(f.as_slice());
    match e_opt {
        None => {
            proof {
                lemma_no_ext_no_match(reg@, f@, 0);
            }
            None
        },
        Some(e) => {
            let mut j2: usize = 0;
            while j2 < reg.len()
                invariant
                    j2 <= reg@.len(),
                    f@ == file_name_spec(path@),
                    ext_spec(f@) == Some(e@),
                    first_name_match(reg@, f@, 0) is None,
                    first_ext_match(reg@, f@, 0) == first_ext_match(reg@, f@, j2 as int),
                decreases reg@.len() - j2,
            {
                if matches_ext(&reg[j2], &e) {
                    return Some(j2);
                }
                j2 += 1;
            }
            None
        },
    }
}

/// A file name without an extension matches no definition by extension.
proof fn lemma_no_ext_no_match(reg: Seq<LanguageDef>, f: Seq<u8>, j: int)
    requires
        ext_spec(f) is None,
    ensures
        first_ext_match(reg, f, j) is None,
    decreases reg.len() - j,
{
    if 0 <= j < reg.len() {
        lemma_no_ext_no_match(reg, f, j + 1);
    }
}

} // verus!
