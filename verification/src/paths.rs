//! Path handling: file names, extensions, and directory-segment exclusion.
//!
//! Paths are byte strings with `/` separators. A path segment is a maximal
//! slash-free run; exclusion compares a whole segment, case-sensitively,
//! against the bare excluded names, never a substring or a pattern.

use vstd::prelude::*;

verus! {

pub const SLASH: u8 = 47;

pub const DOT: u8 = 46;

pub const COMMA: u8 = 44;

/// Byte `b` occurs in `p`.
pub open spec fn contains_byte(p: Seq<u8>, b: u8) -> bool {
    exists|t: int| 0 <= t < p.len() && p[t] == b
}

/// The suffix of `p` after the last occurrence of `b` (all of `p` when `b`
/// does not occur).
pub open spec fn after_last(p: Seq<u8>, b: u8) -> Seq<u8>
    decreases p.len(),
{
    if !contains_byte(p, b) {
        p
    } else {
        after_last(p.drop_first(), b)
    }
}

/// The file name of a path: everything after the last slash.
pub open spec fn file_name_spec(p: Seq<u8>) -> Seq<u8> {
    after_last(p, SLASH)
}

/// The extension of a file name: the suffix after the last dot, provided a
/// dot occurs past the first byte (a leading dot alone names a hidden file,
/// not an extension).
pub open spec fn ext_spec(f: Seq<u8>) -> Option<Seq<u8>> {
    if exists|k: int| 1 <= k < f.len() && f[k] == DOT {
        Some(after_last(f, DOT))
    } else {
        None
    }
}

/// `[a, b)` is a path segment of `p`: a maximal slash-free run.
pub open spec fn is_segment(p: Seq<u8>, a: int, b: int) -> bool {
    &&& 0 <= a <= b <= p.len()
    &&& a == 0 || p[a - 1] == SLASH
    &&& b == p.len() || p[b] == SLASH
    &&& forall|t: int| a <= t < b ==> p[t] != SLASH
}

/// Byte string `x` occurs in the name list `excl`.
pub open spec fn name_in(excl: Seq<Vec<u8>>, x: Seq<u8>) -> bool {
    exists|j: int| 0 <= j < excl.len() && #[trigger] excl[j]@ == x
}

/// Some path segment of `p` equals some excluded name.
pub open spec fn seg_excluded(p: Seq<u8>, excl: Seq<Vec<u8>>) -> bool {
    exists|a: int, b: int| is_segment(p, a, b) && name_in(excl, #[trigger] p.subrange(a, b))
}

/// The comma-separated tokens of `p` (with `cur` the token read so far),
/// empty tokens dropped.
pub open spec fn comma_tokens(p: Seq<u8>, cur: Seq<u8>) -> Seq<Seq<u8>>
    decreases p.len(),
{
    if p.len() == 0 {
        if cur.len() > 0 {
            seq![cur]
        } else {
            Seq::empty()
        }
    } else if p[0] == COMMA {
        (if cur.len() > 0 {
            seq![cur]
        } else {
            Seq::empty()
        }) + comma_tokens(p.drop_first(), Seq::empty())
    } else {
        comma_tokens(p.drop_first(), cur.push(p[0]))
    }
}

/// The non-empty comma-separated names in `arg`, in order.
pub open spec fn excluded_names_spec(arg: Seq<u8>) -> Seq<Seq<u8>> {
    comma_tokens(arg, Seq::empty())
}

/// The byte-string list `r` spells out exactly the name list `names`.
pub open spec fn names_match(r: Seq<Vec<u8>>, names: Seq<Seq<u8>>) -> bool {
    &&& r.len() == names.len()
    &&& forall|j: int| 0 <= j < r.len() ==> #[trigger] r[j]@ == names[j]
}

/// Byte-string equality.
pub fn bytes_eq(a: &[u8], b: &[u8]) -> (r: bool)
    ensures
        r == (a@ == b@),
{
    let n = a.len();
    if n != b.len() {
        return false;
    }
    let mut k: usize = 0;
    while k < n
        invariant
            k <= n,
            n == a@.len(),
            n == b@.len(),
            forall|t: int| 0 <= t < k ==> a@[t] == b@[t],
        decreases n - k,
    {
        if a[k] != b[k] {
            return false;
        }
        k += 1;
    }
    proof {
        assert(a@ =~= b@);
    }
    true
}

/// A suffix known not to hold `b`, starting right after an occurrence (or at
/// the front), is the suffix after the last occurrence.
proof fn lemma_after_last(p: Seq<u8>, b: u8, c: int)
    requires
        0 <= c <= p.len(),
        forall|t: int| c <= t < p.len() ==> p[t] != b,
        c > 0 ==> p[c - 1] == b,
    ensures
        after_last(p, b) == p.skip(c),
    decreases p.len(),
{
    if c == 0 {
        assert(!contains_byte(p, b));
        assert(after_last(p, b) == p);
        assert(p.skip(0) =~= p);
    } else {
        assert(contains_byte(p, b)) by {
            assert(p[c - 1] == b);
        }
        let q = p.drop_first();
        assert(forall|t: int| c - 1 <= t < q.len() ==> q[t] != b);
        lemma_after_last(q, b, c - 1);
        assert(q.skip(c - 1) =~= p.skip(c));
    }
}

/// The file name of `p`: the bytes after the last slash.
pub fn file_name(p: &[u8]) -> (r: Vec<u8>)
    ensures
        r@ == file_name_spec(p@),
{
    let n = p.len();
    let mut start: usize = 0;
    let mut k: usize = 0;
    while k < n
        invariant
            start <= k <= n,
            n == p@.len(),
            start > 0 ==> p@[start - 1] == SLASH,
            forall|t: int| start <= t < k ==> p@[t] != SLASH,
        decreases n - k,
    {
        if p[k] == SLASH {
            start = k + 1;
        }
        k += 1;
    }
    proof {
        lemma_after_last(p@, SLASH, start as int);
    }
    let mut out: Vec<u8> = Vec::new();
    let mut t: usize = start;
    while t < n
        invariant
            start <= t <= n,
            n == p@.len(),
            out@ == p@.subrange(start as int, t as int),
        decreases n - t,
    {
        out.push(p[t]);
        proof {
            assert(out@ =~= p@.subrange(start as int, t + 1));
        }
        t += 1;
    }
    proof {
        assert(p@.subrange(start as int, n as int) =~= p@.skip(start as int));
    }
    out
}

/// The extension of file name `f`, when it has one.
pub fn extension(f: &[u8]) -> (r: Option<Vec<u8>>)
    ensures
        match r {
            Some(v) => ext_spec(f@) == Some(v@),
            None => ext_spec(f@) is None,
        },
{
    let n = f.len();
    let mut last: usize = 0;
    let mut seen = false;
    let mut k: usize = 0;
    while k < n
        invariant
            k <= n,
            n == f@.len(),
            seen ==> last < k && f@[last as int] == DOT,
            seen ==> forall|t: int| last < t < k ==> f@[t] != DOT,
            !seen ==> forall|t: int| 0 <= t < k ==> f@[t] != DOT,
        decreases n - k,
    {
        if f[k] == DOT {
            last = k;
            seen = true;
        }
        k += 1;
    }
    if !seen || last == 0 {
        proof {
            assert(!(exists|t: int| 1 <= t < f@.len() && f@[t] == DOT));
        }
        return None;
    }
    proof {
        assert(exists|t: int| 1 <= t < f@.len() && f@[t] == DOT) by {
            assert(f@[last as int] == DOT);
        }
        lemma_after_last(f@, DOT, last + 1);
    }
    let mut out: Vec<u8> = Vec::new();
    let mut t: usize = last + 1;
    while t < n
        invariant
            last + 1 <= t <= n,
            n == f@.len(),
            out@ == f@.subrange(last + 1, t as int),
        decreases n - t,
    {
        out.push(f[t]);
        proof {
            assert(out@ =~= f@.subrange(last + 1, t + 1));
        }
        t += 1;
    }
    proof {
        assert(f@.subrange(last + 1, n as int) =~= f@.skip(last + 1));
    }
    Some(out)
}

/// Whether `cur` equals some name in `excl`.
fn in_name_list(cur: &Vec<u8>, excl: &Vec<Vec<u8>>) -> (r: bool)
    ensures
        r == name_in(excl@, cur@),
{
    let mut j: usize = 0;
    while j < excl.len()
        invariant
            j <= excl@.len(),
            forall|t: int| 0 <= t < j ==> #[trigger] excl@[t]@ != cur@,
        decreases excl@.len() - j,
    {
        if bytes_eq(excl[j].as_slice(), cur.as_slice()) {
            return true;
        }
        j += 1;
    }
    false
}

/// A segment's start is determined by its end.
proof fn lemma_segment_unique_start(p: Seq<u8>, a1: int, a2: int, b: int)
    requires
        is_segment(p, a1, b),
        is_segment(p, a2, b),
    ensures
        a1 == a2,
{
    if a1 < a2 {
        assert(p[a2 - 1] == SLASH);
        assert(p[a2 - 1] != SLASH);
    }
    if a2 < a1 {
        assert(p[a1 - 1] == SLASH);
        assert(p[a1 - 1] != SLASH);
    }
}

/// Whether some path segment of `p` equals some excluded name.
pub fn path_excluded(p: &[u8], excl: &Vec<Vec<u8>>) -> (r: bool)
    ensures
        r == seg_excluded(p@, excl@),
{
    let n = p.len();
    let mut a: usize = 0;
    let mut cur: Vec<u8> = Vec::new();
    let mut k: usize = 0;
    while k < n
        invariant
            a <= k <= n,
            n == p@.len(),
            a == 0 || p@[a - 1] == SLASH,
            forall|t: int| a <= t < k ==> p@[t] != SLASH,
            cur@ == p@.subrange(a as int, k as int),
            forall|a2: int, b2: int|
                is_segment(p@, a2, b2) && b2 < k ==> !name_in(
                    excl@,
                    #[trigger] p@.subrange(a2, b2),
                ),
        decreases n - k,
    {
        if p[k] == SLASH {
            if in_name_list(&cur, excl) {
                proof {
                    assert(is_segment(p@, a as int, k as int));
                    assert(seg_excluded(p@, excl@));
                }
                return true;
            }
            proof {
                assert forall|a2: int, b2: int|
                    is_segment(p@, a2, b2) && b2 < k + 1 implies !name_in(
                    excl@,
                    #[trigger] p@.subrange(a2, b2),
                ) by {
                    if b2 == k {
                        lemma_segment_unique_start(p@, a2, a as int, b2);
                    }
                }
            }
            a = k + 1;
            cur = Vec::new();
            proof {
                assert(cur@ =~= p@.subrange(a as int, k + 1));
            }
        } else {
            cur.push(p[k]);
            proof {
                assert(cur@ =~= p@.subrange(a as int, k + 1));
                assert forall|a2: int, b2: int|
                    is_segment(p@, a2, b2) && b2 < k + 1 implies !name_in(
                    excl@,
                    #[trigger] p@.subrange(a2, b2),
                ) by {
                }
            }
        }
        k += 1;
    }
    if in_name_list(&cur, excl) {
        proof {
            assert(is_segment(p@, a as int, n as int));
            assert(seg_excluded(p@, excl@));
        }
        return true;
    }
    proof {
        assert(!seg_excluded(p@, excl@)) by {
            if seg_excluded(p@, excl@) {
                let (a2, b2) = choose|a2: int, b2: int|
                    is_segment(p@, a2, b2) && name_in(excl@, #[trigger] p@.subrange(a2, b2));
                if b2 == n {
                    lemma_segment_unique_start(p@, a2, a as int, b2);
                }
            }
        }
    }
    false
}

/// Split a comma-separated argument into its non-empty names.
pub fn split_names(arg: &[u8]) -> (r: Vec<Vec<u8>>)
    ensures
        names_match(r@, excluded_names_spec(arg@)),
{
    let n = arg.len();
    let mut out: Vec<Vec<u8>> = Vec::new();
    let mut cur: Vec<u8> = Vec::new();
    let ghost mut done: Seq<Seq<u8>> = Seq::empty();
    let mut k: usize = 0;
    proof {
        assert(arg@.skip(0) =~= arg@);
        assert(done + comma_tokens(arg@, Seq::empty()) =~= comma_tokens(arg@, Seq::empty()));
        assert(cur@ =~= Seq::<u8>::empty());
    }
    while k < n
        invariant
            k <= n,
            n == arg@.len(),
            names_match(out@, done),
            excluded_names_spec(arg@) == done + comma_tokens(arg@.skip(k as int), cur@),
        decreases n - k,
    {
        let b = arg[k];
        proof {
            assert(arg@.skip(k as int)[0] == arg@[k as int]);
            assert(arg@.skip(k as int).drop_first() =~= arg@.skip(k + 1));
        }
        if b == COMMA {
            if cur.len() > 0 {
                proof {
                    let done0 = done;
                    done = done.push(cur@);
                    assert(comma_tokens(arg@.skip(k as int), cur@) == seq![cur@] + comma_tokens(
                        arg@.skip(k + 1),
                        Seq::empty(),
                    ));
                    assert(done + comma_tokens(arg@.skip(k + 1), Seq::empty()) =~= done0 + (
                    seq![cur@] + comma_tokens(arg@.skip(k + 1), Seq::empty())));
                }
                out.push(cur);
                cur = Vec::new();
                proof {
                    assert(cur@ =~= Seq::<u8>::empty());
                }
            } else {
                proof {
                    assert(cur@ =~= Seq::<u8>::empty());
                    assert(comma_tokens(arg@.skip(k as int), cur@) == Seq::<Seq<u8>>::empty()
                        + comma_tokens(arg@.skip(k + 1), Seq::empty()));
                    assert(Seq::<Seq<u8>>::empty() + comma_tokens(arg@.skip(k + 1), Seq::empty())
                        =~= comma_tokens(arg@.skip(k + 1), Seq::empty()));
                }
            }
        } else {
            proof {
                assert(comma_tokens(arg@.skip(k as int), cur@) == comma_tokens(
                    arg@.skip(k + 1),
                    cur@.push(b),
                ));
            }
            cur.push(b);
        }
        k += 1;
    }
    proof {
        assert(arg@.skip(n as int) =~= Seq::<u8>::empty());
    }
    if cur.len() > 0 {
        proof {
            let done0 = done;
            done = done.push(cur@);
            assert(comma_tokens(Seq::<u8>::empty(), cur@) == seq![cur@]);
            assert(done0 + seq![cur@] =~= done);
        }
        out.push(cur);
    } else {
        proof {
            assert(cur@ =~= Seq::<u8>::empty());
            assert(comma_tokens(Seq::<u8>::empty(), cur@) == Seq::<Seq<u8>>::empty());
            assert(done + Seq::<Seq<u8>>::empty() =~= done);
        }
    }
    out
}

} // verus!
