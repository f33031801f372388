//! The streaming line classifier.
//!
//! One left-to-right pass over a file's bytes drives a small state machine
//! (code, line comment, block comment with depth, string with escape) and
//! classifies every physical line as blank, comment or code. The machine is
//! stated as the spec function [`run_from`]; the executable classifier is
//! proved to return exactly its value, and the total of the three counts is
//! proved equal to the file's physical line count.
//!
//! Per-line rule ("most code wins"): a line on which any byte was consumed in
//! code state, or that carries string content, counts as code; otherwise a
//! line that touched a comment counts as comment; otherwise it is blank. A
//! line wholly inside a carried-over block comment counts as comment, one
//! wholly inside a carried-over string counts as code. A final line without a
//! terminating newline is still counted; an unterminated block comment or
//! string at end of file is tolerated.

use vstd::prelude::*;

use crate::grammar::{BlockPair, LanguageDef, marker_ok, NL};
use crate::stats::LineCounts;

verus! {

/// Classifier state between bytes.
#[derive(Clone, Copy, Debug)]
pub enum LineState {
    /// Outside any comment or string.
    Code,
    /// Inside a comment that runs to the end of the line.
    InLineComment,
    /// Inside block pair `pair`, at nesting `depth` (1 when not nested).
    InBlockComment { pair: usize, depth: usize },
    /// Inside a string opened by quote index `quote`; `escaped` holds right
    /// after the escape character.
    InString { quote: usize, escaped: bool },
}

/// The whole machine: state, per-line flags, and the running totals.
pub struct MachineSpec {
    pub st: LineState,
    /// A code byte was seen on the current line.
    pub has_code: bool,
    /// A comment byte or marker was seen on the current line.
    pub has_comment: bool,
    /// Any byte at all was seen on the current line.
    pub has_any: bool,
    pub blank: int,
    pub comment: int,
    pub code: int,
}

/// Horizontal whitespace and carriage return: blank-line material.
pub open spec fn is_ws(b: u8) -> bool {
    b == 32 || b == 9 || b == 11 || b == 12 || b == 13
}

/// Marker `m` occurs in `s` at position `i`.
pub open spec fn is_match(m: Seq<u8>, s: Seq<u8>, i: int) -> bool {
    &&& 0 <= i
    &&& i + m.len() <= s.len()
    &&& s.subrange(i, i + m.len() as int) == m
}

/// First line comment marker (index `j` on) matching at `i`, if any.
pub open spec fn find_lc_at(list: Seq<Vec<u8>>, s: Seq<u8>, i: int, j: int) -> Option<int>
    decreases list.len() - j,
{
    if j < 0 || j >= list.len() {
        None
    } else if is_match(list[j]@, s, i) {
        Some(j)
    } else {
        find_lc_at(list, s, i, j + 1)
    }
}

/// First block pair (index `j` on) whose open marker matches at `i`, if any.
pub open spec fn find_open_at(blocks: Seq<BlockPair>, s: Seq<u8>, i: int, j: int) -> Option<int>
    decreases blocks.len() - j,
{
    if j < 0 || j >= blocks.len() {
        None
    } else if is_match(blocks[j].open_marker@, s, i) {
        Some(j)
    } else {
        find_open_at(blocks, s, i, j + 1)
    }
}

/// First quote character (index `j` on) equal to `b`, if any.
pub open spec fn find_quote_at(quotes: Seq<u8>, b: u8, j: int) -> Option<int>
    decreases quotes.len() - j,
{
    if j < 0 || j >= quotes.len() {
        None
    } else if quotes[j] == b {
        Some(j)
    } else {
        find_quote_at(quotes, b, j + 1)
    }
}

/// Position after consuming a marker of length `n` at `i`, clamped so the
/// machine always advances and never leaves the input.
pub open spec fn adv(i: int, n: int, len: int) -> int {
    if 1 <= n && i + n <= len {
        i + n
    } else {
        i + 1
    }
}

/// Nesting depth bump, saturating (unreachable in practice: depth is bounded
/// by the position in the file).
pub open spec fn add_depth(d: usize) -> usize {
    if d < usize::MAX {
        (d + 1) as usize
    } else {
        d
    }
}

/// The machine at the start of a file.
pub open spec fn init_machine() -> MachineSpec {
    MachineSpec {
        st: LineState::Code,
        has_code: false,
        has_comment: false,
        has_any: false,
        blank: 0,
        comment: 0,
        code: 0,
    }
}

/// Totals after classifying the current line: code if a code byte was seen,
/// else comment if a comment byte was seen, else blank.
pub open spec fn bumped(m: MachineSpec) -> (int, int, int) {
    if m.has_code {
        (m.blank, m.comment, m.code + 1)
    } else if m.has_comment {
        (m.blank, m.comment + 1, m.code)
    } else {
        (m.blank + 1, m.comment, m.code)
    }
}

/// State carried across a newline: a line comment ends, a pending string
/// escape is spent on the newline, block comments and strings continue.
pub open spec fn nl_state(st: LineState) -> LineState {
    match st {
        LineState::InLineComment => LineState::Code,
        LineState::InString { quote, escaped: _ } => LineState::InString {
            quote,
            escaped: false,
        },
        other => other,
    }
}

/// The machine after a newline: the line is classified and the flags restart,
/// pre-seeded by the carried-over state (block comment content is comment,
/// string content is code).
pub open spec fn newline_step(m: MachineSpec) -> MachineSpec {
    let (b2, c2, d2) = bumped(m);
    let st2 = nl_state(m.st);
    MachineSpec {
        st: st2,
        has_code: st2 is InString,
        has_comment: st2 is InBlockComment,
        has_any: false,
        blank: b2,
        comment: c2,
        code: d2,
    }
}

/// The machine after consuming a non-newline byte or marker: move to `st2`
/// and raise the line flags.
pub open spec fn consume(m: MachineSpec, st2: LineState, code_b: bool, com_b: bool) -> MachineSpec {
    MachineSpec {
        st: st2,
        has_code: m.has_code || code_b,
        has_comment: m.has_comment || com_b,
        has_any: true,
        blank: m.blank,
        comment: m.comment,
        code: m.code,
    }
}

/// The classifier machine, run from machine `m` at position `i` to the end
/// of `s`: the final (blank, comment, code) totals. In code state, line
/// comment markers are tried first, then block openers, then quotes; inside
/// a block comment the close marker is tried before a nested open; inside a
/// string only the escape and the closing quote are live.
pub open spec fn run_from(d: LanguageDef, m: MachineSpec, s: Seq<u8>, i: int) -> (int, int, int)
    decreases s.len() - i,
{
    if !(0 <= i < s.len()) {
        if m.has_any {
            bumped(m)
        } else {
            (m.blank, m.comment, m.code)
        }
    } else if s[i] == NL {
        run_from(d, newline_step(m), s, i + 1)
    } else {
        match m.st {
            LineState::Code => match find_lc_at(d.line_comments@, s, i, 0) {
                Some(j) => run_from(
                    d,
                    consume(m, LineState::InLineComment, false, true),
                    s,
                    adv(i, d.line_comments@[j]@.len() as int, s.len() as int),
                ),
                None => match find_open_at(d.blocks@, s, i, 0) {
                    Some(j) => run_from(
                        d,
                        consume(
                            m,
                            LineState::InBlockComment { pair: j as usize, depth: 1 },
                            false,
                            true,
                        ),
                        s,
                        adv(i, d.open_of(j).len() as int, s.len() as int),
                    ),
                    None => match find_quote_at(d.quotes@, s[i], 0) {
                        Some(q) => run_from(
                            d,
                            consume(
                                m,
                                LineState::InString { quote: q as usize, escaped: false },
                                true,
                                false,
                            ),
                            s,
                            i + 1,
                        ),
                        None => if is_ws(s[i]) {
                            run_from(d, consume(m, m.st, false, false), s, i + 1)
                        } else {
                            run_from(d, consume(m, m.st, true, false), s, i + 1)
                        },
                    },
                },
            },
            LineState::InLineComment => run_from(d, consume(m, m.st, false, true), s, i + 1),
            LineState::InBlockComment { pair, depth } => {
                if is_match(d.close_of(pair as int), s, i) {
                    let st2 = if depth <= 1 {
                        LineState::Code
                    } else {
                        LineState::InBlockComment { pair, depth: (depth - 1) as usize }
                    };
                    run_from(
                        d,
                        consume(m, st2, false, true),
                        s,
                        adv(i, d.close_of(pair as int).len() as int, s.len() as int),
                    )
                } else if d.nested && is_match(d.open_of(pair as int), s, i) {
                    run_from(
                        d,
                        consume(
                            m,
                            LineState::InBlockComment { pair, depth: add_depth(depth) },
                            false,
                            true,
                        ),
                        s,
                        adv(i, d.open_of(pair as int).len() as int, s.len() as int),
                    )
                } else {
                    run_from(d, consume(m, m.st, false, true), s, i + 1)
                }
            },
            LineState::InString { quote, escaped } => {
                if escaped {
                    run_from(
                        d,
                        consume(m, LineState::InString { quote, escaped: false }, true, false),
                        s,
                        i + 1,
                    )
                } else if s[i] == d.escape {
                    run_from(
                        d,
                        consume(m, LineState::InString { quote, escaped: true }, true, false),
                        s,
                        i + 1,
                    )
                } else if s[i] == d.quote_at(quote as int) {
                    run_from(d, consume(m, LineState::Code, true, false), s, i + 1)
                } else {
                    run_from(d, consume(m, m.st, true, false), s, i + 1)
                }
            },
        }
    }
}

/// What the classifier returns for grammar `d` on content `s`.
pub open spec fn classify_spec(d: LanguageDef, s: Seq<u8>) -> (int, int, int) {
    run_from(d, init_machine(), s, 0)
}

/// Newlines in `s` from position `i` on.
pub open spec fn newlines_from(s: Seq<u8>, i: int) -> int
    decreases s.len() - i,
{
    if !(0 <= i < s.len()) {
        0
    } else {
        (if s[i] == NL {
            1int
        } else {
            0int
        }) + newlines_from(s, i + 1)
    }
}

/// Physical lines of `s`: newline-terminated lines, plus a final
/// unterminated one if the content does not end in a newline.
pub open spec fn line_count(s: Seq<u8>) -> int {
    newlines_from(s, 0) + if s.len() > 0 && s[s.len() - 1] != NL {
        1int
    } else {
        0int
    }
}

/// Executable marker match at a position.
fn match_at(m: &Vec<u8>, s: &[u8], i: usize) -> (r: bool)
    ensures
        r == is_match(m@, s@, i as int),
{
    let n = m.len();
    let slen = s.len();
    if slen < i || slen - i < n {
        return false;
    }
    let mut k: usize = 0;
    while k < n
        invariant
            k <= n,
            n == m@.len(),
            slen == s@.len(),
            i + n <= slen,
            forall|t: int| 0 <= t < k ==> s@[i + t] == m@[t],
        decreases n - k,
    {
        if s[i + k] != m[k] {
            proof {
                assert(!is_match(m@, s@, i as int)) by {
                    if is_match(m@, s@, i as int) {
                        assert(s@.subrange(i as int, i + m@.len())[k as int] == s@[i + k]);
                    }
                }
            }
            return false;
        }
        k += 1;
    }
    proof {
        assert(s@.subrange(i as int, i + m@.len()) =~= m@);
    }
    true
}

/// Executable search for the first matching line comment marker.
fn find_lc(list: &Vec<Vec<u8>>, s: &[u8], i: usize) -> (r: Option<usize>)
    ensures
        match r {
            Some(j) => find_lc_at(list@, s@, i as int, 0) == Some(j as int) && j < list@.len()
                && is_match(list@[j as int]@, s@, i as int),
            None => find_lc_at(list@, s@, i as int, 0) is None,
        },
{
    let mut j: usize = 0;
    while j < list.len()
        invariant
            j <= list@.len(),
            find_lc_at(list@, s@, i as int, 0) == find_lc_at(list@, s@, i as int, j as int),
        decreases list@.len() - j,
    {
        if match_at(&list[j], s, i) {
            return Some(j);
        }
        j += 1;
    }
    None
}

/// Executable search for the first block pair whose open marker matches.
fn find_open(blocks: &Vec<BlockPair>, s: &[u8], i: usize) -> (r: Option<usize>)
    ensures
        match r {
            Some(j) => find_open_at(blocks@, s@, i as int, 0) == Some(j as int) && j
                < blocks@.len() && is_match(blocks@[j as int].open_marker@, s@, i as int),
            None => find_open_at(blocks@, s@, i as int, 0) is None,
        },
{
    let mut j: usize = 0;
    while j < blocks.len()
        invariant
            j <= blocks@.len(),
            find_open_at(blocks@, s@, i as int, 0) == find_open_at(blocks@, s@, i as int, j as int),
        decreases blocks@.len() - j,
    {
        if match_at(&blocks[j].open_marker, s, i) {
            return Some(j);
        }
        j += 1;
    }
    None
}

/// Executable search for the quote character equal to `b`.
fn find_quote_idx(quotes: &Vec<u8>, b: u8) -> (r: Option<usize>)
    ensures
        match r {
            Some(j) => find_quote_at(quotes@, b, 0) == Some(j as int) && j < quotes@.len()
                && quotes@[j as int] == b,
            None => find_quote_at(quotes@, b, 0) is None,
        },
{
    let mut j: usize = 0;
    while j < quotes.len()
        invariant
            j <= quotes@.len(),
            find_quote_at(quotes@, b, 0) == find_quote_at(quotes@, b, j as int),
        decreases quotes@.len() - j,
    {
        if quotes[j] == b {
            return Some(j);
        }
        j += 1;
    }
    None
}

/// The loop state abstracted to the spec machine.
pub open spec fn abs_machine(
    st: LineState,
    has_code: bool,
    has_comment: bool,
    has_any: bool,
    blank: usize,
    comment: usize,
    code: usize,
) -> MachineSpec {
    MachineSpec {
        st,
        has_code,
        has_comment,
        has_any,
        blank: blank as int,
        comment: comment as int,
        code: code as int,
    }
}

/// Indices held by the state stay inside the grammar.
pub open spec fn state_ok(d: LanguageDef, st: LineState) -> bool {
    match st {
        LineState::InBlockComment { pair, depth: _ } => pair < d.blocks@.len(),
        LineState::InString { quote, escaped: _ } => quote < d.quotes@.len(),
        _ => true,
    }
}

/// Loop invariant on the state: indices in range, depth bounded by the
/// position.
pub open spec fn state_inv(d: LanguageDef, st: LineState, i: int) -> bool {
    &&& state_ok(d, st)
    &&& match st {
        LineState::InBlockComment { pair: _, depth } => 1 <= depth <= i,
        _ => true,
    }
}

/// Classify every physical line of `s` under grammar `d`.
///
/// The result is exactly the spec machine's run, and the three counts always
/// total the file's physical line count.
pub fn classify_lines(d: &LanguageDef, s: &[u8]) -> (r: LineCounts)
    requires
        d.wf(),
    ensures
        (r.blank as int, r.comment as int, r.code as int) == classify_spec(*d, s@),
        r.blank + r.comment + r.code == line_count(s@),
{
    let mut i: usize = 0;
    let mut st = LineState::Code;
    let mut has_code = false;
    let mut has_comment = false;
    let mut has_any = false;
    let mut blank: usize = 0;
    let mut comment: usize = 0;
    let mut code: usize = 0;

    while i < s.len()
        invariant
            d.wf(),
            i <= s@.len(),
            blank + comment + code <= i,
            has_any ==> blank + comment + code < i,
            state_inv(*d, st, i as int),
            run_from(*d, abs_machine(st, has_code, has_comment, has_any, blank, comment, code),
                s@, i as int) == classify_spec(*d, s@),
        decreases s@.len() - i,
    {
        let ghost m0 = abs_machine(st, has_code, has_comment, has_any, blank, comment, code);
        let ghost i0 = i as int;
        let b = s[i];
        if b == NL {
            if has_code {
                code += 1;
            } else if has_comment {
                comment += 1;
            } else {
                blank += 1;
            }
            st = match st {
                LineState::InLineComment => LineState::Code,
                LineState::InString { quote, escaped: _ } => LineState::InString {
                    quote,
                    escaped: false,
                },
                other => other,
            };
            has_any = false;
            has_code = matches!(st, LineState::InString { .. });
            has_comment = matches!(st, LineState::InBlockComment { .. });
            i += 1;
            proof {
                assert(abs_machine(st, has_code, has_comment, has_any, blank, comment, code)
                    == newline_step(m0));
            }
        } else {
            match st {
                LineState::Code => {
                    match find_lc(&d.line_comments, s, i) {
                        Some(j) => {
                            proof {
                                assert(marker_ok(d.line_comments@[j as int]@));
                            }
                            st = LineState::InLineComment;
                            has_comment = true;
                            has_any = true;
                            i += d.line_comments[j].len();
                        },
                        None => {
                            match find_open(&d.blocks, s, i) {
                                Some(j) => {
                                    proof {
                                        assert(marker_ok(d.blocks@[j as int].open_marker@));
                                    }
                                    st = LineState::InBlockComment { pair: j, depth: 1 };
                                    has_comment = true;
                                    has_any = true;
                                    i += d.blocks[j].open_marker.len();
                                },
                                None => {
                                    match find_quote_idx(&d.quotes, b) {
                                        Some(q) => {
                                            st = LineState::InString { quote: q, escaped: false };
                                            has_code = true;
                                            has_any = true;
                                            i += 1;
                                        },
                                        None => {
                                            if b == 32 || b == 9 || b == 11 || b == 12 || b == 13 {
                                                has_any = true;
                                                i += 1;
                                            } else {
                                                has_code = true;
                                                has_any = true;
                                                i += 1;
                                            }
                                        },
                                    }
                                },
                            }
                        },
                    }
                },
                LineState::InLineComment => {
                    has_comment = true;
                    has_any = true;
                    i += 1;
                },
                LineState::InBlockComment { pair, depth } => {
                    if match_at(&d.blocks[pair].close_marker, s, i) {
                        proof {
                            assert(marker_ok(d.blocks@[pair as int].open_marker@));
                            assert(marker_ok(d.blocks@[pair as int].close_marker@));
                        }
                        st = if depth <= 1 {
                            LineState::Code
                        } else {
                            LineState::InBlockComment { pair, depth: depth - 1 }
                        };
                        has_comment = true;
                        has_any = true;
                        i += d.blocks[pair].close_marker.len();
                    } else if d.nested && match_at(&d.blocks[pair].open_marker, s, i) {
                        proof {
                            assert(marker_ok(d.blocks@[pair as int].open_marker@));
                            assert(add_depth(depth) == depth + 1);
                        }
                        st = LineState::InBlockComment { pair, depth: depth + 1 };
                        has_comment = true;
                        has_any = true;
                        i += d.blocks[pair].open_marker.len();
                    } else {
                        has_comment = true;
                        has_any = true;
                        i += 1;
                    }
                },
                LineState::InString { quote, escaped } => {
                    if escaped {
                        st = LineState::InString { quote, escaped: false };
                        has_code = true;
                        has_any = true;
                        i += 1;
                    } else if b == d.escape {
                        st = LineState::InString { quote, escaped: true };
                        has_code = true;
                        has_any = true;
                        i += 1;
                    } else if b == d.quotes[quote] {
                        st = LineState::Code;
                        has_code = true;
                        has_any = true;
                        i += 1;
                    } else {
                        has_code = true;
                        has_any = true;
                        i += 1;
                    }
                },
            }
        }
        proof {
            assert(run_from(*d, m0, s@, i0) == run_from(
                *d,
                abs_machine(st, has_code, has_comment, has_any, blank, comment, code),
                s@,
                i as int,
            ));
        }
    }
    proof {
        lemma_run_total(*d, init_machine(), s@, 0);
    }
    if has_any {
        if has_code {
            code += 1;
        } else if has_comment {
            comment += 1;
        } else {
            blank += 1;
        }
    }
    LineCounts { blank, comment, code }
}

/// No newline between `i` and `j`: the newline tally does not change.
proof fn lemma_no_nl_range(s: Seq<u8>, i: int, j: int)
    requires
        0 <= i <= j <= s.len(),
        forall|t: int| i <= t < j ==> s[t] != NL,
    ensures
        newlines_from(s, i) == newlines_from(s, j),
    decreases j - i,
{
    if i < j {
        lemma_no_nl_range(s, i + 1, j);
    }
}

/// A matched usable marker covers no newline byte.
proof fn lemma_match_no_nl(m: Seq<u8>, s: Seq<u8>, i: int)
    requires
        marker_ok(m),
        is_match(m, s, i),
    ensures
        forall|t: int| i <= t < i + m.len() ==> s[t] != NL,
{
    assert forall|t: int| i <= t < i + m.len() implies s[t] != NL by {
        assert(s.subrange(i, i + m.len() as int)[t - i] == s[t]);
        assert(m[t - i] != NL);
    }
}

/// A found line comment marker really matches.
proof fn lemma_find_lc_props(list: Seq<Vec<u8>>, s: Seq<u8>, i: int, j0: int, j: int)
    requires
        0 <= j0,
        find_lc_at(list, s, i, j0) == Some(j),
    ensures
        j0 <= j < list.len(),
        is_match(list[j]@, s, i),
    decreases list.len() - j0,
{
    if j0 < list.len() && !is_match(list[j0]@, s, i) {
        lemma_find_lc_props(list, s, i, j0 + 1, j);
    }
}

/// A found block opener really matches.
proof fn lemma_find_open_props(blocks: Seq<BlockPair>, s: Seq<u8>, i: int, j0: int, j: int)
    requires
        0 <= j0,
        find_open_at(blocks, s, i, j0) == Some(j),
    ensures
        j0 <= j < blocks.len(),
        is_match(blocks[j].open_marker@, s, i),
    decreases blocks.len() - j0,
{
    if j0 < blocks.len() && !is_match(blocks[j0].open_marker@, s, i) {
        lemma_find_open_props(blocks, s, i, j0 + 1, j);
    }
}

/// A found quote index is in range.
proof fn lemma_find_quote_props(quotes: Seq<u8>, b: u8, j0: int, j: int)
    requires
        0 <= j0,
        find_quote_at(quotes, b, j0) == Some(j),
    ensures
        j0 <= j < quotes.len(),
        quotes[j] == b,
    decreases quotes.len() - j0,
{
    if j0 < quotes.len() && quotes[j0] != b {
        lemma_find_quote_props(quotes, b, j0 + 1, j);
    }
}

/// The pending tail of the line tally: with input left it is decided by the
/// final byte, at the end of the input by whether the last line saw a byte.
pub open spec fn run_tail(s: Seq<u8>, i: int, has_any: bool) -> int {
    if i < s.len() {
        if s[s.len() - 1] != NL {
            1int
        } else {
            0int
        }
    } else if has_any {
        1int
    } else {
        0int
    }
}

/// The machine's three totals always sum to the physical line count: every
/// newline closes exactly one line, and a final unterminated line is closed
/// once at the end of the input.
pub proof fn lemma_run_total(d: LanguageDef, m: MachineSpec, s: Seq<u8>, i: int)
    requires
        d.wf(),
        state_ok(d, m.st),
        0 <= i <= s.len(),
    ensures
        ({
            let (b, c, cd) = run_from(d, m, s, i);
            b + c + cd
        }) == m.blank + m.comment + m.code + newlines_from(s, i) + run_tail(s, i, m.has_any),
    decreases s.len() - i,
{
    if i == s.len() {
    } else if s[i] == NL {
        lemma_run_total(d, newline_step(m), s, i + 1);
    } else {
        match m.st {
            LineState::Code => {
                match find_lc_at(d.line_comments@, s, i, 0) {
                    Some(j) => {
                        lemma_find_lc_props(d.line_comments@, s, i, 0, j);
                        lemma_match_no_nl(d.line_comments@[j]@, s, i);
                        let i2 = adv(i, d.line_comments@[j]@.len() as int, s.len() as int);
                        lemma_no_nl_range(s, i, i2);
                        lemma_run_total(d, consume(m, LineState::InLineComment, false, true), s,
                            i2);
                    },
                    None => {
                        match find_open_at(d.blocks@, s, i, 0) {
                            Some(j) => {
                                lemma_find_open_props(d.blocks@, s, i, 0, j);
                                lemma_match_no_nl(d.open_of(j), s, i);
                                let i2 = adv(i, d.open_of(j).len() as int, s.len() as int);
                                lemma_no_nl_range(s, i, i2);
                                lemma_run_total(
                                    d,
                                    consume(
                                        m,
                                        LineState::InBlockComment { pair: j as usize, depth: 1 },
                                        false,
                                        true,
                                    ),
                                    s,
                                    i2,
                                );
                            },
                            None => {
                                match find_quote_at(d.quotes@, s[i], 0) {
                                    Some(q) => {
                                        lemma_find_quote_props(d.quotes@, s[i], 0, q);
                                        lemma_run_total(
                                            d,
                                            consume(
                                                m,
                                                LineState::InString {
                                                    quote: q as usize,
                                                    escaped: false,
                                                },
                                                true,
                                                false,
                                            ),
                                            s,
                                            i + 1,
                                        );
                                    },
                                    None => {
                                        if is_ws(s[i]) {
                                            lemma_run_total(d, consume(m, m.st, false, false), s,
                                                i + 1);
                                        } else {
                                            lemma_run_total(d, consume(m, m.st, true, false), s,
                                                i + 1);
                                        }
                                    },
                                }
                            },
                        }
                    },
                }
            },
            LineState::InLineComment => {
                lemma_run_total(d, consume(m, m.st, false, true), s, i + 1);
            },
            LineState::InBlockComment { pair, depth } => {
                assert(marker_ok(d.blocks@[pair as int].open_marker@));
                if is_match(d.close_of(pair as int), s, i) {
                    let i2 = adv(i, d.close_of(pair as int).len() as int, s.len() as int);
                    lemma_match_no_nl(d.close_of(pair as int), s, i);
                    lemma_no_nl_range(s, i, i2);
                    let st2 = if depth <= 1 {
                        LineState::Code
                    } else {
                        LineState::InBlockComment { pair, depth: (depth - 1) as usize }
                    };
                    lemma_run_total(d, consume(m, st2, false, true), s, i2);
                } else if d.nested && is_match(d.open_of(pair as int), s, i) {
                    let i2 = adv(i, d.open_of(pair as int).len() as int, s.len() as int);
                    lemma_match_no_nl(d.open_of(pair as int), s, i);
                    lemma_no_nl_range(s, i, i2);
                    lemma_run_total(
                        d,
                        consume(m, LineState::InBlockComment { pair, depth: add_depth(depth) },
                            false, true),
                        s,
                        i2,
                    );
                } else {
                    lemma_run_total(d, consume(m, m.st, false, true), s, i + 1);
                }
            },
            LineState::InString { quote, escaped } => {
                if escaped {
                    lemma_run_total(
                        d,
                        consume(m, LineState::InString { quote, escaped: false }, true, false),
                        s,
                        i + 1,
                    );
                } else if s[i] == d.escape {
                    lemma_run_total(
                        d,
                        consume(m, LineState::InString { quote, escaped: true }, true, false),
                        s,
                        i + 1,
                    );
                } else if s[i] == d.quote_at(quote as int) {
                    lemma_run_total(d, consume(m, LineState::Code, true, false), s, i + 1);
                } else {
                    lemma_run_total(d, consume(m, m.st, true, false), s, i + 1);
                }
            },
        }
    }
}

/// Classify a file's bytes, refusing content that is not valid UTF-8.
///
/// Succeeds exactly on valid UTF-8; the error is recoverable and means
/// "skip this file", never an aborted run.
pub fn classify_file(d: &LanguageDef, s: &[u8]) -> (r: Result<
    LineCounts,
    crate::errors::DecodeError,
>)
    requires
        d.wf(),
    ensures
        r is Ok <==> crate::utf8::is_utf8(s@),
        r is Ok ==> (r->Ok_0.blank as int, r->Ok_0.comment as int, r->Ok_0.code as int)
            == classify_spec(*d, s@),
        r is Ok ==> r->Ok_0.blank + r->Ok_0.comment + r->Ok_0.code == line_count(s@),
{
    if crate::utf8::is_valid_utf8(s) {
        Ok(classify_lines(d, s))
    } else {
        Err(crate::errors::DecodeError)
    }
}

/// Classification is a function of the grammar and the bytes alone: two
/// runs over unchanged content give identical counts.
pub proof fn lemma_classify_deterministic(
    d: LanguageDef,
    s: Seq<u8>,
    r1: (int, int, int),
    r2: (int, int, int),
)
    requires
        r1 == classify_spec(d, s),
        r2 == classify_spec(d, s),
    ensures
        r1 == r2,
{
}

/// The three counts of a classification always total the physical line
/// count of the content, a final unterminated line counted too.
pub proof fn lemma_classify_total(d: LanguageDef, s: Seq<u8>)
    requires
        d.wf(),
    ensures
        ({
            let (b, c, cd) = classify_spec(d, s);
            b + c + cd
        }) == line_count(s),
{
    lemma_run_total(d, init_machine(), s, 0);
}

} // verus!
