//! Language grammar descriptions.
//!
//! A `LanguageDef` is a data-driven record: the markers that open and close
//! comments, the string quote characters and their escape character, and the
//! file name / extension matchers. The classifier and the matcher are written
//! once over this record; a new language is added as data.

use vstd::prelude::*;

verus! {

/// The newline byte that terminates a physical line.
pub const NL: u8 = 10;

/// A block comment delimiter pair, e.g. `/*` and `*/`.
#[derive(Debug)]
pub struct BlockPair {
    pub open_marker: Vec<u8>,
    pub close_marker: Vec<u8>,
}

/// One language: its name, its file matchers and its comment/string grammar.
///
/// Matching is case-sensitive throughout. Within one list, the first marker
/// that matches at a position wins; in code, line comment markers are tried
/// before block comment openers, and those before string quotes.
#[derive(Debug)]
pub struct LanguageDef {
    /// Unique language name, as it appears in the report.
    pub name: String,
    /// Exact file names (e.g. `Makefile`); take priority over extensions.
    pub filenames: Vec<Vec<u8>>,
    /// File extensions, without the dot.
    pub extensions: Vec<Vec<u8>>,
    /// Markers that start a comment running to the end of the line.
    pub line_comments: Vec<Vec<u8>>,
    /// Block comment delimiter pairs.
    pub blocks: Vec<BlockPair>,
    /// Whether block comments of this language nest.
    pub nested: bool,
    /// String quote characters; inside a string, markers are inert.
    pub quotes: Vec<u8>,
    /// Escape character inside strings: it consumes the following byte.
    pub escape: u8,
}

/// A usable marker: non-empty and free of the newline byte, so that skipping
/// a matched marker never skips a line boundary.
pub open spec fn marker_ok(m: Seq<u8>) -> bool {
    &&& m.len() >= 1
    &&& forall|k: int| 0 <= k < m.len() ==> m[k] != NL
}

impl LanguageDef {
    /// The open marker of block pair `j`.
    pub open spec fn open_of(self, j: int) -> Seq<u8> {
        self.blocks@[j].open_marker@
    }

    /// The close marker of block pair `j`.
    pub open spec fn close_of(self, j: int) -> Seq<u8> {
        self.blocks@[j].close_marker@
    }

    /// The quote character at index `q`.
    pub open spec fn quote_at(self, q: int) -> u8 {
        self.quotes@[q]
    }

    /// Well-formed grammar: every marker is usable, and neither quotes nor
    /// the escape character collide with each other or with the newline.
    pub open spec fn wf(self) -> bool {
        &&& forall|i: int| 0 <= i < self.line_comments@.len() ==> marker_ok(
            #[trigger] self.line_comments@[i]@,
        )
        &&& forall|i: int| 0 <= i < self.blocks@.len() ==> marker_ok(
            #[trigger] self.blocks@[i].open_marker@,
        ) && marker_ok(self.blocks@[i].close_marker@)
        &&& forall|i: int| 0 <= i < self.quotes@.len() ==> #[trigger] self.quotes@[i] != NL
            && self.quotes@[i] != self.escape
        &&& self.escape != NL
    }
}

} // verus!
