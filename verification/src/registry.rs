//! The built-in language table.
//!
//! A representative set of grammars, each one pure data for the classifier
//! and the matcher. The table is built once at startup and read everywhere;
//! adding a language means adding a definition here, not code elsewhere.

use vstd::prelude::*;

use crate::aggregate::registry_wf;
use crate::grammar::{BlockPair, LanguageDef};

verus! {

fn m1(a: u8) -> (r: Vec<u8>)
    ensures
        r@ == seq![a],
{
    let mut v: Vec<u8> = Vec::new();
    v.push(a);
    proof {
        assert(v@ =~= seq![a]);
    }
    v
}

fn m2(a: u8, b: u8) -> (r: Vec<u8>)
    ensures
        r@ == seq![a, b],
{
    let mut v: Vec<u8> = Vec::new();
    v.push(a);
    v.push(b);
    proof {
        assert(v@ =~= seq![a, b]);
    }
    v
}

fn m3(a: u8, b: u8, c: u8) -> (r: Vec<u8>)
    ensures
        r@ == seq![a, b, c],
{
    let mut v: Vec<u8> = Vec::new();
    v.push(a);
    v.push(b);
    v.push(c);
    proof {
        assert(v@ =~= seq![a, b, c]);
    }
    v
}

fn m4(a: u8, b: u8, c: u8, d: u8) -> (r: Vec<u8>)
    ensures
        r@ == seq![a, b, c, d],
{
    let mut v: Vec<u8> = Vec::new();
    v.push(a);
    v.push(b);
    v.push(c);
    v.push(d);
    proof {
        assert(v@ =~= seq![a, b, c, d]);
    }
    v
}

/// Slash-star comment syntax: `//` line comments and one `/* */` pair.
pub open spec fn slash_star_comments(d: LanguageDef) -> bool {
    &&& d.line_comments@.len() == 1
    &&& d.line_comments@[0]@ == seq![47u8, 47u8]
    &&& d.blocks@.len() == 1
    &&& d.blocks@[0].open_marker@ == seq![47u8, 42u8]
    &&& d.blocks@[0].close_marker@ == seq![42u8, 47u8]
}

/// Hash comment syntax: `#` line comments and no block comments.
pub open spec fn hash_comments(d: LanguageDef) -> bool {
    &&& d.line_comments@.len() == 1
    &&& d.line_comments@[0]@ == seq![35u8]
    &&& d.blocks@.len() == 0
}

/// A C-family grammar: `//` line comments, one `/* */` block pair, and the
/// given quotes, with backslash escapes.
fn c_family(name: &str, extensions: Vec<Vec<u8>>, nested: bool, quotes: Vec<u8>) -> (d:
    LanguageDef)
    requires
        forall|i: int| 0 <= i < quotes@.len() ==> #[trigger] quotes@[i] != 10 && quotes@[i] != 92,
    ensures
        d.wf(),
        d.name@ == name@,
        d.extensions == extensions,
        d.filenames@.len() == 0,
        slash_star_comments(d),
        d.nested == nested,
        d.quotes == quotes,
        d.escape == 92u8,
{
    let mut line_comments: Vec<Vec<u8>> = Vec::new();
    line_comments.push(m2(47, 47));
    let mut blocks: Vec<BlockPair> = Vec::new();
    blocks.push(BlockPair { open_marker: m2(47, 42), close_marker: m2(42, 47) });
    LanguageDef {
        name: name.to_owned(),
        filenames: Vec::new(),
        extensions,
        line_comments,
        blocks,
        nested,
        quotes,
        escape: 92,
    }
}

/// A hash-commented grammar: `#` line comments, no blocks, the given
/// quotes, with backslash escapes.
fn hash_family(name: &str, extensions: Vec<Vec<u8>>, filenames: Vec<Vec<u8>>, quotes: Vec<u8>) -> (
    d: LanguageDef)
    requires
        forall|i: int| 0 <= i < quotes@.len() ==> #[trigger] quotes@[i] != 10 && quotes@[i] != 92,
    ensures
        d.wf(),
        d.name@ == name@,
        d.extensions == extensions,
        d.filenames == filenames,
        hash_comments(d),
        !d.nested,
        d.quotes == quotes,
        d.escape == 92u8,
{
    let mut line_comments: Vec<Vec<u8>> = Vec::new();
    line_comments.push(m1(35));
    LanguageDef {
        name: name.to_owned(),
        filenames,
        extensions,
        line_comments,
        blocks: Vec::new(),
        nested: false,
        quotes,
        escape: 92,
    }
}

fn quotes_d() -> (r: Vec<u8>)
    ensures
        r@ == seq![34u8],
{
    m1(34)
}

fn quotes_ds() -> (r: Vec<u8>)
    ensures
        r@ == seq![34u8, 39u8],
{
    m2(34, 39)
}

/// The Rust entry: `.rs` files, nested `/* */`, double-quoted strings only
/// (an apostrophe also spells a lifetime, so it opens no string).
pub open spec fn rust_def(d: LanguageDef) -> bool {
    &&& d.name@ == "Rust"@
    &&& d.filenames@.len() == 0
    &&& d.extensions@.len() == 1
    &&& d.extensions@[0]@ == seq![114u8, 115u8]
    &&& slash_star_comments(d)
    &&& d.nested
    &&& d.quotes@ == seq![34u8]
    &&& d.escape == 92u8
}

/// The C entry: `.c` and `.h` files, unnested `/* */`, both quote kinds.
pub open spec fn c_def(d: LanguageDef) -> bool {
    &&& d.name@ == "C"@
    &&& d.filenames@.len() == 0
    &&& d.extensions@.len() == 2
    &&& d.extensions@[0]@ == seq![99u8]
    &&& d.extensions@[1]@ == seq![104u8]
    &&& slash_star_comments(d)
    &&& !d.nested
    &&& d.quotes@ == seq![34u8, 39u8]
    &&& d.escape == 92u8
}

/// The C++ entry: `.cpp`, `.cc` and `.hpp` files, C comment syntax.
pub open spec fn cpp_def(d: LanguageDef) -> bool {
    &&& d.name@ == "C++"@
    &&& d.filenames@.len() == 0
    &&& d.extensions@.len() == 3
    &&& d.extensions@[0]@ == seq![99u8, 112u8, 112u8]
    &&& d.extensions@[1]@ == seq![99u8, 99u8]
    &&& d.extensions@[2]@ == seq![104u8, 112u8, 112u8]
    &&& slash_star_comments(d)
    &&& !d.nested
    &&& d.quotes@ == seq![34u8, 39u8]
    &&& d.escape == 92u8
}

/// The Python entry: `.py` files, `#` comments, both quote kinds.
pub open spec fn python_def(d: LanguageDef) -> bool {
    &&& d.name@ == "Python"@
    &&& d.filenames@.len() == 0
    &&& d.extensions@.len() == 1
    &&& d.extensions@[0]@ == seq![112u8, 121u8]
    &&& hash_comments(d)
    &&& !d.nested
    &&& d.quotes@ == seq![34u8, 39u8]
    &&& d.escape == 92u8
}

/// The JavaScript entry: `.js` files, C comment syntax, backtick strings too.
pub open spec fn javascript_def(d: LanguageDef) -> bool {
    &&& d.name@ == "JavaScript"@
    &&& d.filenames@.len() == 0
    &&& d.extensions@.len() == 1
    &&& d.extensions@[0]@ == seq![106u8, 115u8]
    &&& slash_star_comments(d)
    &&& !d.nested
    &&& d.quotes@ == seq![34u8, 39u8, 96u8]
    &&& d.escape == 92u8
}

/// The TypeScript entry: `.ts` files, the JavaScript grammar.
pub open spec fn typescript_def(d: LanguageDef) -> bool {
    &&& d.name@ == "TypeScript"@
    &&& d.filenames@.len() == 0
    &&& d.extensions@.len() == 1
    &&& d.extensions@[0]@ == seq![116u8, 115u8]
    &&& slash_star_comments(d)
    &&& !d.nested
    &&& d.quotes@ == seq![34u8, 39u8, 96u8]
    &&& d.escape == 92u8
}

/// The Go entry: `.go` files, C comment syntax, raw backtick strings too.
pub open spec fn go_def(d: LanguageDef) -> bool {
    &&& d.name@ == "Go"@
    &&& d.filenames@.len() == 0
    &&& d.extensions@.len() == 1
    &&& d.extensions@[0]@ == seq![103u8, 111u8]
    &&& slash_star_comments(d)
    &&& !d.nested
    &&& d.quotes@ == seq![34u8, 39u8, 96u8]
    &&& d.escape == 92u8
}

/// The Java entry: `.java` files, C comment syntax, both quote kinds.
pub open spec fn java_def(d: LanguageDef) -> bool {
    &&& d.name@ == "Java"@
    &&& d.filenames@.len() == 0
    &&& d.extensions@.len() == 1
    &&& d.extensions@[0]@ == seq![106u8, 97u8, 118u8, 97u8]
    &&& slash_star_comments(d)
    &&& !d.nested
    &&& d.quotes@ == seq![34u8, 39u8]
    &&& d.escape == 92u8
}

/// The Shell entry: `.sh` files, `#` comments, both quote kinds.
pub open spec fn shell_def(d: LanguageDef) -> bool {
    &&& d.name@ == "Shell"@
    &&& d.filenames@.len() == 0
    &&& d.extensions@.len() == 1
    &&& d.extensions@[0]@ == seq![115u8, 104u8]
    &&& hash_comments(d)
    &&& !d.nested
    &&& d.quotes@ == seq![34u8, 39u8]
    &&& d.escape == 92u8
}

/// The TOML entry: `.toml` files, `#` comments.
pub open spec fn toml_def(d: LanguageDef) -> bool {
    &&& d.name@ == "TOML"@
    &&& d.filenames@.len() == 0
    &&& d.extensions@.len() == 1
    &&& d.extensions@[0]@ == seq![116u8, 111u8, 109u8, 108u8]
    &&& hash_comments(d)
    &&& !d.nested
    &&& d.quotes@ == seq![34u8, 39u8]
    &&& d.escape == 92u8
}

/// The YAML entry: `.yml` and `.yaml` files, `#` comments.
pub open spec fn yaml_def(d: LanguageDef) -> bool {
    &&& d.name@ == "YAML"@
    &&& d.filenames@.len() == 0
    &&& d.extensions@.len() == 2
    &&& d.extensions@[0]@ == seq![121u8, 109u8, 108u8]
    &&& d.extensions@[1]@ == seq![121u8, 97u8, 109u8, 108u8]
    &&& hash_comments(d)
    &&& !d.nested
    &&& d.quotes@ == seq![34u8, 39u8]
    &&& d.escape == 92u8
}

/// The JSON entry: `.json` files, no comments at all; strings still shield
/// braces and colons.
pub open spec fn json_def(d: LanguageDef) -> bool {
    &&& d.name@ == "JSON"@
    &&& d.filenames@.len() == 0
    &&& d.extensions@.len() == 1
    &&& d.extensions@[0]@ == seq![106u8, 115u8, 111u8, 110u8]
    &&& d.line_comments@.len() == 0
    &&& d.blocks@.len() == 0
    &&& !d.nested
    &&& d.quotes@ == seq![34u8]
    &&& d.escape == 92u8
}

/// The Makefile entry: the exact file name `Makefile` or a `.mk` extension,
/// `#` comments.
pub open spec fn makefile_def(d: LanguageDef) -> bool {
    &&& d.name@ == "Makefile"@
    &&& d.filenames@.len() == 1
    &&& d.filenames@[0]@ == seq![77u8, 97u8, 107u8, 101u8, 102u8, 105u8, 108u8, 101u8]
    &&& d.extensions@.len() == 1
    &&& d.extensions@[0]@ == seq![109u8, 107u8]
    &&& hash_comments(d)
    &&& !d.nested
    &&& d.quotes@ == seq![34u8]
    &&& d.escape == 92u8
}

/// The HTML entry: `.html` files, only `<!-- -->` block comments.
pub open spec fn html_def(d: LanguageDef) -> bool {
    &&& d.name@ == "HTML"@
    &&& d.filenames@.len() == 0
    &&& d.extensions@.len() == 1
    &&& d.extensions@[0]@ == seq![104u8, 116u8, 109u8, 108u8]
    &&& d.line_comments@.len() == 0
    &&& d.blocks@.len() == 1
    &&& d.blocks@[0].open_marker@ == seq![60u8, 33u8, 45u8, 45u8]
    &&& d.blocks@[0].close_marker@ == seq![45u8, 45u8, 62u8]
    &&& !d.nested
    &&& d.quotes@ == seq![34u8, 39u8]
    &&& d.escape == 92u8
}

/// The built-in registry: every grammar well-formed, one entry per
/// language, in this order, each pinned down to its matchers, comment
/// markers, quotes and escape by its predicate.
pub fn registry() -> (r: Vec<LanguageDef>)
    ensures
        registry_wf(r@),
        r@.len() == 14,
        rust_def(r@[0]),
        c_def(r@[1]),
        cpp_def(r@[2]),
        python_def(r@[3]),
        javascript_def(r@[4]),
        typescript_def(r@[5]),
        go_def(r@[6]),
        java_def(r@[7]),
        shell_def(r@[8]),
        toml_def(r@[9]),
        yaml_def(r@[10]),
        json_def(r@[11]),
        makefile_def(r@[12]),
        html_def(r@[13]),
{
    let mut v: Vec<LanguageDef> = Vec::new();

    // Rust: nested block comments; only double quotes (an apostrophe also
    // spells a lifetime, so it is not a reliable string opener).
    let mut rust_ext: Vec<Vec<u8>> = Vec::new();
    rust_ext.push(m2(114, 115));
    v.push(c_family("Rust", rust_ext, true, quotes_d()));

    let mut c_ext: Vec<Vec<u8>> = Vec::new();
    c_ext.push(m1(99));
    c_ext.push(m1(104));
    v.push(c_family("C", c_ext, false, quotes_ds()));

    let mut cpp_ext: Vec<Vec<u8>> = Vec::new();
    cpp_ext.push(m3(99, 112, 112));
    cpp_ext.push(m2(99, 99));
    cpp_ext.push(m3(104, 112, 112));
    v.push(c_family("C++", cpp_ext, false, quotes_ds()));

    let mut py_ext: Vec<Vec<u8>> = Vec::new();
    py_ext.push(m2(112, 121));
    v.push(hash_family("Python", py_ext, Vec::new(), quotes_ds()));

    let mut js_ext: Vec<Vec<u8>> = Vec::new();
    js_ext.push(m2(106, 115));
    let mut js_quotes: Vec<u8> = Vec::new();
    js_quotes.push(34);
    js_quotes.push(39);
    js_quotes.push(96);
    proof {
        assert(js_quotes@ =~= seq![34u8, 39u8, 96u8]);
    }
    v.push(c_family("JavaScript", js_ext, false, js_quotes));

    let mut ts_ext: Vec<Vec<u8>> = Vec::new();
    ts_ext.push(m2(116, 115));
    let mut ts_quotes: Vec<u8> = Vec::new();
    ts_quotes.push(34);
    ts_quotes.push(39);
    ts_quotes.push(96);
    proof {
        assert(ts_quotes@ =~= seq![34u8, 39u8, 96u8]);
    }
    v.push(c_family("TypeScript", ts_ext, false, ts_quotes));

    let mut go_ext: Vec<Vec<u8>> = Vec::new();
    go_ext.push(m2(103, 111));
    let mut go_quotes: Vec<u8> = Vec::new();
    go_quotes.push(34);
    go_quotes.push(39);
    go_quotes.push(96);
    proof {
        assert(go_quotes@ =~= seq![34u8, 39u8, 96u8]);
    }
    v.push(c_family("Go", go_ext, false, go_quotes));

    let mut java_ext: Vec<Vec<u8>> = Vec::new();
    java_ext.push(m4(106, 97, 118, 97));
    v.push(c_family("Java", java_ext, false, quotes_ds()));

    let mut sh_ext: Vec<Vec<u8>> = Vec::new();
    sh_ext.push(m2(115, 104));
    v.push(hash_family("Shell", sh_ext, Vec::new(), quotes_ds()));

    let mut toml_ext: Vec<Vec<u8>> = Vec::new();
    toml_ext.push(m4(116, 111, 109, 108));
    v.push(hash_family("TOML", toml_ext, Vec::new(), quotes_ds()));

    let mut yaml_ext: Vec<Vec<u8>> = Vec::new();
    yaml_ext.push(m3(121, 109, 108));
    yaml_ext.push(m4(121, 97, 109, 108));
    v.push(hash_family("YAML", yaml_ext, Vec::new(), quotes_ds()));

    // JSON: no comments at all; strings still shield braces and colons.
    let mut json_ext: Vec<Vec<u8>> = Vec::new();
    json_ext.push(m4(106, 115, 111, 110));
    let json = LanguageDef {
        name: "JSON".to_owned(),
        filenames: Vec::new(),
        extensions: json_ext,
        line_comments: Vec::new(),
        blocks: Vec::new(),
        nested: false,
        quotes: quotes_d(),
        escape: 92,
    };
    v.push(json);

    // Makefile: matched by exact file name first, extension as fallback.
    let mut mk_ext: Vec<Vec<u8>> = Vec::new();
    mk_ext.push(m2(109, 107));
    let mk_name_full = {
        let mut w = m4(77, 97, 107, 101);
        w.push(102);
        w.push(105);
        w.push(108);
        w.push(101);
        w
    };
    proof {
        assert(mk_name_full@ =~= seq![77u8, 97u8, 107u8, 101u8, 102u8, 105u8, 108u8, 101u8]);
    }
    let mut mk_names: Vec<Vec<u8>> = Vec::new();
    mk_names.push(mk_name_full);
    v.push(hash_family("Makefile", mk_ext, mk_names, quotes_d()));

    // HTML: only block comments.
    let mut html_ext: Vec<Vec<u8>> = Vec::new();
    html_ext.push(m4(104, 116, 109, 108));
    let mut html_blocks: Vec<BlockPair> = Vec::new();
    let html_open = {
        let mut w = m3(60, 33, 45);
        w.push(45);
        w
    };
    proof {
        assert(html_open@ =~= seq![60u8, 33u8, 45u8, 45u8]);
    }
    html_blocks.push(BlockPair { open_marker: html_open, close_marker: m3(45, 45, 62) });
    let html = LanguageDef {
        name: "HTML".to_owned(),
        filenames: Vec::new(),
        extensions: html_ext,
        line_comments: Vec::new(),
        blocks: html_blocks,
        nested: false,
        quotes: quotes_ds(),
        escape: 92,
    };
    v.push(html);

    proof {
        assert(rust_def(v@[0]));
        assert(c_def(v@[1]));
        assert(cpp_def(v@[2]));
        assert(python_def(v@[3]));
        assert(javascript_def(v@[4]));
        assert(typescript_def(v@[5]));
        assert(go_def(v@[6]));
        assert(java_def(v@[7]));
        assert(shell_def(v@[8]));
        assert(toml_def(v@[9]));
        assert(yaml_def(v@[10]));
        assert(json_def(v@[11]));
        assert(makefile_def(v@[12]));
        assert(html_def(v@[13]));
        assert forall|i: int| 0 <= i < v@.len() implies (#[trigger] v@[i]).wf() by {
            assert(v@.len() == 14);
        }
    }
    v
}

} // verus!
