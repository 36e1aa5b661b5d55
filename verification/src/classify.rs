//! Extension classifier: a fixed table from lowercase file extensions to
//! code-block language tags, plus the membership test used for filtering and
//! the tag-fallback policy used when emitting a fenced block.

use vstd::prelude::*;

verus! {

/// ASCII lowercasing of a single character; non-ASCII characters (and
/// anything that is not an uppercase ASCII letter) are left unchanged.
pub open spec fn lower_char_spec(c: char) -> char {
    match c {
        'A' => 'a',
        'B' => 'b',
        'C' => 'c',
        'D' => 'd',
        'E' => 'e',
        'F' => 'f',
        'G' => 'g',
        'H' => 'h',
        'I' => 'i',
        'J' => 'j',
        'K' => 'k',
        'L' => 'l',
        'M' => 'm',
        'N' => 'n',
        'O' => 'o',
        'P' => 'p',
        'Q' => 'q',
        'R' => 'r',
        'S' => 's',
        'T' => 't',
        'U' => 'u',
        'V' => 'v',
        'W' => 'w',
        'X' => 'x',
        'Y' => 'y',
        'Z' => 'z',
        _ => c,
    }
}

/// ASCII lowercasing of a string, character by character.
pub open spec fn lower_spec(s: Seq<char>) -> Seq<char> {
    s.map_values(|c: char| lower_char_spec(c))
}

fn lower_char(c: char) -> (r: char)
    ensures
        r == lower_char_spec(c),
{
    match c {
        'A' => 'a',
        'B' => 'b',
        'C' => 'c',
        'D' => 'd',
        'E' => 'e',
        'F' => 'f',
        'G' => 'g',
        'H' => 'h',
        'I' => 'i',
        'J' => 'j',
        'K' => 'k',
        'L' => 'l',
        'M' => 'm',
        'N' => 'n',
        'O' => 'o',
        'P' => 'p',
        'Q' => 'q',
        'R' => 'r',
        'S' => 's',
        'T' => 't',
        'U' => 'u',
        'V' => 'v',
        'W' => 'w',
        'X' => 'x',
        'Y' => 'y',
        'Z' => 'z',
        _ => c,
    }
}

/// True when lowercasing `a` yields exactly `b`; used to look an extension up
/// in the table without allocating a lowercased copy.
fn eq_lowered(a: &str, b: &str) -> (r: bool)
    ensures
        r == (lower_spec(a@) == b@),
{
    let a_len = a.unicode_len();
    let b_len = b.unicode_len();
    if a_len != b_len {
        proof {
            assert(lower_spec(a@).len() == a@.len());
        }
        return false;
    }
    let mut i: usize = 0;
    while i < a_len
        invariant
            i <= a_len,
            a_len == a@.len(),
            b_len == b@.len(),
            a_len == b_len,
            forall|k: int| 0 <= k < i ==> lower_char_spec(a@[k]) == b@[k],
        decreases a_len - i,
    {
        let ca = lower_char(a.get_char(i));
        let cb = b.get_char(i);
        if ca != cb {
            proof {
                assert(lower_spec(a@)[i as int] != b@[i as int]);
            }
            return false;
        }
        i = i + 1;
    }
    proof {
        assert(lower_spec(a@) =~= b@);
    }
    true
}

/// The fixed extension-to-language table, as a function from an
/// already-lowercased extension (no leading dot) to the mapped language tag,
/// or the empty string when the extension is not a key.
pub open spec fn lang_spec(ext: Seq<char>) -> Seq<char> {
    if ext == "md"@ {
        "markdown"@
    } else if ext == "json"@ {
        "json"@
    } else if ext == "yml"@ {
        "yaml"@
    } else if ext == "toml"@ {
        "toml"@
    } else if ext == "ini"@ {
        "ini"@
    } else if ext == "txt"@ {
        "plaintext"@
    } else if ext == "yaml"@ {
        "yaml"@
    } else if ext == "xml"@ {
        "xml"@
    } else if ext == "xslt"@ {
        "xml"@
    } else if ext == "xsl"@ {
        "xml"@
    } else if ext == "xsd"@ {
        "xml"@
    } else if ext == "py"@ {
        "python"@
    } else if ext == "pyi"@ {
        "python"@
    } else if ext == "c"@ {
        "c"@
    } else if ext == "h"@ {
        "cpp"@
    } else if ext == "cpp"@ {
        "cpp"@
    } else if ext == "hpp"@ {
        "cpp"@
    } else if ext == "inl"@ {
        "cpp"@
    } else if ext == "java"@ {
        "java"@
    } else if ext == "rs"@ {
        "rust"@
    } else if ext == "kt"@ {
        "kotlin"@
    } else if ext == "jl"@ {
        "julia"@
    } else if ext == "sh"@ {
        "bash"@
    } else if ext == "bash"@ {
        "bash"@
    } else if ext == "cmd"@ {
        "cmd"@
    } else if ext == "bat"@ {
        "cmd"@
    } else if ext == "ps1"@ {
        "powershell"@
    } else if ext == "lua"@ {
        "lua"@
    } else if ext == "cs"@ {
        "csharp"@
    } else if ext == "ts"@ {
        "typescript"@
    } else if ext == "tsx"@ {
        "typescript"@
    } else if ext == "js"@ {
        "javascript"@
    } else if ext == "jsx"@ {
        "javascript"@
    } else if ext == "go"@ {
        "go"@
    } else if ext == "zig"@ {
        "zig"@
    } else if ext == "nim"@ {
        "nim"@
    } else if ext == "gleam"@ {
        "gleam"@
    } else if ext == "exs"@ {
        "elixir"@
    } else if ext == "ex"@ {
        "elixir"@
    } else if ext == "erl"@ {
        "erlang"@
    } else if ext == "hrl"@ {
        "erlang"@
    } else if ext == "hs"@ {
        "haskell"@
    } else if ext == "lhs"@ {
        "haskell"@
    } else if ext == "ml"@ {
        "ocaml"@
    } else if ext == "mli"@ {
        "ocaml"@
    } else if ext == "pl"@ {
        "perl"@
    } else if ext == "pm"@ {
        "perl"@
    } else if ext == "php"@ {
        "php"@
    } else if ext == "rb"@ {
        "ruby"@
    } else if ext == "erb"@ {
        "ruby"@
    } else if ext == "r"@ {
        "r"@
    } else if ext == "rst"@ {
        "rst"@
    } else if ext == "sql"@ {
        "sql"@
    } else if ext == "swift"@ {
        "swift"@
    } else if ext == "vue"@ {
        "vue"@
    } else if ext == "css"@ {
        "css"@
    } else if ext == "scss"@ {
        "scss"@
    } else if ext == "less"@ {
        "less"@
    } else {
        Seq::empty()
    }
}

/// What the classifier returns for a raw extension: the table is consulted
/// with the extension lowercased.
pub open spec fn tag_for_spec(ext: Seq<char>) -> Seq<char> {
    lang_spec(lower_spec(ext))
}

/// An extension is known when its lowercased form is a key of the table
/// (every mapped tag is a non-empty string).
pub open spec fn is_known_spec(ext: Seq<char>) -> bool {
    tag_for_spec(ext).len() != 0
}

/// The language tag for a code block, looked up by the file extension
/// (lowercased); the empty string when the extension is not in the table.
pub fn codeblock_lang(extension: &str) -> (r: &'static str)
    ensures
        r@ == tag_for_spec(extension@),
{
    if eq_lowered(extension, "md") {
        "markdown"
    } else if eq_lowered(extension, "json") {
        "json"
    } else if eq_lowered(extension, "yml") {
        "yaml"
    } else if eq_lowered(extension, "toml") {
        "toml"
    } else if eq_lowered(extension, "ini") {
        "ini"
    } else if eq_lowered(extension, "txt") {
        "plaintext"
    } else if eq_lowered(extension, "yaml") {
        "yaml"
    } else if eq_lowered(extension, "xml") {
        "xml"
    } else if eq_lowered(extension, "xslt") {
        "xml"
    } else if eq_lowered(extension, "xsl") {
        "xml"
    } else if eq_lowered(extension, "xsd") {
        "xml"
    } else if eq_lowered(extension, "py") {
        "python"
    } else if eq_lowered(extension, "pyi") {
        "python"
    } else if eq_lowered(extension, "c") {
        "c"
    } else if eq_lowered(extension, "h") {
        "cpp"
    } else if eq_lowered(extension, "cpp") {
        "cpp"
    } else if eq_lowered(extension, "hpp") {
        "cpp"
    } else if eq_lowered(extension, "inl") {
        "cpp"
    } else if eq_lowered(extension, "java") {
        "java"
    } else if eq_lowered(extension, "rs") {
        "rust"
    } else if eq_lowered(extension, "kt") {
        "kotlin"
    } else if eq_lowered(extension, "jl") {
        "julia"
    } else if eq_lowered(extension, "sh") {
        "bash"
    } else if eq_lowered(extension, "bash") {
        "bash"
    } else if eq_lowered(extension, "cmd") {
        "cmd"
    } else if eq_lowered(extension, "bat") {
        "cmd"
    } else if eq_lowered(extension, "ps1") {
        "powershell"
    } else if eq_lowered(extension, "lua") {
        "lua"
    } else if eq_lowered(extension, "cs") {
        "csharp"
    } else if eq_lowered(extension, "ts") {
        "typescript"
    } else if eq_lowered(extension, "tsx") {
        "typescript"
    } else if eq_lowered(extension, "js") {
        "javascript"
    } else if eq_lowered(extension, "jsx") {
        "javascript"
    } else if eq_lowered(extension, "go") {
        "go"
    } else if eq_lowered(extension, "zig") {
        "zig"
    } else if eq_lowered(extension, "nim") {
        "nim"
    } else if eq_lowered(extension, "gleam") {
        "gleam"
    } else if eq_lowered(extension, "exs") {
        "elixir"
    } else if eq_lowered(extension, "ex") {
        "elixir"
    } else if eq_lowered(extension, "erl") {
        "erlang"
    } else if eq_lowered(extension, "hrl") {
        "erlang"
    } else if eq_lowered(extension, "hs") {
        "haskell"
    } else if eq_lowered(extension, "lhs") {
        "haskell"
    } else if eq_lowered(extension, "ml") {
        "ocaml"
    } else if eq_lowered(extension, "mli") {
        "ocaml"
    } else if eq_lowered(extension, "pl") {
        "perl"
    } else if eq_lowered(extension, "pm") {
        "perl"
    } else if eq_lowered(extension, "php") {
        "php"
    } else if eq_lowered(extension, "rb") {
        "ruby"
    } else if eq_lowered(extension, "erb") {
        "ruby"
    } else if eq_lowered(extension, "r") {
        "r"
    } else if eq_lowered(extension, "rst") {
        "rst"
    } else if eq_lowered(extension, "sql") {
        "sql"
    } else if eq_lowered(extension, "swift") {
        "swift"
    } else if eq_lowered(extension, "vue") {
        "vue"
    } else if eq_lowered(extension, "css") {
        "css"
    } else if eq_lowered(extension, "scss") {
        "scss"
    } else if eq_lowered(extension, "less") {
        "less"
    } else {
        proof {
            reveal_strlit("");
            assert(""@ =~= Seq::<char>::empty());
        }
        ""
    }
}

/// Membership test for the file filter: does the extension map to a tag?
pub fn is_known_extension(extension: &str) -> (r: bool)
    ensures
        r == is_known_spec(extension@),
{
    let lang = codeblock_lang(extension);
    !lang.is_empty()
}

/// The tag actually written on a fenced block: the mapped tag when the
/// extension is known, otherwise the raw extension itself (possibly empty,
/// which yields an untagged fence).
pub open spec fn block_tag_spec(ext: Seq<char>) -> Seq<char> {
    if is_known_spec(ext) {
        tag_for_spec(ext)
    } else {
        ext
    }
}

/// Pick the tag for a file's fenced block from its raw extension.
pub fn block_tag<'a>(extension: &'a str) -> (r: &'a str)
    ensures
        r@ == block_tag_spec(extension@),
{
    let lang = codeblock_lang(extension);
    if lang.is_empty() {
        extension
    } else {
        lang
    }
}

} // verus!
