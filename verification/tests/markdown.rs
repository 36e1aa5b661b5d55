use comprehend::classify::{block_tag, codeblock_lang, is_known_extension};
use comprehend::paths::{file_name, get_file_extension, relative_title};
use comprehend::render::{
    comprehend_path_to_markdown, file_included, file_to_markdown, push_title, EntryKind,
    FileContent, Mode, TraversalEntry,
};

fn dir(path: &str, depth: usize) -> TraversalEntry {
    TraversalEntry { path: path.to_string(), depth, kind: EntryKind::Directory }
}

fn text_file(path: &str, depth: usize, content: &str) -> TraversalEntry {
    TraversalEntry {
        path: path.to_string(),
        depth,
        kind: EntryKind::File(FileContent::Text(content.to_string())),
    }
}

#[test]
fn classifier_known_extensions() {
    assert_eq!(codeblock_lang("py"), "python");
    assert_eq!(codeblock_lang("rs"), "rust");
    assert_eq!(codeblock_lang("md"), "markdown");
    assert_eq!(codeblock_lang("yml"), "yaml");
    assert_eq!(codeblock_lang("bat"), "cmd");
    assert_eq!(codeblock_lang("less"), "less");
}

#[test]
fn classifier_lowercases_at_lookup() {
    assert_eq!(codeblock_lang("RS"), "rust");
    assert_eq!(codeblock_lang("Py"), "python");
    assert!(is_known_extension("TOML"));
}

#[test]
fn classifier_unknown_extension_is_empty() {
    assert_eq!(codeblock_lang("unknownext"), "");
    assert_eq!(codeblock_lang(""), "");
    assert!(!is_known_extension("unknownext"));
    assert!(!is_known_extension(""));
}

#[test]
fn classifier_is_pure() {
    let first = codeblock_lang("jl");
    let second = codeblock_lang("jl");
    assert_eq!(first, second);
    assert_eq!(first, "julia");
}

#[test]
fn block_tag_falls_back_to_raw_extension() {
    assert_eq!(block_tag("py"), "python");
    assert_eq!(block_tag("unknownext"), "unknownext");
    assert_eq!(block_tag(""), "");
}

#[test]
fn extension_of_plain_names() {
    assert_eq!(get_file_extension("a/b/c.txt"), "txt");
    assert_eq!(get_file_extension("a/b.tar.gz"), "gz");
    assert_eq!(get_file_extension("noext"), "");
    assert_eq!(get_file_extension("a/b/noext"), "");
}

#[test]
fn extension_of_dot_names() {
    assert_eq!(get_file_extension("a/.gitignore"), "");
    assert_eq!(get_file_extension(".gitignore"), "");
    assert_eq!(get_file_extension("a/b."), "");
    assert_eq!(get_file_extension("a/.config.toml"), "toml");
}

#[test]
fn extension_ignores_dots_in_directories() {
    assert_eq!(get_file_extension("dir.d/file"), "");
    assert_eq!(get_file_extension("dir.d/file.rs"), "rs");
}

#[test]
fn file_name_takes_last_component() {
    assert_eq!(file_name("a/b/c.txt"), "c.txt");
    assert_eq!(file_name("plain"), "plain");
    assert_eq!(file_name("/r/sub"), "sub");
}

#[test]
fn relative_title_strips_root() {
    assert_eq!(relative_title("/r", "/r/x/y"), "x/y");
    assert_eq!(relative_title("/r", "/r/a.py"), "a.py");
}

#[test]
fn relative_title_falls_back_to_full_path() {
    assert_eq!(relative_title("/r", "/other/z"), "/other/z");
    assert_eq!(relative_title("/r", "/r"), "/r");
    assert_eq!(relative_title("/r", "/rooted/z"), "/rooted/z");
}

#[test]
fn push_title_writes_level_markers() {
    let mut s = String::from("start");
    push_title(&mut s, "t", 3);
    assert_eq!(s, "start### `t`\n\n");
}

#[test]
fn push_title_level_one() {
    let mut s = String::new();
    push_title(&mut s, "a.py", 1);
    assert_eq!(s, "# `a.py`\n\n");
}

#[test]
fn file_to_markdown_exact() {
    let md = file_to_markdown("/r", "/r/m.md", "hello\n", 2);
    assert_eq!(md, "## `m.md`\n\n````markdown\nhello\n````\n\n");
}

#[test]
fn file_to_markdown_untagged_fence_for_no_extension() {
    let md = file_to_markdown("/r", "/r/Makefile", "x", 1);
    assert_eq!(md, "# `Makefile`\n\n````\nx````\n\n");
}

#[test]
fn file_included_by_mode() {
    assert!(file_included(Mode::Filtered, "/r/a.py"));
    assert!(!file_included(Mode::Filtered, "/r/b.unknownext"));
    assert!(!file_included(Mode::Filtered, "/r/noext"));
    assert!(file_included(Mode::AllFiles, "/r/b.unknownext"));
    assert!(file_included(Mode::AllFiles, "/r/noext"));
}

#[test]
fn scenario_default_mode() {
    let entries = vec![
        text_file("/r/a.py", 0, "print(1)"),
        dir("/r/sub", 0),
        text_file("/r/sub/b.unknownext", 1, "xyz"),
    ];
    let out = comprehend_path_to_markdown("/r", &entries, Mode::Filtered);
    assert_eq!(out.markdown, "# `a.py`\n\n````python\nprint(1)````\n\n# `sub`\n\n");
    assert!(!out.markdown.contains("b.unknownext"));
    assert_eq!(out.n_files, 1);
    assert_eq!(out.n_folders, 1);
}

#[test]
fn scenario_all_files_mode() {
    let entries = vec![
        text_file("/r/a.py", 0, "print(1)"),
        dir("/r/sub", 0),
        text_file("/r/sub/b.unknownext", 1, "xyz"),
    ];
    let out = comprehend_path_to_markdown("/r", &entries, Mode::AllFiles);
    assert_eq!(
        out.markdown,
        "# `a.py`\n\n````python\nprint(1)````\n\n# `sub`\n\n## `sub/b.unknownext`\n\n````unknownext\nxyz````\n\n"
    );
    assert_eq!(out.n_files, 2);
    assert_eq!(out.n_folders, 1);
}

#[test]
fn scenario_empty_root() {
    let entries: Vec<TraversalEntry> = Vec::new();
    let out = comprehend_path_to_markdown("/r", &entries, Mode::Filtered);
    assert_eq!(out.markdown.len(), 0);
    assert_eq!(out.n_files, 0);
    assert_eq!(out.n_folders, 0);
}

#[test]
fn scenario_only_binary_file() {
    let entries = vec![TraversalEntry {
        path: "/r/blob.bin".to_string(),
        depth: 0,
        kind: EntryKind::File(FileContent::Binary),
    }];
    let out = comprehend_path_to_markdown("/r", &entries, Mode::AllFiles);
    assert_eq!(out.markdown.len(), 0);
    assert_eq!(out.n_files, 0);
    assert_eq!(out.n_folders, 0);
    let filtered = comprehend_path_to_markdown("/r", &entries, Mode::Filtered);
    assert_eq!(filtered.markdown.len(), 0);
    assert_eq!(filtered.n_files, 0);
}

#[test]
fn unreadable_file_is_skipped() {
    let entries = vec![
        TraversalEntry {
            path: "/r/gone.rs".to_string(),
            depth: 0,
            kind: EntryKind::File(FileContent::Unreadable),
        },
        text_file("/r/ok.rs", 0, "fn main() {}\n"),
    ];
    let out = comprehend_path_to_markdown("/r", &entries, Mode::Filtered);
    assert_eq!(out.markdown, "# `ok.rs`\n\n````rust\nfn main() {}\n````\n\n");
    assert_eq!(out.n_files, 1);
    assert_eq!(out.n_folders, 0);
}

#[test]
fn deeper_directories_use_relative_paths() {
    let entries = vec![dir("/r/a", 0), dir("/r/a/b", 1), dir("/r/a/b/c", 2)];
    let out = comprehend_path_to_markdown("/r", &entries, Mode::Filtered);
    assert_eq!(out.markdown, "# `a`\n\n## `a/b`\n\n### `a/b/c`\n\n");
    assert_eq!(out.n_folders, 3);
}

fn extract_between_fences(md: &str) -> &str {
    let open = md.find("````").expect("opening fence");
    let open_end = open + md[open..].find('\n').expect("opening fence line");
    let close = md.rfind("````").expect("closing fence");
    &md[open_end + 1..close]
}

#[test]
fn round_trip_plain_content() {
    let content = "fn f() {\n    1 + 1\n}\n";
    let md = file_to_markdown("/r", "/r/f.rs", content, 1);
    assert_eq!(extract_between_fences(&md), content);
}

#[test]
fn round_trip_content_with_triple_backticks() {
    let content = "```rust\nlet x = 1;\n```\n";
    let md = file_to_markdown("/r", "/r/snippet.md", content, 1);
    assert_eq!(extract_between_fences(&md), content);
}

#[test]
fn round_trip_content_ending_in_backticks() {
    let content = "ab```";
    let md = file_to_markdown("/r", "/r/odd.txt", content, 1);
    assert_eq!(extract_between_fences(&md), content);
}
