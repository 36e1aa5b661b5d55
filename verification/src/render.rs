//! Markdown assembly: one pre-order pass over the visited tree entries,
//! emitting a heading per directory and a heading plus fenced code block per
//! included text file.
//!
//! The walk itself (and every file read) happens outside; its result is
//! handed in as a sequence of [`TraversalEntry`] values in pre-order, the
//! traversal root itself excluded. An entry's `depth` counts the directories
//! strictly between it and the root, so a direct child of the root has depth
//! 0 and renders as a level-1 heading.

use vstd::prelude::*;

use crate::classify::{block_tag, block_tag_spec, is_known_extension, is_known_spec};
use crate::paths::{
    extension_of, file_name, file_name_of, get_file_extension, relative_title, relative_title_of,
};

verus! {

/// The outcome of reading one file's bytes as UTF-8 text.
pub enum FileContent {
    /// The file decoded as UTF-8; its exact content.
    Text(String),
    /// The bytes are not valid UTF-8: the file is skipped silently.
    Binary,
    /// The file could not be read at all: it is skipped, the walk goes on.
    Unreadable,
}

/// What kind of tree node an entry is.
pub enum EntryKind {
    Directory,
    File(FileContent),
}

/// One visited node of the tree, in traversal order. `path` is the node's
/// full path; `depth` is the number of directories strictly between the node
/// and the traversal root.
pub struct TraversalEntry {
    pub path: String,
    pub depth: usize,
    pub kind: EntryKind,
}

/// Which files are included: every file, or only those whose extension the
/// classifier knows.
#[derive(Clone, Copy)]
pub enum Mode {
    Filtered,
    AllFiles,
}

/// The assembled document together with the counts of files and folders
/// actually rendered.
pub struct RenderedDocument {
    pub markdown: String,
    pub n_files: usize,
    pub n_folders: usize,
}

/// `n` repetitions of the heading marker.
pub open spec fn hashes(n: int) -> Seq<char>
    decreases n,
{
    if n <= 0 {
        Seq::empty()
    } else {
        hashes(n - 1) + "#"@
    }
}

/// A Markdown heading at the given level; the title stands inside inline
/// code markers so path characters read literally.
pub open spec fn heading_line(level: int, title: Seq<char>) -> Seq<char> {
    hashes(level) + " `"@ + title + "`\n\n"@
}

/// A fenced code block: four backticks (so content holding triple-backtick
/// fences still nests safely), the tag, the raw content, the closing fence.
pub open spec fn fenced_block_spec(tag: Seq<char>, content: Seq<char>) -> Seq<char> {
    "````"@ + tag + "\n"@ + content + "````\n\n"@
}

/// The Markdown emitted for one included text file: its heading, titled with
/// the path relative to the root, then the fenced block.
pub open spec fn file_markdown_spec(
    root: Seq<char>,
    path: Seq<char>,
    content: Seq<char>,
    level: int,
) -> Seq<char> {
    heading_line(level, relative_title_of(root, path)) + fenced_block_spec(
        block_tag_spec(extension_of(path)),
        content,
    )
}

/// The file-inclusion predicate of the selected mode.
pub open spec fn included_spec(mode: Mode, path: Seq<char>) -> bool {
    match mode {
        Mode::AllFiles => true,
        Mode::Filtered => is_known_spec(extension_of(path)),
    }
}

/// A directory's heading title: a direct child of the root goes by its bare
/// name, anything deeper by its path relative to the root.
pub open spec fn dir_title_of(root: Seq<char>, e: TraversalEntry) -> Seq<char> {
    if e.depth == 0 {
        file_name_of(e.path@)
    } else {
        relative_title_of(root, e.path@)
    }
}

/// A directory entry's heading.
pub open spec fn dir_heading_of(root: Seq<char>, e: TraversalEntry) -> Seq<char> {
    heading_line(e.depth + 1, dir_title_of(root, e))
}

/// Everything one entry contributes to the document: a heading for a
/// directory; a heading plus fenced block for an included text file; nothing
/// for an excluded, binary or unreadable file.
pub open spec fn entry_output(root: Seq<char>, e: TraversalEntry, mode: Mode) -> Seq<char> {
    match e.kind {
        EntryKind::Directory => dir_heading_of(root, e),
        EntryKind::File(c) => if included_spec(mode, e.path@) {
            match c {
                FileContent::Text(s) => file_markdown_spec(root, e.path@, s@, e.depth + 1),
                FileContent::Binary => Seq::empty(),
                FileContent::Unreadable => Seq::empty(),
            }
        } else {
            Seq::empty()
        },
    }
}

/// The whole document: the entries' outputs concatenated in traversal order.
pub open spec fn document_of(root: Seq<char>, entries: Seq<TraversalEntry>, mode: Mode) -> Seq<
    char,
>
    decreases entries.len(),
{
    if entries.len() == 0 {
        Seq::empty()
    } else {
        document_of(root, entries.drop_last(), mode) + entry_output(root, entries.last(), mode)
    }
}

/// Does this entry count as a rendered file: an included file that decoded
/// as text? Binary and unreadable files are excluded from the count.
pub open spec fn rendered_file(e: TraversalEntry, mode: Mode) -> bool {
    match e.kind {
        EntryKind::File(c) => included_spec(mode, e.path@) && c is Text,
        EntryKind::Directory => false,
    }
}

/// How many entries render as files.
pub open spec fn file_count(entries: Seq<TraversalEntry>, mode: Mode) -> int
    decreases entries.len(),
{
    if entries.len() == 0 {
        0
    } else {
        file_count(entries.drop_last(), mode) + if rendered_file(entries.last(), mode) {
            1int
        } else {
            0int
        }
    }
}

/// How many entries are directories.
pub open spec fn folder_count(entries: Seq<TraversalEntry>) -> int
    decreases entries.len(),
{
    if entries.len() == 0 {
        0
    } else {
        folder_count(entries.drop_last()) + if entries.last().kind is Directory {
            1int
        } else {
            0int
        }
    }
}

/// Every depth leaves room for the heading level `depth + 1` in a `usize`.
pub open spec fn entries_wf(entries: Seq<TraversalEntry>) -> bool {
    forall|i: int| 0 <= i < entries.len() ==> (#[trigger] entries[i]).depth < usize::MAX
}

/// Append a heading: `title_level` marker characters, a space, the title in
/// inline code markers, and a blank line.
pub fn push_title(target: &mut String, title: &str, title_level: usize)
    ensures
        final(target)@ == old(target)@ + heading_line(title_level as int, title@),
{
    let mut i: usize = 0;
    while i < title_level
        invariant
            i <= title_level,
            target@ == old(target)@ + hashes(i as int),
        decreases title_level - i,
    {
        target.append("#");
        i = i + 1;
        proof {
            assert(target@ =~= old(target)@ + hashes(i as int));
        }
    }
    target.append(" `");
    target.append(title);
    target.append("`\n\n");
    proof {
        assert(target@ =~= old(target)@ + heading_line(title_level as int, title@));
    }
}

/// Render one text file's heading and fenced code block. The content is
/// handed in already read and decoded; the block's tag comes from the file's
/// extension per the classifier, falling back to the raw extension.
pub fn file_to_markdown(
    root_path: &str,
    file_path: &str,
    content: &str,
    title_level: usize,
) -> (r: String)
    ensures
        r@ == file_markdown_spec(root_path@, file_path@, content@, title_level as int),
{
    let mut result = String::new();
    let title = relative_title(root_path, file_path);
    push_title(&mut result, title, title_level);
    let extension = get_file_extension(file_path);
    let lang = block_tag(extension);
    result.append("````");
    result.append(lang);
    result.append("\n");
    result.append(content);
    result.append("````\n\n");
    proof {
        assert(result@ =~= file_markdown_spec(
            root_path@,
            file_path@,
            content@,
            title_level as int,
        ));
    }
    result
}

/// Decide whether a file takes part in the output under the given mode.
pub fn file_included(mode: Mode, file_path: &str) -> (r: bool)
    ensures
        r == included_spec(mode, file_path@),
{
    match mode {
        Mode::AllFiles => true,
        Mode::Filtered => {
            let extension = get_file_extension(file_path);
            is_known_extension(extension)
        },
    }
}

/// Assemble the Markdown document for one traversal.
///
/// `entries` is the pre-order sequence of visited nodes (the root itself and
/// everything the ignore rules excluded do not appear in it); `root_path` is
/// the traversal root, stripped off every deeper title. Returns the document
/// together with the counts of directories and of files actually rendered.
pub fn comprehend_path_to_markdown(
    root_path: &str,
    entries: &Vec<TraversalEntry>,
    mode: Mode,
) -> (r: RenderedDocument)
    requires
        entries_wf(entries@),
    ensures
        r.markdown@ == document_of(root_path@, entries@, mode),
        r.n_files == file_count(entries@, mode),
        r.n_folders == folder_count(entries@),
{
    let mut result = String::new();
    let mut n_files: usize = 0;
    let mut n_folders: usize = 0;
    let n: usize = entries.len();
    let mut idx: usize = 0;
    while idx < n
        invariant
            idx <= n,
            n == entries@.len(),
            entries_wf(entries@),
            result@ == document_of(root_path@, entries@.take(idx as int), mode),
            n_files == file_count(entries@.take(idx as int), mode),
            n_folders == folder_count(entries@.take(idx as int)),
            n_files <= idx,
            n_folders <= idx,
        decreases n - idx,
    {
        let e = &entries[idx];
        proof {
            assert(entries@.take(idx as int + 1).drop_last() =~= entries@.take(idx as int));
            assert(entries@.take(idx as int + 1).last() == entries@[idx as int]);
        }
        match &e.kind {
            EntryKind::Directory => {
                n_folders = n_folders + 1;
                let level = e.depth + 1;
                let title = if e.depth == 0 {
                    file_name(e.path.as_str())
                } else {
                    relative_title(root_path, e.path.as_str())
                };
                push_title(&mut result, title, level);
            },
            EntryKind::File(content) => {
                let wanted = file_included(mode, e.path.as_str());
                if wanted {
                    match content {
                        FileContent::Text(text) => {
                            n_files = n_files + 1;
                            let level = e.depth + 1;
                            let md = file_to_markdown(
                                root_path,
                                e.path.as_str(),
                                text.as_str(),
                                level,
                            );
                            result.append(md.as_str());
                        },
                        FileContent::Binary => {},
                        FileContent::Unreadable => {},
                    }
                }
            },
        }
        idx = idx + 1;
        proof {
            assert(result@ =~= document_of(root_path@, entries@.take(idx as int), mode));
        }
    }
    proof {
        assert(entries@.take(n as int) =~= entries@);
    }
    RenderedDocument { markdown: result, n_files, n_folders }
}

} // verus!
