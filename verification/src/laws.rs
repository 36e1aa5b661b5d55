//! Properties of the assembled document, stated and proved over the same
//! spec functions the renderer's contracts use: which headings a traversal
//! emits, how heading levels relate to depth, what a binary file leaves
//! behind, and that a fenced block gives the file's text back unchanged.

use vstd::prelude::*;

use crate::render::{
    dir_heading_of, document_of, entry_output, fenced_block_spec, file_count, folder_count,
    hashes, heading_line, EntryKind, FileContent, Mode, TraversalEntry,
};

verus! {

/// Is this entry a directory?
pub open spec fn is_directory(e: TraversalEntry) -> bool {
    e.kind is Directory
}

/// Is this entry a file whose bytes were not valid UTF-8?
pub open spec fn is_binary_file(e: TraversalEntry) -> bool {
    match e.kind {
        EntryKind::File(c) => c is Binary,
        EntryKind::Directory => false,
    }
}

/// The directory entries of a traversal, in traversal order.
pub open spec fn directories_of(entries: Seq<TraversalEntry>) -> Seq<TraversalEntry>
    decreases entries.len(),
{
    if entries.len() == 0 {
        Seq::empty()
    } else {
        let rest = directories_of(entries.drop_last());
        if is_directory(entries.last()) {
            rest.push(entries.last())
        } else {
            rest
        }
    }
}

/// The directory headings a traversal emits, in traversal order, as the
/// rendering recursion produces them.
pub open spec fn dir_heading_seq(root: Seq<char>, entries: Seq<TraversalEntry>) -> Seq<Seq<char>>
    decreases entries.len(),
{
    if entries.len() == 0 {
        Seq::empty()
    } else {
        let rest = dir_heading_seq(root, entries.drop_last());
        if is_directory(entries.last()) {
            rest.push(dir_heading_of(root, entries.last()))
        } else {
            rest
        }
    }
}

/// Law: the directory headings emitted are exactly the non-ignored
/// directories handed to the renderer — the root itself is never among the
/// entries — one heading per directory, in traversal order; and a
/// directory's whole contribution to the document is that one heading,
/// whatever the mode. Files add no directory heading: their contribution is
/// a file heading plus a fenced block, or nothing.
pub proof fn lemma_directory_headings(
    root: Seq<char>,
    entries: Seq<TraversalEntry>,
    mode: Mode,
)
    ensures
        dir_heading_seq(root, entries).len() == directories_of(entries).len(),
        directories_of(entries).len() == folder_count(entries),
        forall|i: int|
            0 <= i < directories_of(entries).len() ==> #[trigger] dir_heading_seq(root, entries)[i]
                == dir_heading_of(root, directories_of(entries)[i]),
        forall|i: int|
            0 <= i < directories_of(entries).len() ==> is_directory(
                #[trigger] directories_of(entries)[i],
            ),
        forall|i: int|
            0 <= i < entries.len() && is_directory(#[trigger] entries[i]) ==> entry_output(
                root,
                entries[i],
                mode,
            ) == dir_heading_of(root, entries[i]),
    decreases entries.len(),
{
    if entries.len() > 0 {
        lemma_directory_headings(root, entries.drop_last(), mode);
        assert(forall|i: int|
            0 <= i < entries.len() - 1 ==> #[trigger] entries[i] == entries.drop_last()[i]);
    }
}

/// The marker characters of `hashes(n)`: there are `n` of them, all `#`.
pub proof fn lemma_hashes(n: int)
    requires
        0 <= n,
    ensures
        hashes(n).len() == n,
        forall|i: int| 0 <= i < n ==> hashes(n)[i] == '#',
    decreases n,
{
    reveal_strlit("#");
    if n > 0 {
        lemma_hashes(n - 1);
    }
}

/// Law: a heading at level `level` opens with exactly `level` marker
/// characters: positions 0 through `level - 1` hold `#` and position
/// `level` holds a space. The renderer emits every node at traversal depth
/// `d` with `level == d + 1`, so deeper nesting always gives deeper
/// headings.
pub proof fn lemma_heading_level(level: int, title: Seq<char>)
    requires
        0 <= level,
    ensures
        heading_line(level, title).len() == level + title.len() + 5,
        forall|i: int| 0 <= i < level ==> heading_line(level, title)[i] == '#',
        heading_line(level, title)[level] == ' ',
{
    lemma_hashes(level);
    reveal_strlit(" `");
    reveal_strlit("`\n\n");
    assert forall|i: int| 0 <= i < level implies heading_line(level, title)[i] == '#' by {
        assert(heading_line(level, title)[i] == hashes(level)[i]);
    }
    assert(heading_line(level, title)[level] == " `"@[0]);
}

/// Law: an entry that renders a heading — a directory, or an included text
/// file — renders it at level `depth + 1`: its output opens with exactly
/// `depth + 1` markers followed by a space.
pub proof fn lemma_entry_heading_level(root: Seq<char>, e: TraversalEntry, mode: Mode)
    requires
        is_directory(e) || crate::render::rendered_file(e, mode),
    ensures
        entry_output(root, e, mode).len() > e.depth + 1,
        forall|i: int| 0 <= i < e.depth + 1 ==> entry_output(root, e, mode)[i] == '#',
        entry_output(root, e, mode)[e.depth + 1] == ' ',
{
    match e.kind {
        EntryKind::Directory => {
            lemma_heading_level(e.depth + 1, crate::render::dir_title_of(root, e));
        },
        EntryKind::File(c) => match c {
            FileContent::Text(s) => {
                let title = crate::paths::relative_title_of(root, e.path@);
                lemma_heading_level(e.depth + 1, title);
                let h = heading_line(e.depth + 1, title);
                let out = entry_output(root, e, mode);
                assert(out == h + fenced_block_spec(
                    crate::classify::block_tag_spec(crate::paths::extension_of(e.path@)),
                    s@,
                ));
                assert forall|i: int| 0 <= i <= e.depth + 1 implies out[i] == h[i] by {}
            },
            FileContent::Binary => {
                assert(false);
            },
            FileContent::Unreadable => {
                assert(false);
            },
        },
    }
}

/// Law: a file whose bytes are not valid UTF-8 leaves no trace. Appending
/// such an entry to any traversal changes neither the document nor the file
/// and folder counts.
pub proof fn lemma_binary_file_invisible(
    root: Seq<char>,
    entries: Seq<TraversalEntry>,
    e: TraversalEntry,
    mode: Mode,
)
    requires
        is_binary_file(e),
    ensures
        entry_output(root, e, mode) == Seq::<char>::empty(),
        document_of(root, entries.push(e), mode) == document_of(root, entries, mode),
        file_count(entries.push(e), mode) == file_count(entries, mode),
        folder_count(entries.push(e)) == folder_count(entries),
{
    assert(entries.push(e).drop_last() =~= entries);
    assert(entries.push(e).last() == e);
    assert(document_of(root, entries, mode) + Seq::<char>::empty() =~= document_of(
        root,
        entries,
        mode,
    ));
}

/// Law: the tag written on an emitted fenced block is the classifier's
/// mapped tag exactly when the file's extension is known, and the raw
/// extension itself (possibly empty) exactly when it is not.
pub proof fn lemma_block_tag(ext: Seq<char>)
    ensures
        crate::classify::is_known_spec(ext) ==> crate::classify::block_tag_spec(ext)
            == crate::classify::tag_for_spec(ext),
        !crate::classify::is_known_spec(ext) ==> crate::classify::block_tag_spec(ext) == ext,
{
}

/// The fence delimiter: four backticks.
pub open spec fn fence() -> Seq<char> {
    "````"@
}

/// Does `needle` stand in `s` starting at position `i`?
pub open spec fn occurs_at(s: Seq<char>, needle: Seq<char>, i: int) -> bool {
    0 <= i && i + needle.len() <= s.len() && s.subrange(i, i + needle.len()) == needle
}

/// Does `needle` stand anywhere in `s`?
pub open spec fn contains_seq(s: Seq<char>, needle: Seq<char>) -> bool {
    exists|i: int| occurs_at(s, needle, i)
}

/// The first index of `c` in `s`; `s.len()` when `c` does not occur.
pub open spec fn find_char(s: Seq<char>, c: char) -> int
    decreases s.len(),
{
    if s.len() == 0 {
        0
    } else if s[0] == c {
        0
    } else {
        1 + find_char(s.drop_first(), c)
    }
}

/// When `c` stands at `p` and nowhere earlier, `p` is the first occurrence.
pub proof fn lemma_find_char_at(s: Seq<char>, c: char, p: int)
    requires
        0 <= p < s.len(),
        s[p] == c,
        forall|k: int| 0 <= k < p ==> s[k] != c,
    ensures
        find_char(s, c) == p,
    decreases s.len(),
{
    if p > 0 {
        assert(s.drop_first()[p - 1] == s[p]);
        assert forall|k: int| 0 <= k < p - 1 implies s.drop_first()[k] != c by {
            assert(s.drop_first()[k] == s[k + 1]);
        }
        lemma_find_char_at(s.drop_first(), c, p - 1);
    }
}

/// The start of the last occurrence of the fence in `s`; -1 when none.
pub open spec fn last_fence_at(s: Seq<char>) -> int
    decreases s.len(),
{
    if s.len() < 4 {
        -1
    } else if s.subrange(s.len() - 4, s.len() as int) == fence() {
        s.len() - 4
    } else {
        last_fence_at(s.take(s.len() - 1))
    }
}

/// When the fence stands at `p` and nowhere later, `p` is its last
/// occurrence.
pub proof fn lemma_last_fence_at(s: Seq<char>, p: int)
    requires
        occurs_at(s, fence(), p),
        forall|q: int| q > p ==> !occurs_at(s, fence(), q),
    ensures
        last_fence_at(s) == p,
    decreases s.len(),
{
    reveal_strlit("````");
    if p == s.len() - 4 {
    } else {
        assert(!occurs_at(s, fence(), s.len() - 4));
        assert(s.subrange(s.len() - 4, s.len() as int) != fence());
        let t = s.take(s.len() - 1);
        assert(t.subrange(p, p + 4) =~= s.subrange(p, p + 4));
        assert(occurs_at(t, fence(), p));
        assert forall|q: int| q > p implies !occurs_at(t, fence(), q) by {
            assert(!occurs_at(s, fence(), q));
            if 0 <= q && q + 4 <= t.len() {
                assert(t.subrange(q, q + 4) =~= s.subrange(q, q + 4));
                assert(s.subrange(q, q + 4) != fence());
            }
        }
        lemma_last_fence_at(t, p);
    }
}

/// The text between a block's opening fence line and its closing fence:
/// everything after the first line break, up to the last fence.
pub open spec fn extract_fenced(block: Seq<char>) -> Seq<char> {
    block.subrange(find_char(block, '\n') + 1, last_fence_at(block))
}

/// Law (round trip): a fenced block gives the file's text back unchanged.
/// For any content with no four-backtick run — exactly what the delimiter
/// choice is for — and any tag without a line break (a tag with one would
/// cut the opening line short), the text between the end of the opening
/// fence line and the closing fence is the content, character for character.
pub proof fn lemma_fence_round_trip(tag: Seq<char>, content: Seq<char>)
    requires
        !contains_seq(content, fence()),
        !tag.contains('\n'),
    ensures
        extract_fenced(fenced_block_spec(tag, content)) == content,
{
    reveal_strlit("````");
    reveal_strlit("\n");
    reveal_strlit("````\n\n");
    let block = fenced_block_spec(tag, content);
    let tl = tag.len() as int;
    let cl = 4 + tl + 1 + content.len();
    assert(block.len() == cl + 6);
    assert(block[4 + tl] == '\n');
    assert forall|k: int| 0 <= k < 4 + tl implies block[k] != '\n' by {
        if k < 4 {
            assert(block[k] == "````"@[k]);
        } else {
            assert(block[k] == tag[k - 4]);
        }
    }
    lemma_find_char_at(block, '\n', 4 + tl);
    assert(block.subrange(cl, cl + 4) =~= fence());
    assert forall|q: int| q > cl implies !occurs_at(block, fence(), q) by {
        if 0 <= q && q + 4 <= block.len() {
            if q == cl + 1 {
                assert(block.subrange(q, q + 4)[3] == block[cl + 4]);
            }
            if q == cl + 2 {
                assert(block.subrange(q, q + 4)[2] == block[cl + 4]);
            }
        }
    }
    lemma_last_fence_at(block, cl);
    assert(block.subrange(4 + tl + 1, cl) =~= content);
}

} // verus!
