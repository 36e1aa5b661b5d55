//! Path handling over plain strings: extracting a file name and extension,
//! and computing a heading title relative to the traversal root.
//!
//! Paths are modeled as character sequences with `/` as the separator. A
//! file's extension is the part of its name after the last dot, provided that
//! dot is not the name's first character (so a name like `.gitignore` has no
//! extension); a name without a dot has the empty extension.

use vstd::prelude::*;

verus! {

/// Index of the last occurrence of `c` in `s`, or -1 when `c` does not occur.
pub open spec fn last_index_of(s: Seq<char>, c: char) -> int
    decreases s.len(),
{
    if s.len() == 0 {
        -1
    } else if s.last() == c {
        s.len() - 1
    } else {
        last_index_of(s.drop_last(), c)
    }
}

pub proof fn lemma_last_index_of(s: Seq<char>, c: char)
    ensures
        -1 <= last_index_of(s, c) < s.len(),
        last_index_of(s, c) >= 0 ==> s[last_index_of(s, c)] == c,
        forall|k: int| last_index_of(s, c) < k < s.len() ==> s[k] != c,
    decreases s.len(),
{
    if s.len() == 0 {
    } else if s.last() == c {
    } else {
        lemma_last_index_of(s.drop_last(), c);
        assert forall|k: int| last_index_of(s, c) < k < s.len() implies s[k] != c by {
            if k < s.len() - 1 {
                assert(s.drop_last()[k] == s[k]);
            }
        }
    }
}

/// When `c` stands at `p` and nowhere later, `p` is the last occurrence.
pub proof fn lemma_last_index_of_at(s: Seq<char>, c: char, p: int)
    requires
        0 <= p < s.len(),
        s[p] == c,
        forall|k: int| p < k < s.len() ==> s[k] != c,
    ensures
        last_index_of(s, c) == p,
    decreases s.len(),
{
    if p == s.len() - 1 {
    } else {
        assert(s.last() != c);
        assert(s.drop_last()[p] == s[p]);
        assert forall|k: int| p < k < s.drop_last().len() implies s.drop_last()[k] != c by {
            assert(s.drop_last()[k] == s[k]);
        }
        lemma_last_index_of_at(s.drop_last(), c, p);
    }
}

/// The part of `path` after its last `/`; the whole path when it has none.
pub open spec fn file_name_of(path: Seq<char>) -> Seq<char> {
    path.subrange(last_index_of(path, '/') + 1, path.len() as int)
}

/// The file name's part after its last dot, provided that dot is neither
/// absent nor the name's first character; the empty string otherwise.
pub open spec fn extension_of(path: Seq<char>) -> Seq<char> {
    let name = file_name_of(path);
    let d = last_index_of(name, '.');
    if d <= 0 {
        Seq::empty()
    } else {
        name.subrange(d + 1, name.len() as int)
    }
}

/// The bare file name of a path.
pub fn file_name<'a>(path: &'a str) -> (r: &'a str)
    ensures
        r@ == file_name_of(path@),
{
    let n: usize = path.unicode_len();
    let mut i: usize = n;
    while i > 0
        invariant
            i <= n,
            n == path@.len(),
            forall|k: int| i <= k < n ==> path@[k] != '/',
        decreases i,
    {
        if path.get_char(i - 1) == '/' {
            proof {
                lemma_last_index_of_at(path@, '/', i - 1);
            }
            return path.substring_char(i, n);
        }
        i = i - 1;
    }
    proof {
        lemma_last_index_of(path@, '/');
        let l = last_index_of(path@, '/');
        if l >= 0 {
            assert(path@[l] != '/');
        }
        assert(path@.subrange(0, path@.len() as int) =~= path@);
    }
    path
}

/// The extension of the file a path names.
pub fn get_file_extension<'a>(path: &'a str) -> (r: &'a str)
    ensures
        r@ == extension_of(path@),
{
    let n: usize = path.unicode_len();
    let mut i: usize = n;
    while i > 0
        invariant
            i <= n,
            n == path@.len(),
            forall|k: int| i <= k < n ==> path@[k] != '/' && path@[k] != '.',
        decreases i,
    {
        let c = path.get_char(i - 1);
        if c == '/' {
            // The name reaches from here to the end and holds no dot.
            proof {
                let j = i - 1;
                lemma_last_index_of_at(path@, '/', j as int);
                let name = file_name_of(path@);
                lemma_last_index_of(name, '.');
                let d = last_index_of(name, '.');
                if d >= 0 {
                    assert(name[d] == path@[j + 1 + d]);
                    assert(path@[j + 1 + d] != '.');
                }
                reveal_strlit("");
                assert(""@ =~= Seq::<char>::empty());
            }
            return "";
        }
        if c == '.' {
            if i == 1 || path.get_char(i - 2) == '/' {
                // The dot is the first character of the name: no extension.
                proof {
                    let j = i - 1;
                    let l = last_index_of(path@, '/');
                    lemma_last_index_of(path@, '/');
                    if j == 0 {
                        if l >= 0 {
                            assert(path@[l] != '/');
                        }
                        assert(l == -1);
                    } else {
                        assert(path@[j - 1] == '/');
                        lemma_last_index_of_at(path@, '/', j - 1);
                    }
                    let name = file_name_of(path@);
                    assert(name[0] == path@[j]);
                    assert forall|m: int| 0 < m < name.len() implies name[m] != '.' by {
                        assert(name[m] == path@[j + m]);
                    }
                    lemma_last_index_of_at(name, '.', 0);
                    reveal_strlit("");
                    assert(""@ =~= Seq::<char>::empty());
                }
                return "";
            }
            // The last dot of the name, later than its first character.
            proof {
                let j = i - 1;
                let l = last_index_of(path@, '/');
                lemma_last_index_of(path@, '/');
                if l >= j - 1 {
                    assert(path@[l] == '/');
                    assert(l != j - 1);
                    assert(l != j);
                    assert(l < n);
                    assert(false);
                }
                let ns = l + 1;
                let name = file_name_of(path@);
                assert(name.len() == n - ns);
                assert(name[j - ns] == path@[j]);
                assert forall|m: int| j - ns < m < name.len() implies name[m] != '.' by {
                    assert(name[m] == path@[ns + m]);
                }
                lemma_last_index_of_at(name, '.', j - ns);
                assert(name.subrange(j - ns + 1, name.len() as int) =~= path@.subrange(
                    j + 1,
                    n as int,
                ));
            }
            return path.substring_char(i, n);
        }
        i = i - 1;
    }
    proof {
        lemma_last_index_of(path@, '/');
        let l = last_index_of(path@, '/');
        if l >= 0 {
            assert(path@[l] != '/');
        }
        let name = file_name_of(path@);
        assert(name =~= path@);
        lemma_last_index_of(name, '.');
        let d = last_index_of(name, '.');
        if d >= 0 {
            assert(name[d] == path@[d]);
            assert(path@[d] != '.');
        }
        reveal_strlit("");
        assert(""@ =~= Seq::<char>::empty());
    }
    ""
}

/// Does `path` extend `root` by a `/` and at least one further character?
pub open spec fn is_under(root: Seq<char>, path: Seq<char>) -> bool {
    &&& path.len() > root.len()
    &&& path.subrange(0, root.len() as int) == root
    &&& path[root.len() as int] == '/'
}

/// The heading title for a path: its part after `root` and the separator
/// when it lies under `root`, else the path itself as a fallback.
pub open spec fn relative_title_of(root: Seq<char>, path: Seq<char>) -> Seq<char> {
    if is_under(root, path) {
        path.subrange(root.len() as int + 1, path.len() as int)
    } else {
        path
    }
}

/// Strip the traversal root (and the separator) off a path for use as a
/// heading title; a path not under the root is returned whole.
pub fn relative_title<'a>(root: &str, path: &'a str) -> (r: &'a str)
    ensures
        r@ == relative_title_of(root@, path@),
{
    let rn: usize = root.unicode_len();
    let pn: usize = path.unicode_len();
    if pn <= rn {
        return path;
    }
    if path.get_char(rn) != '/' {
        return path;
    }
    let mut i: usize = 0;
    while i < rn
        invariant
            i <= rn,
            rn == root@.len(),
            pn == path@.len(),
            pn > rn,
            path@[rn as int] == '/',
            forall|k: int| 0 <= k < i ==> path@[k] == root@[k],
        decreases rn - i,
    {
        if path.get_char(i) != root.get_char(i) {
            proof {
                assert(path@.subrange(0, rn as int)[i as int] == path@[i as int]);
            }
            return path;
        }
        i = i + 1;
    }
    proof {
        assert(path@.subrange(0, rn as int) =~= root@);
    }
    path.substring_char(rn + 1, pn)
}

} // verus!
