//! Names of the remote files. Both the archive and its sidecar are named after
//! the last component of the staging directory's path, so that any reader who
//! knows that path finds them without further state.

use vstd::prelude::*;
use vstd::string::*;

verus! {

/// Extension of the encrypted archive.
pub open spec fn archive_extension() -> Seq<char> {
    "tar.gz.gpg"@
}

/// Extension of the hash sidecar.
pub open spec fn sidecar_extension() -> Seq<char> {
    "gpg.xxhash"@
}

/// Position of the last `c` in `s`, or -1 where `s` holds none.
pub open spec fn last_index_of<T>(s: Seq<T>, c: T) -> int
    decreases s.len(),
{
    if s.len() == 0 {
        -1
    } else if s.last() == c {
        s.len() - 1
    } else {
        last_index_of(s.drop_last(), c)
    }
}

/// What `last_index_of` finds: a position of `c` with no `c` behind it.
pub proof fn lemma_last_index_of<T>(s: Seq<T>, c: T)
    ensures
        -1 <= last_index_of(s, c) < s.len(),
        last_index_of(s, c) >= 0 ==> s[last_index_of(s, c)] == c,
        forall|j: int| last_index_of(s, c) < j < s.len() ==> s[j] != c,
    decreases s.len(),
{
    if s.len() > 0 && s.last() != c {
        let t = s.drop_last();
        lemma_last_index_of(t, c);
        assert forall|j: int| last_index_of(s, c) < j < s.len() implies s[j] != c by {
            if j < t.len() {
                assert(t[j] == s[j]);
            }
        }
    }
}

/// The segment `.`, which names no file.
pub open spec fn is_dot(seg: Seq<char>) -> bool {
    seg.len() == 1 && seg[0] == '.'
}

/// The segment `..`, which names no file.
pub open spec fn is_dot_dot(seg: Seq<char>) -> bool {
    seg.len() == 2 && seg[0] == '.' && seg[1] == '.'
}

/// The last component of a path with `/` between its components. Empty
/// components and `.` are passed over from the end; a path that ends in `..`,
/// or holds no component that names anything, has none.
pub open spec fn final_component(s: Seq<char>) -> Option<Seq<char>>
    decreases s.len(),
{
    let start = last_index_of(s, '/') + 1;
    let seg = s.skip(start);
    if s.len() == 0 {
        None
    } else if seg.len() == 0 || is_dot(seg) {
        if start == 0 {
            None
        } else {
            proof {
                lemma_last_index_of(s, '/');
            }
            final_component(s.take(start - 1))
        }
    } else if is_dot_dot(seg) {
        None
    } else {
        Some(seg)
    }
}

/// A file name without its extension: what stands before the last `.`, or the
/// whole name where it holds no `.` behind its first character.
pub open spec fn file_stem(name: Seq<char>) -> Seq<char> {
    let dot = last_index_of(name, '.');
    if dot <= 0 {
        name
    } else {
        name.take(dot)
    }
}

/// A file name with its extension replaced by `ext`.
pub open spec fn with_extension(name: Seq<char>, ext: Seq<char>) -> Seq<char> {
    file_stem(name) + seq!['.'] + ext
}

/// The name a remote file gets: the last component of `path` with its
/// extension replaced by `ext`.
pub open spec fn remote_name(path: Seq<char>, ext: Seq<char>) -> Option<Seq<char>> {
    match final_component(path) {
        Some(name) => Some(with_extension(name, ext)),
        None => None,
    }
}

/// A last component holds no separator: it names a file in one directory.
pub proof fn lemma_final_component_is_plain(s: Seq<char>)
    ensures
        final_component(s) matches Some(name) ==> name.len() > 0 && !name.contains('/'),
    decreases s.len(),
{
    let start = last_index_of(s, '/') + 1;
    let seg = s.skip(start);
    lemma_last_index_of(s, '/');
    if s.len() > 0 {
        if seg.len() == 0 || is_dot(seg) {
            if start > 0 {
                lemma_final_component_is_plain(s.take(start - 1));
            }
        } else if !is_dot_dot(seg) {
            assert forall|i: int| 0 <= i < seg.len() implies seg[i] != '/' by {
                assert(seg[i] == s[start + i]);
            }
        }
    }
}

/// The archive and its sidecar are named together or not at all, and where
/// they are named their names differ: neither file is written over the other.
pub proof fn lemma_remote_names_differ(path: Seq<char>)
    ensures
        remote_name(path, archive_extension()) is Some <==> remote_name(path, sidecar_extension())
            is Some,
        remote_name(path, archive_extension()) is Some ==> remote_name(path, archive_extension())
            != remote_name(path, sidecar_extension()),
{
    reveal_strlit("tar.gz.gpg");
    reveal_strlit("gpg.xxhash");
    if final_component(path) is Some {
        let name = final_component(path)->0;
        let stem = file_stem(name);
        let a = with_extension(name, archive_extension());
        let b = with_extension(name, sidecar_extension());
        let at = stem.len() as int + 1;
        assert(a[at] == 't');
        assert(b[at] == 'g');
    }
}

/// Finds the last `c` among the first `end` characters of `s`.
fn find_last(s: &str, end: usize, c: char) -> (r: Option<usize>)
    requires
        end <= s@.len(),
    ensures
        match r {
            Some(i) => i as int == last_index_of(s@.take(end as int), c),
            None => last_index_of(s@.take(end as int), c) == -1,
        },
{
    let mut i: usize = end;
    while i > 0
        invariant
            i <= end <= s@.len(),
            last_index_of(s@.take(end as int), c) == last_index_of(s@.take(i as int), c),
        decreases i,
    {
        let ch = s.get_char(i - 1);
        assert(s@.take(i as int).last() == ch);
        if ch == c {
            return Some(i - 1);
        }
        assert(s@.take(i as int).drop_last() =~= s@.take(i - 1));
        i = i - 1;
    }
    None
}

/// Finds the last component of `path` as the characters from `start` up to `end`.
fn locate_component(path: &str) -> (r: Option<(usize, usize)>)
    ensures
        match r {
            Some((start, end)) => start < end <= path@.len() && final_component(path@) == Some(
                path@.subrange(start as int, end as int),
            ),
            None => final_component(path@) is None,
        },
{
    let mut end: usize = path.unicode_len();
    assert(path@.take(end as int) =~= path@);
    loop
        invariant
            end <= path@.len(),
            final_component(path@) == final_component(path@.take(end as int)),
        decreases end,
    {
        let ghost s = path@.take(end as int);
        if end == 0 {
            return None;
        }
        proof {
            lemma_last_index_of(s, '/');
        }
        let start: usize = match find_last(path, end, '/') {
            Some(i) => i + 1,
            None => 0,
        };
        assert(s.skip(start as int) =~= path@.subrange(start as int, end as int));
        let len: usize = end - start;
        let dot: bool = len == 1 && path.get_char(start) == '.';
        let dot_dot: bool = len == 2 && path.get_char(start) == '.' && path.get_char(start + 1)
            == '.';
        if len == 0 || dot {
            if start == 0 {
                return None;
            }
            assert(s.take(start - 1) =~= path@.take(start - 1));
            end = start - 1;
        } else if dot_dot {
            return None;
        } else {
            return Some((start, end));
        }
    }
}

/// Derives the name of a remote file from the staging directory's path.
/// There is none where the path has no last component to name it after.
pub fn derive_name(path: &str, ext: &str) -> (r: Option<String>)
    ensures
        match r {
            Some(name) => remote_name(path@, ext@) == Some(name@),
            None => remote_name(path@, ext@) is None,
        },
{
    match locate_component(path) {
        None => None,
        Some((start, end)) => {
            let name = path.substring_char(start, end);
            let n: usize = end - start;
            assert(name@.len() == n);
            assert(name@.take(n as int) =~= name@);
            proof {
                lemma_last_index_of(name@, '.');
            }
            let cut: usize = match find_last(name, n, '.') {
                Some(i) => if i == 0 {
                    n
                } else {
                    i
                },
                None => n,
            };
            let stem = name.substring_char(0, cut);
            assert(stem@ =~= file_stem(name@));
            let mut out = String::from_str(stem);
            out.append(".");
            out.append(ext);
            proof {
                reveal_strlit(".");
                assert("."@ =~= seq!['.']);
            }
            Some(out)
        },
    }
}

} // verus!
