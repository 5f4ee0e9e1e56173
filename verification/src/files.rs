//! File names: the extension of a declared name, the types that may be
//! uploaded, and the types that are shown as an image.

use vstd::prelude::*;
use crate::text::{from_chars, lowercase, lowered, same, slice, to_chars};

verus! {

/// The index of the last `c` in `s`, or -1 where there is none.
pub open spec fn last_index_of(s: Seq<char>, c: char) -> int
    decreases s.len(),
{
    if s.len() == 0 {
        -1
    } else if s.last() == c {
        s.len() - 1
    } else {
        last_index_of(s.drop_last(), c)
    }
}

/// `path` without what a path's last component never holds: separators at
/// the end, and a lone `.` behind a separator.
pub open spec fn trimmed_path(path: Seq<char>) -> Seq<char>
    decreases path.len(),
{
    if path.len() > 0 && path.last() == '/' {
        trimmed_path(path.drop_last())
    } else if path.len() >= 2 && path.last() == '.' && path[path.len() - 2] == '/' {
        trimmed_path(path.drop_last())
    } else {
        path
    }
}

/// The character of `path` at index `i` is one that `trimmed_path` drops
/// from the end: a separator, or a dot right behind one.
pub open spec fn droppable(path: Seq<char>, i: int) -> bool {
    path[i] == '/' || (i >= 1 && path[i] == '.' && path[i - 1] == '/')
}

/// The last component of `path`: what follows the last separator of the
/// trimmed path.
pub open spec fn last_component(path: Seq<char>) -> Seq<char> {
    let t = trimmed_path(path);
    t.skip(last_index_of(t, '/') + 1)
}

/// The extension of a file name: what follows its last dot. A name without a
/// dot has none, nor has `..`, nor a name whose only dot comes first.
pub open spec fn name_extension(name: Seq<char>) -> Option<Seq<char>> {
    let dot = last_index_of(name, '.');
    if name == seq!['.', '.'] || dot <= 0 {
        None
    } else {
        Some(name.skip(dot + 1))
    }
}

/// The file name of `path`: its last component, unless that is empty, `.`
/// or `..`.
pub open spec fn path_file_name(path: Seq<char>) -> Option<Seq<char>> {
    let name = last_component(path);
    if name.len() == 0 || name == seq!['.'] || name == seq!['.', '.'] {
        None
    } else {
        Some(name)
    }
}

/// The extension of the last component of `path`.
pub open spec fn path_extension(path: Seq<char>) -> Option<Seq<char>> {
    name_extension(last_component(path))
}

/// The extension under which an upload is judged and stored: that of the
/// declared name, or `bin` where it has none.
pub open spec fn declared_extension(name: Seq<char>) -> Seq<char> {
    match path_extension(name) {
        Some(e) => e,
        None => "bin"@,
    }
}

/// The file types that may be uploaded, as small letters: images, documents,
/// archives, audio and video.
pub open spec fn allowed_extensions() -> Seq<Seq<char>> {
    seq![
        "jpg"@, "jpeg"@, "png"@, "gif"@, "webp"@, "svg"@,
        "pdf"@, "txt"@, "md"@, "csv"@, "json"@,
        "doc"@, "docx"@, "xls"@, "xlsx"@, "ppt"@, "pptx"@,
        "zip"@, "tar"@, "gz"@, "rar"@, "7z"@,
        "mp3"@, "mp4"@, "mov"@, "webm"@,
    ]
}

/// The file types that are shown as an image, as small letters.
pub open spec fn image_extensions() -> Seq<Seq<char>> {
    seq!["jpg"@, "jpeg"@, "png"@, "gif"@, "webp"@, "svg"@]
}

/// `ext` is, up to the case of its letters, one of `list`.
pub open spec fn listed(ext: Seq<char>, list: Seq<Seq<char>>) -> bool {
    exists|i: int| 0 <= i < list.len() && lowered(ext) == #[trigger] list[i]
}

/// `ext` is a file type that may be uploaded.
pub open spec fn allowed(ext: Seq<char>) -> bool {
    listed(ext, allowed_extensions())
}

/// `ext` is a file type that is shown as an image.
pub open spec fn displayable(ext: Seq<char>) -> bool {
    listed(ext, image_extensions())
}

/// A `c` with no `c` behind it is the last one.
pub proof fn lemma_last_index_found(s: Seq<char>, c: char, k: int)
    requires
        0 <= k < s.len(),
        s[k] == c,
        forall|i: int| k < i < s.len() ==> s[i] != c,
    ensures
        last_index_of(s, c) == k,
    decreases s.len(),
{
    if k < s.len() - 1 {
        let t = s.drop_last();
        assert(t[k] == s[k]);
        lemma_last_index_found(t, c, k);
    }
}

/// Where no character is `c`, there is no last one.
pub proof fn lemma_last_index_none(s: Seq<char>, c: char)
    requires
        forall|i: int| 0 <= i < s.len() ==> s[i] != c,
    ensures
        last_index_of(s, c) == -1,
    decreases s.len(),
{
    if s.len() > 0 {
        lemma_last_index_none(s.drop_last(), c);
    }
}

proof fn lemma_trimmed_prefix(path: Seq<char>, end: int)
    requires
        0 <= end <= path.len(),
        forall|i: int| end <= i < path.len() ==> #[trigger] droppable(path, i),
    ensures
        trimmed_path(path) == trimmed_path(path.take(end)),
    decreases path.len() - end,
{
    if end < path.len() {
        let t = path.drop_last();
        assert(droppable(path, path.len() - 1));
        assert(trimmed_path(path) == trimmed_path(t));
        assert forall|i: int| end <= i < t.len() implies #[trigger] droppable(t, i) by {
            assert(droppable(path, i));
        }
        assert(t.take(end) == path.take(end));
        lemma_trimmed_prefix(t, end);
    } else {
        assert(path.take(end) == path);
    }
}

fn one_of(e: &Vec<char>, list: &Vec<&str>) -> (r: bool)
    ensures
        r == exists|i: int| 0 <= i < list.len() && e@ == #[trigger] list[i]@,
{
    let mut i: usize = 0;
    while i < list.len()
        invariant
            i <= list.len(),
            forall|j: int| 0 <= j < i ==> e@ != #[trigger] list[j]@,
        decreases list.len() - i,
    {
        let candidate = to_chars(list[i]);
        if same(e, &candidate) {
            return true;
        }
        i = i + 1;
    }
    false
}

/// Whether a file of this extension may be uploaded. The case of the letters
/// does not matter.
pub fn is_allowed_extension(ext: &str) -> (r: bool)
    ensures
        r == allowed(ext@),
{
    let list: Vec<&str> = vec![
        "jpg", "jpeg", "png", "gif", "webp", "svg",
        "pdf", "txt", "md", "csv", "json",
        "doc", "docx", "xls", "xlsx", "ppt", "pptx",
        "zip", "tar", "gz", "rar", "7z",
        "mp3", "mp4", "mov", "webm",
    ];
    let e = lowercase(&to_chars(ext));
    proof {
        assert(list@.map_values(|s: &str| s@) =~= allowed_extensions());
        assert forall|i: int| 0 <= i < list.len() implies #[trigger] list[i]@
            == allowed_extensions()[i] by {
            assert(list@.map_values(|s: &str| s@)[i] == list[i]@);
        }
    }
    one_of(&e, &list)
}

/// Whether a file of this extension is shown as an image. The case of the
/// letters does not matter.
pub fn is_image_extension(ext: &str) -> (r: bool)
    ensures
        r == displayable(ext@),
{
    let list: Vec<&str> = vec!["jpg", "jpeg", "png", "gif", "webp", "svg"];
    let e = lowercase(&to_chars(ext));
    proof {
        assert(list@.map_values(|s: &str| s@) =~= image_extensions());
        assert forall|i: int| 0 <= i < list.len() implies #[trigger] list[i]@
            == image_extensions()[i] by {
            assert(list@.map_values(|s: &str| s@)[i] == list[i]@);
        }
    }
    one_of(&e, &list)
}

/// Where the last component of `v` begins and ends.
fn component_bounds(v: &Vec<char>) -> (r: (usize, usize))
    ensures
        r.0 <= r.1 <= v.len(),
        v@.subrange(r.0 as int, r.1 as int) == last_component(v@),
{
    let mut end: usize = v.len();
    while end > 0 && (v[end - 1] == '/' || (end >= 2 && v[end - 1] == '.' && v[end - 2] == '/'))
        invariant
            end <= v.len(),
            forall|i: int| end <= i < v.len() ==> #[trigger] droppable(v@, i),
        decreases end,
    {
        end = end - 1;
    }
    let ghost t = v@.take(end as int);
    proof {
        lemma_trimmed_prefix(v@, end as int);
        assert(trimmed_path(t) == t);
    }
    let mut start: usize = end;
    while start > 0 && v[start - 1] != '/'
        invariant
            start <= end <= v.len(),
            t == v@.take(end as int),
            forall|i: int| start <= i < end ==> t[i] != '/',
        decreases start,
    {
        start = start - 1;
    }
    proof {
        if start > 0 {
            lemma_last_index_found(t, '/', start - 1);
        } else {
            lemma_last_index_none(t, '/');
        }
        assert(v@.subrange(start as int, end as int) =~= t.skip(start as int));
    }
    (start, end)
}

/// The file name of `path`: its last component.
pub fn file_name(path: &str) -> (r: Option<String>)
    ensures
        match r {
            Some(n) => path_file_name(path@) == Some(n@),
            None => path_file_name(path@) is None,
        },
{
    let v = to_chars(path);
    let (start, end) = component_bounds(&v);
    let ghost name = last_component(path@);
    if end == start {
        return None;
    }
    if end - start == 1 && v[start] == '.' {
        proof {
            assert(name =~= seq!['.']);
        }
        return None;
    }
    if end - start == 2 && v[start] == '.' && v[start + 1] == '.' {
        proof {
            assert(name =~= seq!['.', '.']);
        }
        return None;
    }
    proof {
        assert(name[0] == v@[start as int]);
        if name == seq!['.'] {
            assert(name.len() == 1);
        }
        if name == seq!['.', '.'] {
            assert(name.len() == 2);
            assert(name[1] == v@[start + 1]);
        }
    }
    Some(from_chars(&slice(&v, start, end)))
}

/// The extension of the last component of `path`, without its dot.
pub fn extension(path: &str) -> (r: Option<String>)
    ensures
        match r {
            Some(e) => path_extension(path@) == Some(e@),
            None => path_extension(path@) is None,
        },
{
    let v = to_chars(path);
    let (start, end) = component_bounds(&v);
    let ghost name = last_component(path@);
    if end - start == 2 && v[start] == '.' && v[start + 1] == '.' {
        proof {
            assert(name =~= seq!['.', '.']);
        }
        return None;
    }
    let mut d: usize = end;
    while d > start && v[d - 1] != '.'
        invariant
            start <= d <= end <= v.len(),
            name == v@.subrange(start as int, end as int),
            forall|i: int| d - start <= i < end - start ==> name[i] != '.',
        decreases d,
    {
        d = d - 1;
    }
    proof {
        if d > start {
            lemma_last_index_found(name, '.', d - 1 - start);
        } else {
            lemma_last_index_none(name, '.');
        }
        if name == seq!['.', '.'] {
            assert(name.len() == 2);
            assert(name[0] == v@[start as int]);
            assert(name[1] == v@[start + 1]);
        }
    }
    if d - start <= 1 {
        return None;
    }
    let e = slice(&v, d, end);
    proof {
        assert(e@ =~= name.skip(d - start));
    }
    Some(from_chars(&e))
}

/// The extension under which an upload named `name` is judged and stored.
pub fn extension_or_bin(name: &str) -> (r: String)
    ensures
        r@ == declared_extension(name@),
{
    match extension(name) {
        Some(e) => e,
        None => String::from_str("bin"),
    }
}

} // verus!
