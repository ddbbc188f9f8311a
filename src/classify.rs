//! Paths as text: file names, extensions, and which paths name images.

use vstd::prelude::*;

verus! {

/// The separator between path components.
pub const SEPARATOR: char = '/';

/// The index just after the last occurrence of `c` in `s`, or 0 when `c`
/// does not occur.
pub open spec fn after_last(s: Seq<char>, c: char) -> int
    decreases s.len(),
{
    if s.len() == 0 {
        0
    } else if s.last() == c {
        s.len() as int
    } else {
        after_last(s.drop_last(), c)
    }
}

/// The last component of a path: everything after the last separator.
pub open spec fn last_component(path: Seq<char>) -> Seq<char> {
    path.subrange(after_last(path, SEPARATOR), path.len() as int)
}

/// The component that names the parent folder.
pub open spec fn parent_marker() -> Seq<char> {
    seq!['.', '.']
}

/// The file name of a path: its last component, unless that is empty or
/// names the parent folder, in which case the path names no file and its
/// file name is empty.
pub open spec fn file_name_of(path: Seq<char>) -> Seq<char> {
    if last_component(path) == parent_marker() {
        Seq::empty()
    } else {
        last_component(path)
    }
}

/// Whether `s` is the parent marker `..`.
pub fn is_parent_marker(s: &Vec<char>) -> (r: bool)
    ensures
        r == (s@ == parent_marker()),
{
    if s.len() == 2 && s[0] == '.' && s[1] == '.' {
        assert(s@ =~= parent_marker());
        true
    } else {
        assert(s@.len() != 2 || s@[0] != parent_marker()[0] || s@[1] != parent_marker()[1]);
        false
    }
}

/// The directory part of a path: everything before the last separator;
/// the root when that separator leads the path; the empty path when there
/// is none.
pub open spec fn parent_of(path: Seq<char>) -> Seq<char> {
    let k = after_last(path, SEPARATOR);
    if k == 0 {
        Seq::empty()
    } else if k == 1 {
        path.subrange(0, 1)
    } else {
        path.subrange(0, k - 1)
    }
}

/// The extension of a path: what follows the last dot of its file name.
/// A file name without a dot, or whose only dot leads it (`.hidden`), has
/// none.
pub open spec fn extension_of(path: Seq<char>) -> Option<Seq<char>> {
    let name = file_name_of(path);
    let d = after_last(name, '.');
    if d <= 1 {
        None
    } else {
        Some(name.subrange(d, name.len() as int))
    }
}

/// `c` is the lower-case ASCII letter `t`, or its upper-case form, or
/// (for any other `t`) `t` itself.
pub open spec fn same_ignoring_case(c: char, t: char) -> bool {
    c == t || ('a' <= t <= 'z' && c as u32 + 32 == t as u32)
}

/// `e` spells the lower-case word `t`, letter case aside.
pub open spec fn spells(e: Seq<char>, t: Seq<char>) -> bool {
    e.len() == t.len() && forall|i: int| 0 <= i < e.len() ==> same_ignoring_case(#[trigger] e[i], t[i])
}

/// The extensions of the raster formats the gallery shows.
pub open spec fn supported_extensions() -> Seq<Seq<char>> {
    seq![
        seq!['j', 'p', 'g'],
        seq!['j', 'p', 'e', 'g'],
        seq!['p', 'n', 'g'],
        seq!['g', 'i', 'f'],
        seq!['b', 'm', 'p'],
        seq!['w', 'e', 'b', 'p'],
    ]
}

pub open spec fn is_supported_extension(e: Seq<char>) -> bool {
    exists|k: int| 0 <= k < supported_extensions().len() && spells(e, #[trigger] supported_extensions()[k])
}

/// The raster formats the gallery shows.
#[derive(Clone, Copy, Debug, PartialEq, Eq, Structural)]
pub enum ImageKind {
    Jpeg,
    Png,
    Gif,
    Bmp,
    WebP,
}

/// The format that the `k`-th supported extension names.
pub open spec fn kind_of_extension(k: int) -> ImageKind {
    if k <= 1 {
        ImageKind::Jpeg
    } else if k == 2 {
        ImageKind::Png
    } else if k == 3 {
        ImageKind::Gif
    } else if k == 4 {
        ImageKind::Bmp
    } else {
        ImageKind::WebP
    }
}

/// A path names an image when it has an extension of a supported format,
/// in any letter case.
pub open spec fn is_image_path(path: Seq<char>) -> bool {
    match extension_of(path) {
        Some(e) => is_supported_extension(e),
        None => false,
    }
}

/// The characters of `s`, one by one.
pub fn chars_of(s: &str) -> (r: Vec<char>)
    ensures
        r@ == s@,
{
    let n = s.unicode_len();
    let mut r: Vec<char> = Vec::new();
    let mut i: usize = 0;
    while i < n
        invariant
            n == s@.len(),
            i <= n,
            r@ == s@.subrange(0, i as int),
        decreases n - i,
    {
        r.push(s.get_char(i));
        i = i + 1;
        assert(r@ =~= s@.subrange(0, i as int));
    }
    assert(r@ =~= s@);
    r
}

/// The index just after the last `c` in `s[..end]`, or 0.
pub fn find_after_last(s: &Vec<char>, end: usize, c: char) -> (r: usize)
    requires
        end <= s@.len(),
    ensures
        r as int == after_last(s@.subrange(0, end as int), c),
        r <= end,
{
    let mut i: usize = end;
    while i > 0 && s[i - 1] != c
        invariant
            i <= end <= s@.len(),
            after_last(s@.subrange(0, end as int), c) == after_last(s@.subrange(0, i as int), c),
        decreases i,
    {
        assert(s@.subrange(0, i as int).drop_last() =~= s@.subrange(0, i - 1));
        i = i - 1;
    }
    i
}

/// Whether the ASCII letter case aside, `c` is the lower-case `t`.
fn char_matches(c: char, t: char) -> (r: bool)
    ensures
        r == same_ignoring_case(c, t),
{
    c == t || ('a' <= t && t <= 'z' && (c as u32) + 32 == t as u32)
}

/// Whether `s[from..]` spells the word `t`, letter case aside.
fn spells_from(s: &Vec<char>, from: usize, t: &Vec<char>) -> (r: bool)
    requires
        from <= s@.len(),
    ensures
        r == spells(s@.subrange(from as int, s@.len() as int), t@),
{
    let ghost e = s@.subrange(from as int, s@.len() as int);
    let n = s.len();
    if n - from != t.len() {
        return false;
    }
    let mut i: usize = 0;
    while i < t.len()
        invariant
            from <= s@.len(),
            e == s@.subrange(from as int, s@.len() as int),
            e.len() == t@.len(),
            from + t@.len() == s@.len(),
            n == s@.len(),
            i <= t@.len(),
            forall|j: int| 0 <= j < i ==> same_ignoring_case(#[trigger] e[j], t@[j]),
        decreases t@.len() - i,
    {
        let j: usize = from + i;
        if !char_matches(s[j], t[i]) {
            assert(!same_ignoring_case(e[i as int], t@[i as int]));
            return false;
        }
        i = i + 1;
    }
    true
}

/// The supported extensions, as character vectors.
fn supported_extension_list() -> (r: Vec<Vec<char>>)
    ensures
        r@.len() == supported_extensions().len(),
        forall|k: int| 0 <= k < r@.len() ==> (#[trigger] r@[k])@ == supported_extensions()[k],
{
    let r = vec![
        vec!['j', 'p', 'g'],
        vec!['j', 'p', 'e', 'g'],
        vec!['p', 'n', 'g'],
        vec!['g', 'i', 'f'],
        vec!['b', 'm', 'p'],
        vec!['w', 'e', 'b', 'p'],
    ];
    assert(r@[0]@ =~= supported_extensions()[0]);
    assert(r@[1]@ =~= supported_extensions()[1]);
    assert(r@[2]@ =~= supported_extensions()[2]);
    assert(r@[3]@ =~= supported_extensions()[3]);
    assert(r@[4]@ =~= supported_extensions()[4]);
    assert(r@[5]@ =~= supported_extensions()[5]);
    r
}

/// Whether a path names an image, judged by its extension alone, in any
/// letter case. The file is never opened.
pub fn is_image(path: &str) -> (r: bool)
    ensures
        r == is_image_path(path@),
{
    image_kind(path).is_some()
}

/// The format that a path's extension names, in any letter case; `None`
/// when the path does not name an image.
pub fn image_kind(path: &str) -> (r: Option<ImageKind>)
    ensures
        r is Some <==> is_image_path(path@),
        r matches Some(kind) ==> exists|k: int|
            0 <= k < supported_extensions().len()
                && spells(extension_of(path@)->0, #[trigger] supported_extensions()[k])
                && kind == kind_of_extension(k),
{
    let s = chars_of(path);
    let n = s.len();
    let start = find_after_last(&s, n, SEPARATOR);
    assert(s@.subrange(0, n as int) =~= s@);
    let ghost name = last_component(path@);
    let mut name_chars: Vec<char> = Vec::new();
    let mut i: usize = start;
    while i < n
        invariant
            start <= i <= n,
            n == s@.len(),
            s@ == path@,
            start == after_last(path@, SEPARATOR),
            name == path@.subrange(start as int, n as int),
            name_chars@ == s@.subrange(start as int, i as int),
        decreases n - i,
    {
        name_chars.push(s[i]);
        i = i + 1;
        assert(name_chars@ =~= s@.subrange(start as int, i as int));
    }
    if is_parent_marker(&name_chars) {
        return None;
    }
    assert(name_chars@ == file_name_of(path@));
    let m = name_chars.len();
    let d = find_after_last(&name_chars, m, '.');
    assert(name_chars@.subrange(0, m as int) =~= name);
    if d <= 1 {
        return None;
    }
    let list = supported_extension_list();
    let mut k: usize = 0;
    while k < list.len()
        invariant
            k <= list@.len(),
            d <= m == name_chars@.len(),
            list@.len() == supported_extensions().len(),
            forall|j: int| 0 <= j < list@.len() ==> (#[trigger] list@[j])@ == supported_extensions()[j],
            extension_of(path@) == Some(name_chars@.subrange(d as int, m as int)),
            forall|j: int| 0 <= j < k ==> !spells(name_chars@.subrange(d as int, m as int), #[trigger] supported_extensions()[j]),
        decreases list@.len() - k,
    {
        if spells_from(&name_chars, d, &list[k]) {
            let kind = if k <= 1 {
                ImageKind::Jpeg
            } else if k == 2 {
                ImageKind::Png
            } else if k == 3 {
                ImageKind::Gif
            } else if k == 4 {
                ImageKind::Bmp
            } else {
                ImageKind::WebP
            };
            assert(kind == kind_of_extension(k as int));
            return Some(kind);
        }
        k = k + 1;
    }
    None
}

} // verus!
