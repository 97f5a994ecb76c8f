//! Unix paths as the server handles them: their normal components, the file
//! name, absoluteness and parent-directory segments, following
//! `std::path::Path` on Unix.
use vstd::prelude::*;

use crate::text::{chars_of, seq_eq, split_chars, split_on, string_of, views};

verus! {

/// A `/`-separated segment that `Path::components` keeps: neither empty nor `.`.
pub open spec fn is_kept_segment(s: Seq<char>) -> bool {
    s.len() != 0 && s != "."@
}

pub open spec fn kept_segments(segs: Seq<Seq<char>>) -> Seq<Seq<char>>
    decreases segs.len(),
{
    if segs.len() == 0 {
        Seq::<Seq<char>>::empty()
    } else {
        let prev = kept_segments(segs.drop_last());
        if is_kept_segment(segs.last()) {
            prev.push(segs.last())
        } else {
            prev
        }
    }
}

/// The named components of a path: its `/`-separated segments other than
/// empty ones and `.` (the root, if any, is not among them).
pub open spec fn path_parts(p: Seq<char>) -> Seq<Seq<char>> {
    kept_segments(split_on(p, '/'))
}

/// `Path::is_absolute` on Unix.
pub open spec fn is_absolute(p: Seq<char>) -> bool {
    p.len() > 0 && p[0] == '/'
}

/// Some component of the path is `..`.
pub open spec fn has_parent_part(p: Seq<char>) -> bool {
    exists|i: int| 0 <= i < path_parts(p).len() && #[trigger] path_parts(p)[i] == ".."@
}

/// `Path::file_name`: the last component unless it is `..` or absent.
pub open spec fn file_name(p: Seq<char>) -> Option<Seq<char>> {
    let n = path_parts(p);
    if n.len() > 0 && n.last() != ".."@ {
        Some(n.last())
    } else {
        None
    }
}

/// Parts joined with `/`.
pub open spec fn joined(parts: Seq<Seq<char>>) -> Seq<char>
    decreases parts.len(),
{
    if parts.len() == 0 {
        Seq::<char>::empty()
    } else if parts.len() == 1 {
        parts[0]
    } else {
        joined(parts.drop_last()) + "/"@ + parts.last()
    }
}

/// `Path::join` of a relative `tail` onto a non-empty `base`.
pub open spec fn join(base: Seq<char>, tail: Seq<char>) -> Seq<char> {
    if base.len() > 0 && base.last() == '/' {
        base + tail
    } else {
        base + "/"@ + tail
    }
}

/// The kept segments of `segs`.
pub fn keep_segments(segs: &Vec<Vec<char>>) -> (r: Vec<Vec<char>>)
    ensures
        views(r@) == kept_segments(views(segs@)),
{
    let mut out: Vec<Vec<char>> = Vec::new();
    let mut i: usize = 0;
    let dot = chars_of(".");
    while i < segs.len()
        invariant
            i <= segs.len(),
            dot@ == "."@,
            views(out@) == kept_segments(views(segs@).take(i as int)),
        decreases segs.len() - i,
    {
        proof {
            assert(views(segs@).take(i + 1).drop_last() =~= views(segs@).take(i as int));
            assert(views(segs@).take(i + 1).last() == segs@[i as int]@);
        }
        if segs[i].len() != 0 && !seq_eq(&segs[i], &dot) {
            let ghost before = views(out@);
            out.push(segs[i].clone());
            proof {
                assert(views(out@) =~= before.push(segs@[i as int]@));
            }
        }
        i += 1;
    }
    assert(views(segs@).take(segs.len() as int) =~= views(segs@));
    out
}

/// The named components of `p`.
pub fn parts_of(p: &Vec<char>) -> (r: Vec<Vec<char>>)
    ensures
        views(r@) == path_parts(p@),
{
    let segs = split_chars(p, '/');
    keep_segments(&segs)
}

/// Whether some component of `p` is `..`.
pub fn has_parent_component(p: &Vec<char>) -> (r: bool)
    ensures
        r == has_parent_part(p@),
{
    let parts = parts_of(p);
    let up = chars_of("..");
    let mut i: usize = 0;
    while i < parts.len()
        invariant
            i <= parts.len(),
            up@ == ".."@,
            views(parts@) == path_parts(p@),
            forall|k: int| 0 <= k < i ==> path_parts(p@)[k] != ".."@,
        decreases parts.len() - i,
    {
        if seq_eq(&parts[i], &up) {
            assert(path_parts(p@)[i as int] == ".."@);
            return true;
        }
        i += 1;
    }
    false
}

/// `Path::file_name`, as a string.
pub fn file_name_of(p: &str) -> (r: Option<String>)
    ensures
        match file_name(p@) {
            Some(n) => r matches Some(s) && s@ == n,
            None => r is None,
        },
{
    let chars = chars_of(p);
    let parts = parts_of(&chars);
    if parts.len() == 0 {
        return None;
    }
    let up = chars_of("..");
    let last = &parts[parts.len() - 1];
    if seq_eq(last, &up) {
        return None;
    }
    Some(string_of(last))
}

/// Joins parts with `/`.
pub fn join_parts(parts: &Vec<Vec<char>>) -> (r: Vec<char>)
    ensures
        r@ == joined(views(parts@)),
{
    let mut out: Vec<char> = Vec::new();
    let mut i: usize = 0;
    while i < parts.len()
        invariant
            i <= parts.len(),
            out@ == joined(views(parts@).take(i as int)),
        decreases parts.len() - i,
    {
        let ghost prev = views(parts@).take(i as int);
        proof {
            assert(views(parts@).take(i + 1).drop_last() =~= prev);
            assert(views(parts@).take(i + 1).last() == parts@[i as int]@);
        }
        if i > 0 {
            out.push('/');
        }
        let mut j: usize = 0;
        let ghost start = out@;
        while j < parts[i].len()
            invariant
                i < parts.len(),
                j <= parts@[i as int].len(),
                out@ == start + parts@[i as int]@.take(j as int),
            decreases parts@[i as int].len() - j,
        {
            out.push(parts[i][j]);
            assert(start + parts@[i as int]@.take(j + 1) =~= (start + parts@[i as int]@.take(
                j as int,
            )).push(parts@[i as int]@[j as int]));
            j += 1;
        }
        proof {
            assert(parts@[i as int]@.take(j as int) =~= parts@[i as int]@);
            if i == 0 {
                assert(out@ =~= joined(views(parts@).take(1)));
            } else {
                assert(out@ =~= joined(prev) + "/"@ + parts@[i as int]@) by {
                    reveal_strlit("/");
                }
            }
        }
        i += 1;
    }
    assert(views(parts@).take(parts.len() as int) =~= views(parts@));
    out
}

/// Index of the last occurrence of `c` in `s`, or -1.
pub open spec fn last_index(s: Seq<char>, c: char) -> int
    decreases s.len(),
{
    if s.len() == 0 {
        -1
    } else if s.last() == c {
        s.len() - 1
    } else {
        last_index(s.drop_last(), c)
    }
}

pub proof fn lemma_last_index_bounds(s: Seq<char>, c: char)
    ensures
        -1 <= last_index(s, c) < s.len(),
        last_index(s, c) >= 0 ==> s[last_index(s, c)] == c,
        forall|j: int| last_index(s, c) < j < s.len() ==> s[j] != c,
    decreases s.len(),
{
    if s.len() > 0 && s.last() != c {
        lemma_last_index_bounds(s.drop_last(), c);
        assert forall|j: int| last_index(s, c) < j < s.len() implies s[j] != c by {
            if j < s.len() - 1 {
                assert(s[j] == s.drop_last()[j]);
            }
        }
    }
}

/// The stem of a file name as `Path::file_stem` gives it: the name before
/// its last `.`, or the whole name when it has no `.` or only a leading one.
pub open spec fn stem_of(name: Seq<char>) -> Seq<char> {
    let i = last_index(name, '.');
    if i <= 0 {
        name
    } else {
        name.take(i)
    }
}

/// `Path::file_stem`.
pub open spec fn file_stem(p: Seq<char>) -> Option<Seq<char>> {
    match file_name(p) {
        Some(n) => Some(stem_of(n)),
        None => None,
    }
}

/// `Path::file_stem`, as a string.
pub fn file_stem_of(p: &str) -> (r: Option<String>)
    ensures
        match file_stem(p@) {
            Some(n) => r matches Some(s) && s@ == n,
            None => r is None,
        },
{
    let name = match file_name_of(p) {
        Some(n) => n,
        None => return None,
    };
    let chars = chars_of(name.as_str());
    let mut i: usize = chars.len();
    assert(chars@.take(i as int) =~= chars@);
    while i > 0 && chars[i - 1] != '.'
        invariant
            i <= chars.len(),
            chars@ == name@,
            last_index(chars@, '.') == last_index(chars@.take(i as int), '.'),
        decreases i,
    {
        proof {
            assert(chars@.take(i as int).drop_last() =~= chars@.take(i - 1));
        }
        i -= 1;
    }
    proof {
        if i > 0 && chars@[i - 1] == '.' {
            assert(chars@.take(i as int).last() == '.');
        } else {
            assert(i == 0);
            assert(chars@.take(0) =~= Seq::<char>::empty());
        }
    }
    if i <= 1 {
        Some(name)
    } else {
        let mut out: Vec<char> = Vec::new();
        let mut j: usize = 0;
        while j < i - 1
            invariant
                i <= chars.len(),
                1 < i,
                j <= i - 1,
                out@ == chars@.take(j as int),
            decreases i - 1 - j,
        {
            out.push(chars[j]);
            assert(chars@.take(j + 1) =~= chars@.take(j as int).push(chars@[j as int]));
            j += 1;
        }
        Some(string_of(&out))
    }
}

/// `Path::extension`: what follows the last `.` of the file name, unless
/// the name has no `.` or only a leading one.
pub open spec fn file_extension(p: Seq<char>) -> Option<Seq<char>> {
    match file_name(p) {
        Some(n) => {
            let i = last_index(n, '.');
            if i <= 0 {
                None
            } else {
                Some(n.skip(i + 1))
            }
        },
        None => None,
    }
}

/// `Path::extension`, as a string.
pub fn file_extension_of(p: &str) -> (r: Option<String>)
    ensures
        match file_extension(p@) {
            Some(e) => r matches Some(s) && s@ == e,
            None => r is None,
        },
{
    let name = match file_name_of(p) {
        Some(n) => n,
        None => return None,
    };
    let chars = chars_of(name.as_str());
    let mut i: usize = chars.len();
    assert(chars@.take(i as int) =~= chars@);
    while i > 0 && chars[i - 1] != '.'
        invariant
            i <= chars.len(),
            last_index(chars@, '.') == last_index(chars@.take(i as int), '.'),
        decreases i,
    {
        proof {
            assert(chars@.take(i as int).drop_last() =~= chars@.take(i - 1));
        }
        i -= 1;
    }
    proof {
        if i > 0 {
            assert(chars@.take(i as int).last() == '.');
        } else {
            assert(chars@.take(0) =~= Seq::<char>::empty());
        }
    }
    if i <= 1 {
        return None;
    }
    assert(chars@.skip(i as int) =~= chars@.subrange(i as int, chars.len() as int));
    Some(string_of(&crate::text::slice_chars(&chars, i, chars.len())))
}

} // verus!
