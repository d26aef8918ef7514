use vstd::prelude::*;

use crate::text::{opt_view, split, split_on, string_views};

verus! {

/// The path separator of the platform (Unix).
pub open spec fn is_separator(c: char) -> bool {
    c == '/'
}

/// A path is absolute when it starts at the root.
pub open spec fn is_absolute(p: Seq<char>) -> bool {
    p.len() > 0 && is_separator(p[0])
}

/// Extending `base` with `part`: an absolute `part` replaces `base`;
/// otherwise `part` is appended, with a separator in between unless
/// `base` is empty or already ends with one.
pub open spec fn path_join(base: Seq<char>, part: Seq<char>) -> Seq<char> {
    if is_absolute(part) {
        part
    } else if base.len() == 0 || is_separator(base.last()) {
        base + part
    } else {
        base + seq!['/'] + part
    }
}

/// A path that stays inside the directory it is joined onto: relative,
/// with no `..` component.
pub open spec fn contained(p: Seq<char>) -> bool {
    !is_absolute(p) && !split_on(p, '/').contains(".."@)
}

/// `target` lies under `root`: it is `root` extended by a contained path.
pub open spec fn lies_under(root: Seq<char>, target: Seq<char>) -> bool {
    exists|rest: Seq<char>| contained(rest) && target == path_join(root, rest)
}

/// Appends `part` to `base` as a path component.
pub fn join(base: &str, part: &str) -> (res: String)
    ensures
        res@ == path_join(base@, part@),
{
    let part_len = part.unicode_len();
    if part_len > 0 && part.get_char(0) == '/' {
        return part.to_owned();
    }
    let base_len = base.unicode_len();
    let mut res = String::from_str(base);
    if base_len > 0 && base.get_char(base_len - 1) != '/' {
        res.append("/");
        proof {
            reveal_strlit("/");
        }
    }
    res.append(part);
    res
}

/// The last of `pieces` that names something: not empty and not `.`.
pub open spec fn last_named(pieces: Seq<Seq<char>>) -> Option<Seq<char>>
    decreases pieces.len(),
{
    if pieces.len() == 0 {
        None
    } else if pieces.last().len() == 0 || pieces.last() == "."@ {
        last_named(pieces.drop_last())
    } else {
        Some(pieces.last())
    }
}

/// The final component of a path, unless the path ends at its root, at
/// `.`, or at `..`.
pub open spec fn file_name(p: Seq<char>) -> Option<Seq<char>> {
    match last_named(split_on(p, '/')) {
        Some(c) => if c == ".."@ {
            None
        } else {
            Some(c)
        },
        None => None,
    }
}

/// The position of the last `c` in `s`, or -1.
pub open spec fn last_index_of(s: Seq<char>, c: char) -> int
    decreases s.len(),
{
    if s.len() == 0 {
        -1
    } else if s.last() == c {
        s.len() - 1
    } else {
        last_index_of(s.drop_last(), c)
    }
}

/// The extension of a file name: what follows its last `.`, unless it has
/// no `.` or its only `.` is the first character.
pub open spec fn name_extension(name: Seq<char>) -> Option<Seq<char>> {
    let i = last_index_of(name, '.');
    if i <= 0 {
        None
    } else {
        Some(name.subrange(i + 1, name.len() as int))
    }
}

/// The extension of the final component of a path.
pub open spec fn path_extension(p: Seq<char>) -> Option<Seq<char>> {
    match file_name(p) {
        Some(name) => name_extension(name),
        None => None,
    }
}

/// The final component of the path `p`.
pub fn final_component(p: &str) -> (res: Option<String>)
    ensures
        opt_view(res) == file_name(p@),
{
    let pieces = split(p, '/');
    let ghost views = string_views(pieces@);
    let mut k = pieces.len();
    assert(views.take(k as int) == views);
    while k > 0
        invariant
            k <= pieces.len(),
            views == string_views(pieces@),
            views == split_on(p@, '/'),
            last_named(views.take(k as int)) == last_named(views),
        decreases k,
    {
        let piece = pieces[k - 1].as_str();
        assert(views.take(k as int).last() == piece@);
        assert(views.take(k as int).drop_last() == views.take(k - 1));
        if piece.unicode_len() > 0 && !crate::text::same_text(piece, ".") {
            if crate::text::same_text(piece, "..") {
                return None;
            }
            return Some(piece.to_owned());
        }
        k = k - 1;
    }
    assert(views.take(0) =~= Seq::<Seq<char>>::empty());
    None
}

/// The extension of the file named by `p`.
pub fn extension(p: &str) -> (res: Option<String>)
    ensures
        opt_view(res) == path_extension(p@),
{
    let name = match final_component(p) {
        Some(name) => name,
        None => return None,
    };
    assert(file_name(p@) == Some(name@));
    assert(path_extension(p@) == name_extension(name@));
    let n = name.as_str().unicode_len();
    let mut j = n;
    assert(name@.take(n as int) == name@);
    while j > 0
        invariant
            j <= n,
            n == name@.len(),
            last_index_of(name@.take(j as int), '.') == last_index_of(name@, '.'),
            path_extension(p@) == name_extension(name@),
        decreases j,
    {
        assert(name@.take(j as int).drop_last() == name@.take(j - 1));
        assert(name@.take(j as int).last() == name@[j - 1]);
        if name.as_str().get_char(j - 1) == '.' {
            assert(last_index_of(name@, '.') == j - 1);
            if j == 1 {
                return None;
            }
            return Some(name.as_str().substring_char(j, n).to_owned());
        }
        j = j - 1;
    }
    assert(name@.take(n as int) == name@);
    None
}

/// The paths among `paths` whose extension is `ext`, in order.
pub open spec fn paths_with_extension(paths: Seq<Seq<char>>, ext: Seq<char>) -> Seq<Seq<char>>
    decreases paths.len(),
{
    if paths.len() == 0 {
        Seq::<Seq<char>>::empty()
    } else {
        let rest = paths_with_extension(paths.drop_last(), ext);
        if path_extension(paths.last()) == Some(ext) {
            rest.push(paths.last())
        } else {
            rest
        }
    }
}

/// Keeps the paths whose extension is `ext`, in order.
pub fn select_with_extension(paths: &Vec<String>, ext: &str) -> (res: Vec<String>)
    ensures
        string_views(res@) == paths_with_extension(string_views(paths@), ext@),
{
    let ghost views = string_views(paths@);
    let mut res: Vec<String> = Vec::new();
    let n = paths.len();
    for i in 0..n
        invariant
            n == paths.len(),
            views == string_views(paths@),
            string_views(res@) == paths_with_extension(views.take(i as int), ext@),
    {
        assert(views.take(i + 1).drop_last() == views.take(i as int));
        assert(views.take(i + 1).last() == paths@[i as int]@);
        let e = extension(paths[i].as_str());
        let keep = match e {
            Some(e) => crate::text::same_text(e.as_str(), ext),
            None => false,
        };
        if keep {
            res.push(paths[i].clone());
            assert(string_views(res@) == string_views(res@.drop_last()).push(paths@[i as int]@));
        }
    }
    assert(views.take(n as int) == views);
    res
}

} // verus!
