//! File paths as texts.

use vstd::prelude::*;

use crate::text;
use crate::text::{chars_of, join2, join3, same, split_at_each, text_of_range};

verus! {

/// The last part of a path that is neither empty nor `.`, among the first `n`.
pub open spec fn last_part(parts: Seq<Seq<char>>, n: int) -> Option<Seq<char>>
    decreases n,
{
    if n <= 0 {
        None
    } else if parts[n - 1].len() == 0 || parts[n - 1] == "."@ {
        last_part(parts, n - 1)
    } else {
        Some(parts[n - 1])
    }
}

/// The file name that a path ends in. A path that ends in `..` has none.
pub open spec fn file_name(path: Seq<char>) -> Option<Seq<char>> {
    let parts = text::split(path, '/');
    let last = last_part(parts, parts.len() as int);
    if last == Some(".."@) {
        None
    } else {
        last
    }
}

/// The file name that the path ends in.
pub fn file_name_of(path: &str) -> (r: Option<String>)
    ensures
        r.deep_view() == file_name(path@),
{
    let parts = split_at_each(path, '/');
    let ghost all = text::split(path@, '/');
    let mut i: usize = parts.len();
    while i > 0
        invariant
            i <= parts@.len(),
            parts.deep_view() == all,
            last_part(all, all.len() as int) == last_part(all, i as int),
            all == text::split(path@, '/'),
        decreases i,
    {
        let part = &parts[i - 1];
        proof {
            assert(all[i - 1] == part@);
        }
        if !part.as_str().is_empty() && !same(part, ".") {
            if same(part, "..") {
                return None;
            }
            return Some(part.clone());
        }
        i = i - 1;
    }
    None
}

/// The index of the last `.`, or -1.
pub open spec fn last_dot(name: Seq<char>) -> int
    decreases name.len(),
{
    if name.len() == 0 {
        -1
    } else if name.last() == '.' {
        name.len() - 1
    } else {
        last_dot(name.drop_last())
    }
}

/// Whether a file name has an extension: a `.` that is not its first
/// character.
pub open spec fn has_extension(name: Seq<char>) -> bool {
    last_dot(name) > 0 && name != ".."@
}

/// The file name without its extension.
pub open spec fn stem(name: Seq<char>) -> Seq<char> {
    if has_extension(name) {
        name.take(last_dot(name))
    } else {
        name
    }
}

/// The extension of a file name.
pub open spec fn extension(name: Seq<char>) -> Option<Seq<char>> {
    if has_extension(name) {
        Some(name.skip(last_dot(name) + 1))
    } else {
        None
    }
}

/// The last `.` stands where it is said to stand.
pub proof fn lemma_last_dot(name: Seq<char>)
    ensures
        -1 <= last_dot(name) < name.len(),
        last_dot(name) >= 0 ==> name[last_dot(name)] == '.',
    decreases name.len(),
{
    if name.len() > 0 && name.last() != '.' {
        lemma_last_dot(name.drop_last());
    }
}

/// The file name without its extension, and the extension.
pub fn split_extension(name: &str) -> (r: (String, Option<String>))
    ensures
        r.0@ == stem(name@),
        r.1.deep_view() == extension(name@),
{
    let v = chars_of(name);
    let mut i: usize = v.len();
    proof {
        assert(v@.take(i as int) == v@);
    }
    while i > 0 && v[i - 1] != '.'
        invariant
            i <= v@.len(),
            last_dot(v@.take(i as int)) == last_dot(v@),
        decreases i,
    {
        proof {
            assert(v@.take(i as int).drop_last() == v@.take(i - 1));
            assert(v@.take(i as int).last() == v@[i - 1]);
        }
        i = i - 1;
    }
    proof {
        if i > 0 {
            assert(v@.take(i as int).last() == v@[i - 1]);
        }
    }
    if i > 1 && !same(name, "..") {
        let head = text_of_range(&v, 0, i - 1);
        let tail = text_of_range(&v, i, v.len());
        proof {
            assert(v@.subrange(0, i - 1) == v@.take(i - 1));
            assert(v@.subrange(i as int, v@.len() as int) == v@.skip(i as int));
        }
        (head, Some(tail))
    } else {
        (name.to_owned(), None)
    }
}

/// A path below a directory. An absolute path stands for itself.
pub open spec fn joined(dir: Seq<char>, name: Seq<char>) -> Seq<char> {
    if text::begins(name, "/"@) || dir.len() == 0 {
        name
    } else if dir.last() == '/' {
        dir + name
    } else {
        dir + "/"@ + name
    }
}

/// The path of the name below the directory.
pub fn join_path(dir: &str, name: &str) -> (r: String)
    ensures
        r@ == joined(dir@, name@),
{
    let d = chars_of(dir);
    if text::starts_with(name, "/") || d.len() == 0 {
        name.to_owned()
    } else if d[d.len() - 1] == '/' {
        join2(dir, name)
    } else {
        join3(dir, "/", name)
    }
}

/// A name is found again at the end of a path: it is what follows the last
/// separator. A path may end in further separators, and a name alone is its own
/// file name.
pub proof fn lemma_names_end_paths(dir: Seq<char>, name: Seq<char>)
    requires
        !name.contains('/'),
        name.len() > 0,
        name != "."@,
        name != ".."@,
    ensures
        file_name(name) == Some(name),
        file_name(dir.push('/') + name) == Some(name),
        file_name(name.push('/')) == Some(name),
        file_name(dir.push('/') + ".."@) is None,
        file_name(Seq::empty()) is None,
{
    reveal_strlit("..");
    reveal_strlit(".");
    assert(".."@.len() == 2 && "."@.len() == 1);
    let none = Seq::<char>::empty();
    text::lemma_split_unbroken(name, '/');
    text::lemma_split_unbroken(none, '/');
    text::lemma_split_nonempty(dir, '/');
    text::lemma_split_joined(dir, name, '/');
    text::lemma_split_joined(name, none, '/');
    assert(name.push('/') + none =~= name.push('/'));
    assert(!(".."@).contains('/'));
    text::lemma_split_unbroken(".."@, '/');
    text::lemma_split_joined(dir, ".."@, '/');
    let parts = text::split(name.push('/'), '/');
    assert(parts =~= seq![name, none]);
    assert(last_part(parts, 2) == last_part(parts, 1));
    let empty = text::split(none, '/');
    assert(last_part(empty, 1) == last_part(empty, 0));
}

/// A file name splits at its last dot, unless that is its first character: what
/// stands before is the stem, what stands behind the extension.
pub proof fn lemma_names_split_at_the_last_dot(head: Seq<char>, ext: Seq<char>)
    requires
        !ext.contains('.'),
    ensures
        head.len() > 0 && head.push('.') + ext != ".."@ ==> stem(head.push('.') + ext) == head
            && extension(head.push('.') + ext) == Some(ext),
        head.len() == 0 ==> stem(head.push('.') + ext) == head.push('.') + ext && extension(
            head.push('.') + ext,
        ) is None,
        stem(ext) == ext,
        extension(ext) is None,
{
    let name = head.push('.') + ext;
    lemma_dot_before(head, ext);
    lemma_no_dot(ext);
    assert(name.take(head.len() as int) =~= head);
    assert(name.skip(head.len() as int + 1) =~= ext);
}

proof fn lemma_dot_before(head: Seq<char>, ext: Seq<char>)
    requires
        !ext.contains('.'),
    ensures
        last_dot(head.push('.') + ext) == head.len(),
    decreases ext.len(),
{
    let name = head.push('.') + ext;
    if ext.len() > 0 {
        assert(name.last() == ext.last());
        assert(ext.contains(ext.last())) by {
            assert(ext[ext.len() - 1] == ext.last());
        }
        assert(name.drop_last() =~= head.push('.') + ext.drop_last());
        assert forall|c: char| ext.drop_last().contains(c) implies ext.contains(c) by {
            let i = choose|i: int| 0 <= i < ext.drop_last().len() && ext.drop_last()[i] == c;
            assert(ext[i] == c);
        }
        lemma_dot_before(head, ext.drop_last());
    } else {
        assert(name =~= head.push('.'));
    }
}

proof fn lemma_no_dot(s: Seq<char>)
    requires
        !s.contains('.'),
    ensures
        last_dot(s) == -1,
    decreases s.len(),
{
    if s.len() > 0 {
        assert(s.contains(s.last())) by {
            assert(s[s.len() - 1] == s.last());
        }
        assert forall|c: char| s.drop_last().contains(c) implies s.contains(c) by {
            let i = choose|i: int| 0 <= i < s.drop_last().len() && s.drop_last()[i] == c;
            assert(s[i] == c);
        }
        lemma_no_dot(s.drop_last());
    }
}

/// A name is put below a directory with one separator between them. A name that
/// is an absolute path stands for itself.
pub proof fn lemma_names_go_below(dir: Seq<char>, name: Seq<char>)
    ensures
        dir.len() > 0 && dir.last() != '/' && (name.len() == 0 || name[0] != '/') ==> joined(
            dir,
            name,
        ) == dir.push('/') + name,
        dir.len() > 0 && dir.last() == '/' && (name.len() == 0 || name[0] != '/') ==> joined(
            dir,
            name,
        ) == dir + name,
        name.len() > 0 && name[0] == '/' ==> joined(dir, name) == name,
        dir.len() == 0 ==> joined(dir, name) == name,
{
    reveal_strlit("/");
    assert("/"@ =~= seq!['/']);
    if name.len() > 0 {
        assert(name.take(1)[0] == name[0]);
        if name[0] == '/' {
            assert(name.take(1) =~= "/"@);
        }
    }
    assert(dir + "/"@ =~= dir.push('/'));
}

} // verus!
