//! Laws of paths.

use vstd::prelude::*;

use crate::path::{extension, join, parent};

verus! {

/// Joining puts one separator between a base and a part. An absolute part
/// stands alone.
pub proof fn law_join_puts_one_separator(base: &str, part: &str, path: String)
    requires
        call_ensures(join, (base, part), path),
    ensures
        part@.len() > 0 && part@[0] == '/' ==> path@ == part@,
        part@.len() == 0 || part@[0] != '/' ==> path@ == (if base@.len() == 0 || base@.last()
            == '/' {
            base@ + part@
        } else {
            base@ + seq!['/'] + part@
        }),
{
    assert(base@.push('/') + part@ =~= base@ + seq!['/'] + part@);
}

pub(crate) proof fn lemma_parent(dir: Seq<char>, name: Seq<char>)
    requires
        dir.len() > 0,
        dir.last() != '/',
        dir.len() > 1 && dir[dir.len() - 2] == '/' ==> dir.last() != '.',
        name.len() > 0,
        !name.contains('/'),
        name != seq!['.'],
    ensures
        crate::path::parent_of(dir + seq!['/'] + name) == Some(dir),
{
    let path = dir + seq!['/'] + name;
    let front = dir.push('/');
    assert(path =~= front + name);
    assert(name[name.len() - 1] != '/');
    if name.len() > 1 {
        assert(name[name.len() - 2] != '/');
    } else if name[0] == '.' {
        assert(name =~= seq!['.']);
    }
    assert(crate::path::tail_trimmed(path) == path);
    crate::path::lemma_through_last_of(front, name, '/');
    assert(front.drop_last() =~= dir);
    reveal_with_fuel(crate::path::tail_trimmed, 2);
    assert(path != seq!['/']) by {
        assert(path.len() > 1);
    }
}

/// The parent of a path is what stands ahead of its last component.
pub proof fn law_parent_is_the_directory(
    path: &str,
    dir: Seq<char>,
    name: Seq<char>,
    found: Option<String>,
)
    requires
        call_ensures(parent, (path,), found),
        path@ == dir + seq!['/'] + name,
        dir.len() > 0,
        dir.last() != '/',
        dir.len() > 1 && dir[dir.len() - 2] == '/' ==> dir.last() != '.',
        name.len() > 0,
        !name.contains('/'),
        name != seq!['.'],
    ensures
        found matches Some(text) && text@ == dir,
{
    lemma_parent(dir, name);
}

/// The components at the top have the root or the empty path above them, and
/// those have nothing.
pub proof fn law_parents_end(path: &str, name: Seq<char>, found: Option<String>)
    requires
        call_ensures(parent, (path,), found),
        name.len() > 0,
        !name.contains('/'),
        name != seq!['.'],
    ensures
        path@ == seq!['/'] + name ==> (found matches Some(text) && text@ == seq!['/']),
        path@ == name ==> (found matches Some(text) && text@.len() == 0),
        path@ == seq!['/'] || path@.len() == 0 ==> found is None,
{
    assert(name[name.len() - 1] != '/');
    if name.len() > 1 {
        assert(name[name.len() - 2] != '/');
    } else if name[0] == '.' {
        assert(name =~= seq!['.']);
    }
    if path@ == seq!['/'] + name {
        crate::path::lemma_through_last_of(seq!['/'], name, '/');
    }
    if path@ == name {
        crate::path::lemma_through_last_of(seq![], name, '/');
        assert(seq![] + name =~= name);
        if name == seq!['/'] {
            assert(name[0] == '/');
        }
    }
}

pub(crate) proof fn lemma_file_name(front: Seq<char>, name: Seq<char>)
    requires
        front.len() > 0 ==> front.last() == '/',
        name.len() > 0,
        !name.contains('/'),
        name != seq!['.'],
        name != seq!['.', '.'],
    ensures
        crate::path::file_name_of(front + name) == Some(name),
{
    let path = front + name;
    assert(name[name.len() - 1] != '/');
    if name.len() > 1 {
        assert(name[name.len() - 2] != '/');
    } else if name[0] == '.' {
        assert(name =~= seq!['.']);
    }
    assert(crate::path::tail_trimmed(path) == path);
    crate::path::lemma_through_last_of(front, name, '/');
    assert(path.skip(front.len() as int) =~= name);
}

pub(crate) proof fn lemma_extension(front: Seq<char>, stem: Seq<char>, ext: Seq<char>)
    requires
        front.len() > 0 ==> front.last() == '/',
        stem.len() > 0,
        !stem.contains('/'),
        ext.len() > 0,
        !ext.contains('/'),
        !ext.contains('.'),
    ensures
        crate::path::extension_of(front + stem + seq!['.'] + ext) == Some(ext),
{
    let name = stem + seq!['.'] + ext;
    assert(front + stem + seq!['.'] + ext =~= front + name);
    assert(!name.contains('/')) by {
        if name.contains('/') {
            let k = choose|k: int| 0 <= k < name.len() && name[k] == '/';
            if k < stem.len() {
                assert(stem[k] == '/');
            } else if k > stem.len() {
                assert(ext[k - stem.len() - 1] == '/');
            }
        }
    }
    assert(name.len() > 2);
    lemma_file_name(front, name);
    let through = stem + seq!['.'];
    assert(name =~= through + ext);
    crate::path::lemma_through_last_of(through, ext, '.');
    assert(name.skip(through.len() as int) =~= ext);
}

pub(crate) proof fn lemma_no_extension(front: Seq<char>, name: Seq<char>)
    requires
        front.len() > 0 ==> front.last() == '/',
        name.len() > 0,
        !name.contains('/'),
        !name.drop_first().contains('.'),
        name != seq!['.'],
    ensures
        crate::path::extension_of(front + name) is None,
{
    let rest = name.drop_first();
    if name == seq!['.', '.'] {
        assert(rest[0] == '.');
    }
    lemma_file_name(front, name);
    if name[0] == '.' {
        assert(name =~= seq!['.'] + rest);
        crate::path::lemma_through_last_of(seq!['.'], rest, '.');
    } else {
        assert(!name.contains('.')) by {
            if name.contains('.') {
                let k = choose|k: int| 0 <= k < name.len() && name[k] == '.';
                assert(rest[k - 1] == '.');
            }
        }
        assert(name =~= seq![] + name);
        crate::path::lemma_through_last_of(seq![], name, '.');
    }
}

/// The extension of a file is what follows the last dot of its name, where the
/// name does not begin with that dot.
pub proof fn law_extension_follows_the_last_dot(
    path: &str,
    front: Seq<char>,
    stem: Seq<char>,
    ext: Seq<char>,
    found: Option<String>,
)
    requires
        call_ensures(extension, (path,), found),
        front.len() > 0 ==> front.last() == '/',
        stem.len() > 0,
        !stem.contains('/'),
    ensures
        path@ == front + stem + seq!['.'] + ext && ext.len() > 0 && !ext.contains('/')
            && !ext.contains('.') ==> (found matches Some(text) && text@ == ext),
        path@ == front + stem && !stem.drop_first().contains('.') && stem != seq!['.']
            ==> found is None,
{
    if path@ == front + stem + seq!['.'] + ext && ext.len() > 0 && !ext.contains('/')
        && !ext.contains('.') {
        lemma_extension(front, stem, ext);
    }
    if path@ == front + stem && !stem.drop_first().contains('.') && stem != seq!['.'] {
        lemma_no_extension(front, stem);
    }
}

/// A trailing separator or `.` makes no difference to a path.
pub proof fn law_trailing_components_do_not_matter(
    path: &str,
    closed: &str,
    of_path: Option<String>,
    of_closed: Option<String>,
    extension_of_path: Option<String>,
    extension_of_closed: Option<String>,
)
    requires
        call_ensures(parent, (path,), of_path),
        call_ensures(parent, (closed,), of_closed),
        call_ensures(extension, (path,), extension_of_path),
        call_ensures(extension, (closed,), extension_of_closed),
        path@.len() > 0,
        closed@ == path@ + seq!['/'] || closed@ == path@ + seq!['/', '.'],
    ensures
        of_path is Some <==> of_closed is Some,
        of_path is Some ==> of_path->0@ == of_closed->0@,
        extension_of_path is Some <==> extension_of_closed is Some,
        extension_of_path is Some ==> extension_of_path->0@ == extension_of_closed->0@,
{
    let once = path@ + seq!['/'];
    assert(once.drop_last() =~= path@);
    assert((path@ + seq!['/', '.']).drop_last() =~= once);
    reveal_with_fuel(crate::path::tail_trimmed, 3);
    assert(crate::path::tail_trimmed(once) == crate::path::tail_trimmed(path@));
    assert(crate::path::tail_trimmed(closed@) == crate::path::tail_trimmed(path@));
}

/// Two separators between a directory and a name are as good as one.
pub proof fn law_doubled_separators_do_not_matter(
    path: &str,
    dir: Seq<char>,
    name: Seq<char>,
    found: Option<String>,
)
    requires
        call_ensures(parent, (path,), found),
        path@ == dir + seq!['/', '/'] + name,
        dir.len() > 0,
        dir.last() != '/',
        dir.last() != '.',
        name.len() > 0,
        !name.contains('/'),
        name != seq!['.'],
    ensures
        found matches Some(text) && text@ == dir,
{
    let front = dir + seq!['/', '/'];
    assert(name[name.len() - 1] != '/');
    if name.len() > 1 {
        assert(name[name.len() - 2] != '/');
    } else if name[0] == '.' {
        assert(name =~= seq!['.']);
    }
    assert(crate::path::tail_trimmed(path@) == path@);
    crate::path::lemma_through_last_of(front, name, '/');
    assert(front.drop_last() =~= dir + seq!['/']);
    assert((dir + seq!['/']).drop_last() =~= dir);
    reveal_with_fuel(crate::path::tail_trimmed, 3);
    assert(crate::path::tail_trimmed(front) == dir);
    assert(path@.len() > 1);
}

} // verus!
