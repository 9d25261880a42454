//! Unix paths as texts: joining, parents and file extensions, decided by the
//! text alone.

use vstd::prelude::*;

use crate::text::chars_of;

verus! {

/// `part` below `base`. An absolute `part` replaces `base`.
pub open spec fn joined(base: Seq<char>, part: Seq<char>) -> Seq<char> {
    if part.len() > 0 && part[0] == '/' {
        part
    } else if base.len() == 0 || base.last() == '/' {
        base + part
    } else {
        base.push('/') + part
    }
}

/// `path` without trailing separators and trailing `.` components.
pub open spec fn tail_trimmed(path: Seq<char>) -> Seq<char>
    decreases path.len(),
{
    if path.len() > 1 && (path.last() == '/' || (path.last() == '.' && path[path.len() - 2]
        == '/')) {
        tail_trimmed(path.drop_last())
    } else {
        path
    }
}

/// What stands in `text` up to and with its last `mark`.
pub open spec fn through_last(text: Seq<char>, mark: char) -> Seq<char>
    decreases text.len(),
{
    if text.len() == 0 || text.last() == mark {
        text
    } else {
        through_last(text.drop_last(), mark)
    }
}

/// The path without its final component: `None` for the root and for the
/// empty path.
pub open spec fn parent_of(path: Seq<char>) -> Option<Seq<char>> {
    let body = tail_trimmed(path);
    if body.len() == 0 || body == seq!['/'] {
        None
    } else {
        Some(tail_trimmed(through_last(body, '/')))
    }
}

/// The final component, where it names something.
pub open spec fn file_name_of(path: Seq<char>) -> Option<Seq<char>> {
    let body = tail_trimmed(path);
    let name = body.skip(through_last(body, '/').len() as int);
    if name.len() == 0 || name == seq!['.'] || name == seq!['.', '.'] {
        None
    } else {
        Some(name)
    }
}

/// What follows the last dot of the file name. A name whose only dot leads it
/// has no extension.
pub open spec fn extension_of(path: Seq<char>) -> Option<Seq<char>> {
    match file_name_of(path) {
        Some(name) => {
            let stem = through_last(name, '.');
            if stem.len() > 1 {
                Some(name.skip(stem.len() as int))
            } else {
                None
            }
        },
        None => None,
    }
}

proof fn lemma_tail_trimmed(path: Seq<char>)
    ensures
        tail_trimmed(path).len() <= path.len(),
        tail_trimmed(path) == path.take(tail_trimmed(path).len() as int),
        tail_trimmed(path).len() > 1 ==> tail_trimmed(path).last() != '/',
    decreases path.len(),
{
    if path.len() > 1 && (path.last() == '/' || (path.last() == '.' && path[path.len() - 2]
        == '/')) {
        lemma_tail_trimmed(path.drop_last());
        let kept = tail_trimmed(path);
        assert(path.drop_last().take(kept.len() as int) =~= path.take(kept.len() as int));
    } else {
        assert(path.take(path.len() as int) =~= path);
    }
}

pub(crate) proof fn lemma_through_last(text: Seq<char>, mark: char)
    ensures
        through_last(text, mark).len() <= text.len(),
        through_last(text, mark) == text.take(through_last(text, mark).len() as int),
        through_last(text, mark).len() > 0 ==> through_last(text, mark).last() == mark,
    decreases text.len(),
{
    if text.len() == 0 || text.last() == mark {
        assert(text.take(text.len() as int) =~= text);
    } else {
        lemma_through_last(text.drop_last(), mark);
        let kept = through_last(text, mark);
        assert(text.drop_last().take(kept.len() as int) =~= text.take(kept.len() as int));
    }
}

/// What stands behind the last `mark` holds none.
pub(crate) proof fn lemma_through_last_of(front: Seq<char>, rest: Seq<char>, mark: char)
    requires
        front.len() > 0 ==> front.last() == mark,
        !rest.contains(mark),
    ensures
        through_last(front + rest, mark) == front,
    decreases rest.len(),
{
    let whole = front + rest;
    if rest.len() == 0 {
        assert(whole =~= front);
    } else {
        let shorter = rest.drop_last();
        assert(!shorter.contains(mark)) by {
            if shorter.contains(mark) {
                let k = choose|k: int| 0 <= k < shorter.len() && shorter[k] == mark;
                assert(rest[k] == mark);
            }
        }
        assert(rest[rest.len() - 1] != mark);
        assert(whole.drop_last() =~= front + shorter);
        lemma_through_last_of(front, shorter, mark);
    }
}

/// A parent is shorter than its path.
pub proof fn lemma_parent_shorter(path: Seq<char>)
    ensures
        parent_of(path) matches Some(parent) ==> parent.len() < path.len(),
{
    let body = tail_trimmed(path);
    lemma_tail_trimmed(path);
    lemma_through_last(body, '/');
    let upper = through_last(body, '/');
    lemma_tail_trimmed(upper);
    if parent_of(path) is Some && upper.len() == body.len() {
        assert(upper =~= body);
        assert(body.last() == '/');
        assert(body.len() == 1);
        assert(body =~= seq!['/']);
    }
}

/// `part` below `base`.
pub fn join(base: &str, part: &str) -> (path: String)
    ensures
        path@ == joined(base@, part@),
{
    let length: usize = base.unicode_len();
    if part.unicode_len() > 0 && part.get_char(0) == '/' {
        return part.to_owned();
    }
    let mut path = base.to_owned();
    if length > 0 && base.get_char(length - 1) != '/' {
        path.append("/");
        proof {
            reveal_strlit("/");
            assert(path@ =~= base@.push('/'));
        }
    }
    path.append(part);
    path
}

/// How many of the first `length` characters [`tail_trimmed`] keeps.
fn trimmed_length(chars: &Vec<char>, length: usize) -> (kept: usize)
    requires
        length <= chars.len(),
    ensures
        kept <= length,
        tail_trimmed(chars@.take(length as int)) == chars@.take(kept as int),
{
    let mut kept: usize = length;
    while kept > 1 && (chars[kept - 1] == '/' || (chars[kept - 1] == '.' && chars[kept - 2] == '/'))
        invariant
            kept <= length <= chars.len(),
            tail_trimmed(chars@.take(length as int)) == tail_trimmed(chars@.take(kept as int)),
        decreases kept,
    {
        assert(chars@.take(kept as int).drop_last() =~= chars@.take(kept - 1));
        kept -= 1;
    }
    kept
}

/// How many of the characters in `start..end` [`through_last`] keeps.
fn length_through(chars: &Vec<char>, start: usize, end: usize, mark: char) -> (kept: usize)
    requires
        start <= end <= chars.len(),
    ensures
        start + kept <= end,
        kept == through_last(chars@.subrange(start as int, end as int), mark).len(),
        through_last(chars@.subrange(start as int, end as int), mark) == chars@.subrange(
            start as int,
            start + kept,
        ),
{
    let mut kept: usize = end - start;
    while kept > 0 && chars[start + kept - 1] != mark
        invariant
            start + kept <= end <= chars.len(),
            through_last(chars@.subrange(start as int, end as int), mark) == through_last(
                chars@.subrange(start as int, start + kept),
                mark,
            ),
        decreases kept,
    {
        assert(chars@.subrange(start as int, start + kept).drop_last() =~= chars@.subrange(
            start as int,
            start + kept - 1,
        ));
        kept -= 1;
    }
    kept
}

/// The path without its final component: `None` for the root and for the
/// empty path.
pub fn parent(path: &str) -> (found: Option<String>)
    ensures
        found is Some <==> parent_of(path@) is Some,
        found matches Some(upper) ==> parent_of(path@) == Some(upper@),
{
    let chars = chars_of(path);
    assert(chars@.take(chars@.len() as int) =~= path@);
    let body: usize = trimmed_length(&chars, chars.len());
    let ghost trimmed = tail_trimmed(path@);
    assert(trimmed =~= chars@.take(body as int));
    if body == 0 || (body == 1 && chars[0] == '/') {
        proof {
            if body == 1 {
                assert(trimmed =~= seq!['/']);
            }
        }
        return None;
    }
    proof {
        if trimmed == seq!['/'] {
            assert(trimmed[0] == '/');
        }
        assert(chars@.subrange(0, body as int) =~= trimmed);
    }
    let upper: usize = length_through(&chars, 0, body, '/');
    assert(chars@.subrange(0, upper as int) =~= chars@.take(upper as int));
    let kept: usize = trimmed_length(&chars, upper);
    assert(path@.subrange(0, kept as int) =~= chars@.take(kept as int));
    Some(path.substring_char(0, kept).to_owned())
}

/// What follows the last dot of the file name.
pub fn extension(path: &str) -> (found: Option<String>)
    ensures
        found is Some <==> extension_of(path@) is Some,
        found matches Some(tail) ==> extension_of(path@) == Some(tail@),
{
    let chars = chars_of(path);
    assert(chars@.take(chars@.len() as int) =~= path@);
    let body: usize = trimmed_length(&chars, chars.len());
    let ghost trimmed = tail_trimmed(path@);
    assert(chars@.subrange(0, body as int) =~= trimmed);
    let start: usize = length_through(&chars, 0, body, '/');
    let ghost name = trimmed.skip(start as int);
    assert(name =~= chars@.subrange(start as int, body as int));
    if start == body || (body - start == 1 && chars[start] == '.') || (body - start == 2
        && chars[start] == '.' && chars[start + 1] == '.') {
        proof {
            if body - start == 1 {
                assert(name =~= seq!['.']);
            } else if body - start == 2 {
                assert(name =~= seq!['.', '.']);
            }
        }
        return None;
    }
    proof {
        if name == seq!['.'] {
            assert(name[0] == '.');
        }
        if name == seq!['.', '.'] {
            assert(name[0] == '.' && name[1] == '.');
        }
        assert(file_name_of(path@) == Some(name));
    }
    let stem: usize = length_through(&chars, start, body, '.');
    if stem <= 1 {
        return None;
    }
    assert(path@.subrange(start + stem, body as int) =~= name.skip(stem as int));
    Some(path.substring_char(start + stem, body).to_owned())
}

} // verus!
