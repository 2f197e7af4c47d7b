//! Paths as text.

use vstd::prelude::*;
use vstd::string::*;

verus! {

/// Where the last slash of `path` is, or -1 where it has none.
pub open spec fn last_slash(path: Seq<char>) -> int
    decreases path.len(),
{
    if path.len() == 0 {
        -1
    } else if path.last() == '/' {
        path.len() - 1
    } else {
        last_slash(path.drop_last())
    }
}

/// The last component of `path`. Components are what stands between slashes; empty ones and `.`
/// do not count. A path that has none, or whose last one is `..`, has no file name.
pub open spec fn file_name(path: Seq<char>) -> Option<Seq<char>>
    decreases path.len(),
{
    let slash = last_slash(path);
    let last = path.skip(slash + 1);
    if last.len() == 0 || last == seq!['.'] {
        if 0 <= slash < path.len() {
            file_name(path.take(slash))
        } else {
            None
        }
    } else if last == seq!['.', '.'] {
        None
    } else {
        Some(last)
    }
}

/// What the last slash is: the slash with none behind it.
proof fn lemma_last_slash(path: Seq<char>, at: int)
    requires
        -1 <= at < path.len(),
        at >= 0 ==> path[at] == '/',
        forall|i: int| at < i < path.len() ==> #[trigger] path[i] != '/',
    ensures
        last_slash(path) == at,
    decreases path.len(),
{
    if path.len() > 0 && at < path.len() - 1 {
        assert(path.last() == path[path.len() - 1]);
        assert forall|i: int| at < i < path.drop_last().len() implies #[trigger] path.drop_last()[i]
            != '/' by {
            assert(path.drop_last()[i] == path[i]);
        }
        lemma_last_slash(path.drop_last(), at);
    }
}

/// The last component of a path.
pub fn base_name(path: &str) -> (name: Option<String>)
    ensures
        match file_name(path@) {
            Some(n) => name matches Some(s) && s@ == n,
            None => name is None,
        },
{
    let mut end: usize = path.unicode_len();
    assert(path@.take(end as int) =~= path@);
    loop
        invariant
            end <= path@.len(),
            file_name(path@.take(end as int)) == file_name(path@),
        decreases end,
    {
        let ghost rest = path@.take(end as int);
        let mut start: usize = end;
        while start > 0 && path.get_char(start - 1) != '/'
            invariant
                start <= end <= path@.len(),
                rest == path@.take(end as int),
                forall|i: int| start <= i < end ==> #[trigger] rest[i] != '/',
            decreases start,
        {
            start = start - 1;
        }
        proof {
            assert(start > 0 ==> rest[start - 1] == '/');
            lemma_last_slash(rest, start - 1);
            assert(rest.skip(start as int) =~= path@.subrange(start as int, end as int));
        }
        let length: usize = end - start;
        let one_dot: bool = length == 1 && path.get_char(start) == '.';
        let two_dots: bool = length == 2 && path.get_char(start) == '.' && path.get_char(start + 1)
            == '.';
        let ghost last = rest.skip(start as int);
        proof {
            assert(last.len() == length);
            assert(length > 0 ==> last[0] == path@[start as int]);
            assert(length > 1 ==> last[1] == path@[start + 1]);
            assert(one_dot ==> last =~= seq!['.']);
            assert(two_dots ==> last =~= seq!['.', '.']);
            assert(last == seq!['.'] ==> last.len() == 1 && last[0] == '.');
            assert(last == seq!['.', '.'] ==> last.len() == 2 && last[0] == '.' && last[1] == '.');
        }
        if length == 0 || one_dot {
            if start == 0 {
                return None;
            }
            assert(rest.take(start - 1) =~= path@.take(start - 1));
            end = start - 1;
        } else if two_dots {
            return None;
        } else {
            return Some(path.substring_char(start, end).to_string());
        }
    }
}

/// A component behind a slash is the file name of the path.
pub proof fn law_joined_name_is_file_name(directory: Seq<char>, name: Seq<char>)
    requires
        name.len() > 0,
        !name.contains('/'),
        name != seq!['.'],
        name != seq!['.', '.'],
    ensures
        file_name(directory + seq!['/'] + name) == Some(name),
{
    let path = directory + seq!['/'] + name;
    let slash = directory.len() as int;
    assert forall|i: int| slash < i < path.len() implies #[trigger] path[i] != '/' by {
        assert(path[i] == name[i - slash - 1]);
    }
    lemma_last_slash(path, slash);
    assert(path.skip(slash + 1) =~= name);
}

/// Slashes and dots at the end do not count, and going up leaves no file name.
pub proof fn law_path_endings(path: Seq<char>)
    ensures
        file_name(path + seq!['/']) == file_name(path),
        file_name(path + seq!['/', '.']) == file_name(path),
        file_name(path + seq!['/', '.', '.']) is None,
{
    let slash = path.len() as int;
    let (a, b, c) = (path + seq!['/'], path + seq!['/', '.'], path + seq!['/', '.', '.']);
    lemma_last_slash(a, slash);
    lemma_last_slash(b, slash);
    lemma_last_slash(c, slash);
    assert(a.skip(slash + 1) =~= Seq::empty());
    assert(b.skip(slash + 1) =~= seq!['.']);
    assert(c.skip(slash + 1) =~= seq!['.', '.']);
    assert(seq!['.', '.'].len() == 2 && seq!['.'].len() == 1);
    assert(a.take(slash) =~= path);
    assert(b.take(slash) =~= path);
}

/// A path without slashes is its own file name, unless it is empty or made of one or two dots.
pub proof fn law_bare_name_is_file_name(name: Seq<char>)
    requires
        !name.contains('/'),
    ensures
        file_name(name) == if name.len() == 0 || name == seq!['.'] || name == seq!['.', '.'] {
            None
        } else {
            Some(name)
        },
{
    assert forall|i: int| 0 <= i < name.len() implies name[i] != '/' by {
        assert(name.contains(name[i]));
    }
    lemma_last_slash(name, -1);
    assert(name.skip(0) =~= name);
    assert(seq!['.', '.'].len() == 2 && seq!['.'].len() == 1);
}

} // verus!
