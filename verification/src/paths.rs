//! File paths as text: components stand between slashes, and a component `.` behind
//! another one names nothing.
use vstd::prelude::*;

use crate::text;

verus! {

/// `path` without trailing slashes and trailing `.` components.
pub open spec fn stripped(path: Seq<char>) -> Seq<char>
    decreases path.len(),
{
    if path.len() > 0 && path.last() == '/' {
        stripped(path.drop_last())
    } else if path.len() > 1 && path.last() == '.' && path[path.len() - 2] == '/' {
        stripped(path.drop_last())
    } else {
        path
    }
}

/// The last component of `path`, where it names a file or directory.
pub open spec fn file_name(path: Seq<char>) -> Option<Seq<char>> {
    let last = text::after_last(stripped(path), '/');
    if last.len() == 0 || last == "."@ || last == ".."@ {
        None
    } else {
        Some(last)
    }
}

/// `path` without its last component; nothing where it has none.
pub open spec fn parent(path: Seq<char>) -> Option<Seq<char>> {
    let whole = stripped(path);
    if whole.len() == 0 {
        None
    } else {
        let front = whole.take(whole.len() - text::after_last(whole, '/').len());
        if front.len() > 0 && stripped(front).len() == 0 {
            Some("/"@)
        } else {
            Some(stripped(front))
        }
    }
}

/// The path of `name` in the directory `dir`; a name that starts with a slash is a path itself.
pub open spec fn joined(dir: Seq<char>, name: Seq<char>) -> Seq<char> {
    if name.len() > 0 && name[0] == '/' {
        name
    } else if dir.len() == 0 || dir.last() == '/' {
        dir + name
    } else {
        dir + "/"@ + name
    }
}

fn strip(path: &str) -> (result: String)
    ensures
        result@ == stripped(path@),
{
    let chars = text::chars_of(path);
    let mut to: usize = chars.len();
    proof {
        assert(path@.take(to as int) =~= path@);
    }
    while to > 0 && (chars[to - 1] == '/' || (to > 1 && chars[to - 1] == '.' && chars[to - 2]
        == '/'))
        invariant
            to <= chars@.len(),
            chars@ == path@,
            stripped(path@) == stripped(path@.take(to as int)),
        decreases to,
    {
        proof {
            assert(path@.take(to as int).drop_last() =~= path@.take(to - 1));
        }
        to -= 1;
    }
    proof {
        assert(chars@.subrange(0, to as int) =~= path@.take(to as int));
    }
    text::string_from(&chars, 0, to)
}

/// The last component of `path`, where it names a file or directory.
pub fn name_of(path: &str) -> (name: Option<String>)
    ensures
        match name {
            Some(name) => file_name(path@) == Some(name@),
            None => file_name(path@) is None,
        },
{
    let whole = strip(path);
    let last = text::rest_after_last(whole.as_str(), '/');
    if last.as_str().is_empty() || *last.as_str() == *"." || *last.as_str() == *".." {
        None
    } else {
        Some(last)
    }
}

/// `path` without its last component; nothing where it has none.
pub fn parent_of(path: &str) -> (result: Option<String>)
    ensures
        match result {
            Some(dir) => parent(path@) == Some(dir@),
            None => parent(path@) is None,
        },
{
    let whole = strip(path);
    if whole.as_str().is_empty() {
        return None;
    }
    let last = text::rest_after_last(whole.as_str(), '/');
    let chars = text::chars_of(whole.as_str());
    let skipped: usize = text::chars_of(last.as_str()).len();
    proof {
        text::lemma_after_last_is_clear(whole@, '/');
    }
    let end: usize = chars.len() - skipped;
    let front = text::string_from(&chars, 0, end);
    proof {
        assert(front@ =~= whole@.take(whole@.len() - text::after_last(whole@, '/').len()));
    }
    let dir = strip(front.as_str());
    if end > 0 && dir.as_str().is_empty() {
        Some("/".to_owned())
    } else {
        Some(dir)
    }
}

/// What stands behind the last dot of the file name, where a dot stands behind something.
pub open spec fn extension(path: Seq<char>) -> Option<Seq<char>> {
    match file_name(path) {
        Some(name) => {
            let rest = text::after_last(name, '.');
            if rest.len() + 1 < name.len() { Some(rest) } else { None }
        },
        None => None,
    }
}

/// What stands behind the last dot of the file name, where a dot stands behind something.
pub fn extension_of(path: &str) -> (result: Option<String>)
    ensures
        match result {
            Some(rest) => extension(path@) == Some(rest@),
            None => extension(path@) is None,
        },
{
    let name = match name_of(path) {
        Some(name) => name,
        None => return None,
    };
    let rest = text::rest_after_last(name.as_str(), '.');
    let name_chars = text::chars_of(name.as_str());
    let length: usize = name_chars.len();
    let rest_chars = text::chars_of(rest.as_str());
    let rest_length: usize = rest_chars.len();
    if length > 0 && rest_length < length - 1 {
        Some(rest)
    } else {
        None
    }
}

/// The path of `name` in the directory `dir`.
pub fn join(dir: &str, name: &str) -> (path: String)
    ensures
        path@ == joined(dir@, name@),
{
    let name_chars = text::chars_of(name);
    if name_chars.len() > 0 && name_chars[0] == '/' {
        return name.to_owned();
    }
    let chars = text::chars_of(dir);
    let mut path: String = dir.to_owned();
    if chars.len() > 0 && chars[chars.len() - 1] != '/' {
        path.append("/");
    }
    path.append(name);
    path
}

/// Whether `path` lies below the directory `dir`.
pub open spec fn lies_below(path: Seq<char>, dir: Seq<char>) -> bool {
    exists|rest: Seq<char>|
        rest.len() > 0 && rest[0] != '/' && path == #[trigger] joined(dir, rest)
}

proof fn lemma_stripped_is_a_prefix(path: Seq<char>)
    ensures
        stripped(path).len() <= path.len(),
        stripped(path) == path.take(stripped(path).len() as int),
        stripped(path).len() > 0 ==> stripped(path).last() != '/',
        stripped(path).len() < path.len() ==> path[stripped(path).len() as int] == '/',
    decreases path.len(),
{
    let shorter = path.drop_last();
    if path.len() > 0 && path.last() == '/' {
        lemma_stripped_is_a_prefix(shorter);
        assert(shorter.take(stripped(shorter).len() as int) =~= path.take(
            stripped(shorter).len() as int,
        ));
    } else if path.len() > 1 && path.last() == '.' && path[path.len() - 2] == '/' {
        lemma_stripped_is_a_prefix(shorter);
        assert(shorter.take(stripped(shorter).len() as int) =~= path.take(
            stripped(shorter).len() as int,
        ));
        assert(shorter.last() == '/');
    } else {
        assert(path.take(path.len() as int) =~= path);
    }
}

/// A file that stands beside a file or directory does not lie below it: removing the
/// directory leaves the file.
pub proof fn lemma_beside_is_not_below(path: Seq<char>, beside: Seq<char>)
    requires
        file_name(path) is Some,
        !beside.contains('/'),
    ensures
        parent(path) matches Some(dir) && !lies_below(joined(dir, beside), path),
{
    reveal_strlit("/");
    let whole = stripped(path);
    let last = text::after_last(whole, '/');
    let front = whole.take(whole.len() - last.len());
    lemma_stripped_is_a_prefix(path);
    text::lemma_after_last_is_clear(whole, '/');
    lemma_stripped_is_a_prefix(front);
    let dir = parent(path)->0;
    let file = joined(dir, beside);
    if beside.len() > 0 {
        assert(beside.contains(beside[0]));
    }
    if lies_below(file, path) {
        let rest = choose|rest: Seq<char>|
            rest.len() > 0 && rest[0] != '/' && file == #[trigger] joined(path, rest);
        let at = whole.len() as int;
        assert(joined(path, rest)[at] == '/');
        let head = file.len() - beside.len();
        assert(head <= front.len() || front.len() == 0);
        assert(file[at] == beside[at - head]);
        assert(beside.contains(beside[at - head]));
    }
}

} // verus!
