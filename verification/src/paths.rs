use vstd::prelude::*;
use vstd::string::StrSliceExecFns;
use vstd::string::StringExecFns;

verus! {

/// `base` followed by `name`, with one separator between them where `base`
/// does not already end in one. A `name` that starts at the root stands
/// alone.
pub open spec fn joined(base: Seq<char>, name: Seq<char>) -> Seq<char> {
    if name.len() > 0 && name[0] == '/' {
        name
    } else if base.len() == 0 || base.last() == '/' {
        base + name
    } else {
        base + seq!['/'] + name
    }
}

/// Whether a path names something below a directory: it holds a character
/// that is no separator.
pub open spec fn has_parent(path: Seq<char>) -> bool {
    exists|i: int| 0 <= i < path.len() && path[i] != '/'
}

/// `path` without the separators at its end.
pub open spec fn trimmed(path: Seq<char>) -> Seq<char>
    decreases path.len(),
{
    if path.len() > 0 && path.last() == '/' {
        trimmed(path.drop_last())
    } else {
        path
    }
}

/// Where the last component of `path` begins.
pub open spec fn last_start(path: Seq<char>) -> int
    decreases path.len(),
{
    if path.len() == 0 || path.last() == '/' {
        path.len() as int
    } else {
        last_start(path.drop_last())
    }
}

/// The last component of `path`, separators at the end set aside.
pub open spec fn last_component(path: Seq<char>) -> Seq<char> {
    let body = trimmed(path);
    body.subrange(last_start(body), body.len() as int)
}

/// The name under which a listed path enters an archive: its last component,
/// unless that is empty or one of the two dot names.
pub open spec fn base_name_of(path: Seq<char>) -> Option<Seq<char>> {
    let last = last_component(path);
    if last.len() == 0 || last == seq!['.'] || last == seq!['.', '.'] {
        None
    } else {
        Some(last)
    }
}

/// Joins `base` and `name` as `joined` says.
pub fn join_path(base: &str, name: &str) -> (r: String)
    ensures
        r@ == joined(base@, name@),
{
    let name_len: usize = name.unicode_len();
    let base_len: usize = base.unicode_len();
    if name_len > 0 && name.get_char(0) == '/' {
        String::from_str(name)
    } else if base_len == 0 || base.get_char(base_len - 1) == '/' {
        String::from_str(base).concat(name)
    } else {
        proof {
            reveal_strlit("/");
            assert("/"@ =~= seq!['/']);
        }
        String::from_str(base).concat("/").concat(name)
    }
}

/// Whether `path` holds a character that is no separator.
pub fn path_has_parent(path: &str) -> (r: bool)
    ensures
        r == has_parent(path@),
{
    let len: usize = path.unicode_len();
    let mut i: usize = 0;
    while i < len
        invariant
            len == path@.len(),
            i <= len,
            forall|j: int| 0 <= j < i ==> path@[j] == '/',
        decreases len - i,
    {
        if path.get_char(i) != '/' {
            return true;
        }
        i += 1;
    }
    false
}

/// The base name of `path`, as `base_name_of` says.
pub fn base_name(path: &str) -> (r: Option<String>)
    ensures
        r is Some <==> base_name_of(path@) is Some,
        r is Some ==> r->Some_0@ == base_name_of(path@)->Some_0,
{
    let len: usize = path.unicode_len();
    let mut end: usize = len;
    assert(path@.take(end as int) =~= path@);
    while end > 0 && path.get_char(end - 1) == '/'
        invariant
            len == path@.len(),
            end <= len,
            trimmed(path@) == trimmed(path@.take(end as int)),
        decreases end,
    {
        proof {
            assert(path@.take(end as int).drop_last() =~= path@.take(end - 1));
        }
        end -= 1;
    }
    let ghost body = path@.take(end as int);
    assert(trimmed(body) == body);
    let mut start: usize = end;
    assert(body.take(start as int) =~= body);
    while start > 0 && path.get_char(start - 1) != '/'
        invariant
            len == path@.len(),
            start <= end <= len,
            body == path@.take(end as int),
            last_start(body) == last_start(body.take(start as int)),
        decreases start,
    {
        proof {
            assert(body.take(start as int).drop_last() =~= body.take(start - 1));
            assert(body.take(start as int).last() == path@[start - 1]);
        }
        start -= 1;
    }
    proof {
        if start > 0 {
            assert(body.take(start as int).last() == path@[start - 1]);
        }
        assert(last_start(body) == start);
        assert(body.subrange(start as int, end as int) =~= path@.subrange(
            start as int,
            end as int,
        ));
    }
    let last = path.substring_char(start, end);
    let count: usize = end - start;
    if count == 0 {
        return None;
    }
    if count == 1 && last.get_char(0) == '.' {
        assert(last@ =~= seq!['.']);
        return None;
    }
    if count == 2 && last.get_char(0) == '.' && last.get_char(1) == '.' {
        assert(last@ =~= seq!['.', '.']);
        return None;
    }
    proof {
        if last@ == seq!['.'] {
            assert(last@.len() == 1 && last@[0] == '.');
        }
        if last@ == seq!['.', '.'] {
            assert(last@.len() == 2 && last@[0] == '.' && last@[1] == '.');
        }
    }
    Some(String::from_str(last))
}

/// A joined path ends in the name that was joined, whatever the base; and
/// it begins with the base unless the name starts at the root.
pub proof fn joined_keeps_both(base: Seq<char>, name: Seq<char>)
    ensures
        joined(base, name).len() >= name.len(),
        joined(base, name).subrange(
            joined(base, name).len() - name.len(),
            joined(base, name).len() as int,
        ) == name,
        !(name.len() > 0 && name[0] == '/') ==> joined(base, name).len() >= base.len() && joined(
            base,
            name,
        ).subrange(0, base.len() as int) == base,
{
    let whole = joined(base, name);
    assert(whole.subrange(whole.len() - name.len(), whole.len() as int) =~= name);
    if !(name.len() > 0 && name[0] == '/') {
        assert(whole.subrange(0, base.len() as int) =~= base);
    }
}

} // verus!
