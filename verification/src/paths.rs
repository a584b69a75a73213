//! A display-friendly "stem" for a path: the file name without its final
//! extension.
//!
//! The file name of a path is its last component, ignoring trailing
//! separators and trailing `.` components; a path whose last component is
//! `..`, or which has no component at all, has no file name, and the whole
//! path is used unchanged as the fallback. The stem of a file name is the
//! part before its last `.`, except that a leading `.` (a hidden file) does
//! not begin an extension. The stem is used only for display, never for I/O.

use vstd::prelude::*;

verus! {

/// The longest suffix of `s` that holds no path separator: the text after
/// the last `/`, or all of `s` when it has none.
pub open spec fn after_last_separator(s: Seq<char>) -> Seq<char>
    decreases s.len(),
{
    if s.len() == 0 {
        s
    } else if s.last() == '/' {
        Seq::empty()
    } else {
        after_last_separator(s.drop_last()).push(s.last())
    }
}

/// The file name of a path: its last component, with trailing separators and
/// trailing `.` components ignored. `None` when nothing is left, or when the
/// last component is `..`.
pub open spec fn file_name_of(s: Seq<char>) -> Option<Seq<char>>
    decreases s.len(),
{
    if s.len() == 0 {
        None
    } else {
        let name = after_last_separator(s);
        if name.len() == 0 || (name.len() == 1 && name[0] == '.') {
            file_name_of(s.drop_last())
        } else if name.len() == 2 && name[0] == '.' && name[1] == '.' {
            None
        } else {
            Some(name)
        }
    }
}

/// The prefix of `name` that stands before its last `.` (the empty sequence
/// when `name` holds no `.` at all).
pub open spec fn before_last_dot(name: Seq<char>) -> Seq<char>
    decreases name.len(),
{
    if name.len() == 0 {
        name
    } else if name.last() == '.' {
        name.drop_last()
    } else {
        before_last_dot(name.drop_last())
    }
}

/// The stem of a file name: the part before the last `.`, except that a `.`
/// in first position (a hidden file) does not begin an extension, so a name
/// whose only `.` is its first character is kept whole.
pub open spec fn stem_of_name(name: Seq<char>) -> Seq<char> {
    if name.len() >= 1 && name.subrange(1, name.len() as int).contains('.') {
        before_last_dot(name)
    } else {
        name
    }
}

/// The display stem of a path: the stem of its file name, or the path itself
/// unchanged when the path has no file name.
pub open spec fn stem_of(path: Seq<char>) -> Seq<char> {
    match file_name_of(path) {
        Option::None => path,
        Option::Some(name) => stem_of_name(name),
    }
}

/// When no separator stands at or after position `k` and a separator (or the
/// start of the text) stands just before it, the suffix from `k` is exactly
/// the text after the last separator.
proof fn lemma_after_last_separator(s: Seq<char>, k: int)
    requires
        0 <= k <= s.len(),
        k == 0 || s[k - 1] == '/',
        forall|i: int| k <= i < s.len() ==> s[i] != '/',
    ensures
        after_last_separator(s) == s.subrange(k, s.len() as int),
    decreases s.len(),
{
    if s.len() == 0 {
        assert(after_last_separator(s) =~= s.subrange(0, 0));
    } else if k == s.len() {
        assert(s.last() == '/');
        assert(after_last_separator(s) =~= s.subrange(k, s.len() as int));
    } else {
        assert(s.last() != '/');
        lemma_after_last_separator(s.drop_last(), k);
        assert(s.subrange(k, s.len() as int) =~= s.drop_last().subrange(
            k,
            s.len() - 1,
        ).push(s.last()));
    }
}

/// When a `.` stands at position `d` of `name` and none stands after it, the
/// part before the last `.` is exactly the prefix up to `d`.
proof fn lemma_before_last_dot(name: Seq<char>, d: int)
    requires
        0 <= d < name.len(),
        name[d] == '.',
        forall|i: int| d < i < name.len() ==> name[i] != '.',
    ensures
        before_last_dot(name) == name.subrange(0, d),
    decreases name.len(),
{
    if d == name.len() - 1 {
        assert(name.last() == '.');
        assert(name.drop_last() =~= name.subrange(0, d));
    } else {
        assert(name.last() != '.');
        lemma_before_last_dot(name.drop_last(), d);
        assert(name.drop_last().subrange(0, d) =~= name.subrange(0, d));
    }
}

/// Find the start of the last component of `filename@` read up to `end`: the
/// position right after the last separator before `end`.
fn find_component_start(filename: &str, end: usize) -> (st: usize)
    requires
        end <= filename@.len(),
    ensures
        st <= end,
        forall|i: int| st <= i < end ==> filename@[i] != '/',
        st == 0 || filename@[st - 1] == '/',
{
    let mut st: usize = end;
    loop
        invariant
            st <= end,
            end <= filename@.len(),
            forall|i: int| st <= i < end ==> filename@[i] != '/',
        ensures
            st <= end,
            forall|i: int| st <= i < end ==> filename@[i] != '/',
            st == 0 || filename@[st - 1] == '/',
        decreases st,
    {
        if st == 0 {
            break;
        }
        if filename.get_char(st - 1) == '/' {
            break;
        }
        st = st - 1;
    }
    st
}

/// Find the last `.` of `filename@` strictly inside `(start, end)`; a `.` at
/// `start` itself does not count, so a hidden file's leading dot never begins
/// an extension.
fn find_last_dot(filename: &str, start: usize, end: usize) -> (r: Option<usize>)
    requires
        start < end <= filename@.len(),
    ensures
        match r {
            Option::Some(d) => start < d < end && filename@[d as int] == '.' && (forall|i: int|
                d < i < end ==> filename@[i] != '.'),
            Option::None => forall|i: int| start < i < end ==> filename@[i] != '.',
        },
{
    let mut j: usize = end;
    while j > start + 1
        invariant
            start + 1 <= j <= end,
            end <= filename@.len(),
            forall|i: int| j <= i < end ==> filename@[i] != '.',
        decreases j,
    {
        if filename.get_char(j - 1) == '.' {
            return Some(j - 1);
        }
        j = j - 1;
    }
    None
}

/// The display stem of a path: the file name without its final extension,
/// or the path itself unchanged when it has no valid file name.
pub fn get_file_name(filename: &str) -> (r: &str)
    ensures
        r@ == stem_of(filename@),
{
    let n = filename.unicode_len();
    proof {
        assert(filename@.subrange(0, n as int) =~= filename@);
    }
    let mut end: usize = n;
    let mut start: usize = 0;
    loop
        invariant_except_break
            end <= n,
            n == filename@.len(),
            file_name_of(filename@) == file_name_of(filename@.subrange(0, end as int)),
        ensures
            start < end <= n,
            n == filename@.len(),
            file_name_of(filename@) == Option::Some(
                filename@.subrange(start as int, end as int),
            ),
        decreases end,
    {
        let ghost p = filename@.subrange(0, end as int);
        if end == 0 {
            proof {
                assert(p =~= Seq::<char>::empty());
            }
            return filename;
        }
        let st = find_component_start(filename, end);
        proof {
            lemma_after_last_separator(p, st as int);
            assert(p.subrange(st as int, end as int) =~= filename@.subrange(
                st as int,
                end as int,
            ));
            assert(filename@.subrange(0, (end - 1) as int) =~= p.drop_last());
        }
        if end - st == 0 {
            end = end - 1;
        } else if end - st == 1 && filename.get_char(st) == '.' {
            end = end - 1;
        } else if end - st == 2 && filename.get_char(st) == '.' && filename.get_char(st + 1)
            == '.' {
            return filename;
        } else {
            start = st;
            break;
        }
    }
    let ghost name = filename@.subrange(start as int, end as int);
    match find_last_dot(filename, start, end) {
        Option::Some(d) => {
            proof {
                assert(name.subrange(1, name.len() as int).contains('.')) by {
                    assert(name.subrange(1, name.len() as int)[d - start - 1] == '.');
                }
                lemma_before_last_dot(name, d - start);
                assert(name.subrange(0, d - start) =~= filename@.subrange(start as int, d as int));
            }
            filename.substring_char(start, d)
        },
        Option::None => {
            proof {
                assert forall|k: int| 0 <= k < name.len() - 1 implies name.subrange(
                    1,
                    name.len() as int,
                )[k] != '.' by {
                    assert(name.subrange(1, name.len() as int)[k] == filename@[start + 1 + k]);
                }
            }
            filename.substring_char(start, end)
        },
    }
}

} // verus!
