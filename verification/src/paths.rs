//! Paths as text: the relation of a path to a directory above it.
//!
//! A path is a sequence of components between `/` characters. Repeated separators and `.`
//! components do not count, but for a `.` at the very beginning. On Windows a path may begin with a
//! prefix, such as a drive, and a backslash separates components too (see [`windows`]).

use vstd::prelude::*;

use crate::command::System;

pub mod laws;
pub mod windows;

verus! {

/// Whether the path begins at the root.
pub open spec fn is_rooted(path: Seq<char>) -> bool {
    path.len() > 0 && path[0] == '/'
}

/// Whether a `.` component begins at `i`, the beginning of a component.
pub open spec fn is_dot(path: Seq<char>, i: int) -> bool {
    0 <= i < path.len() && path[i] == '.' && (i + 1 == path.len() || path[i + 1] == '/')
}

/// The number of characters before the components proper: the root, or a `.` at the beginning.
pub open spec fn front_len(path: Seq<char>) -> int {
    if is_rooted(path) || is_dot(path, 0) {
        1
    } else {
        0
    }
}

/// The beginning of the next component at or after `i`, the beginning or the end of a component.
pub open spec fn component_start(path: Seq<char>, i: int) -> int
    decreases path.len() - i,
{
    if i < 0 || i >= path.len() {
        path.len() as int
    } else if path[i] == '/' || is_dot(path, i) {
        component_start(path, i + 1)
    } else {
        i
    }
}

/// The end of the component that begins at `i`.
pub open spec fn component_end(path: Seq<char>, i: int) -> int
    decreases path.len() - i,
{
    if i < 0 || i >= path.len() {
        path.len() as int
    } else if path[i] == '/' {
        i
    } else {
        component_end(path, i + 1)
    }
}

/// The end of the last component before `end` that begins at or after `start`.
pub open spec fn last_end(path: Seq<char>, start: int, end: int) -> int
    decreases end,
{
    if end <= start || end <= 0 || end > path.len() {
        end
    } else if path[end - 1] == '/' {
        last_end(path, start, end - 1)
    } else if path[end - 1] == '.' && (end - 1 == start || path[end - 2] == '/') {
        last_end(path, start, end - 1)
    } else {
        end
    }
}

/// Where components begin and end.
pub proof fn lemma_component_bounds(path: Seq<char>, i: int)
    requires
        0 <= i <= path.len(),
    ensures
        i <= component_start(path, i) <= path.len(),
        i <= component_end(path, i) <= path.len(),
        component_start(path, i) < path.len() ==> component_start(path, i) < component_end(
            path,
            component_start(path, i),
        ),
    decreases path.len() - i,
{
    if i < path.len() {
        lemma_component_bounds(path, i + 1);
    }
    let s = component_start(path, i);
    if s == i && i < path.len() {
        lemma_component_bounds(path, i + 1);
    }
}

/// The place in `path` after the components of `base`, where `path` begins with them. `i` and `j`
/// are places in `path` and `base` up to which the components are the same.
pub open spec fn after_components(path: Seq<char>, i: int, base: Seq<char>, j: int) -> Option<int>
    decreases base.len() - j,
{
    let b = component_start(base, j);
    let p = component_start(path, i);
    if j < 0 || b >= base.len() {
        Some(i)
    } else if p >= path.len() {
        None
    } else if path.subrange(p, component_end(path, p)) != base.subrange(b, component_end(base, b)) {
        None
    } else {
        proof {
            if j <= base.len() {
                lemma_component_bounds(base, j);
                lemma_component_bounds(base, b);
            }
        }
        after_components(path, component_end(path, p), base, component_end(base, b))
    }
}

/// Where the part of a path that is relative to a directory begins and ends, or `None` where the path
/// does not lie under the directory.
pub open spec fn span(path: Seq<char>, base: Seq<char>) -> Option<(int, int)> {
    if base.len() == 0 {
        Some((0, last_end(path, front_len(path), path.len() as int)))
    } else if is_rooted(path) != is_rooted(base) || is_dot(path, 0) != is_dot(base, 0) {
        None
    } else {
        match after_components(path, front_len(path), base, front_len(base)) {
            Some(i) => {
                let start = component_start(path, i);
                Some((start, last_end(path, start, path.len() as int)))
            },
            None => None,
        }
    }
}

/// The path relative to a directory, or `None` where it does not lie under the directory.
pub open spec fn relative(path: Seq<char>, base: Seq<char>) -> Option<Seq<char>> {
    match span(path, base) {
        Some((start, end)) => Some(path.subrange(start, end)),
        None => None,
    }
}

/// The same on this system.
pub open spec fn relative_on(system: System, path: Seq<char>, base: Seq<char>) -> Option<Seq<char>> {
    match system {
        System::Unix => relative(path, base),
        System::Windows => windows::relative(path, base),
    }
}

pub(crate) fn chars_of(s: &str) -> (r: Vec<char>)
    ensures
        r@ == s@,
{
    let mut r: Vec<char> = Vec::new();
    for c in it: s.chars()
        invariant
            it.seq() == s@,
            r@ == s@.take(it.index() as int),
    {
        let ghost before = r@;
        r.push(c);
        assert(s@.take(it.index() + 1) =~= before.push(s@[it.index() as int]));
    }
    assert(s@.take(s@.len() as int) =~= s@);
    r
}

pub(crate) fn dot_at(path: &Vec<char>, i: usize) -> (r: bool)
    requires
        i <= path.len(),
    ensures
        r == is_dot(path@, i as int),
{
    i < path.len() && path[i] == '.' && (i + 1 == path.len() || path[i + 1] == '/')
}

pub(crate) fn find_start(path: &Vec<char>, from: usize) -> (r: usize)
    requires
        from <= path.len(),
    ensures
        r == component_start(path@, from as int),
        from <= r <= path.len(),
{
    let mut i: usize = from;
    while i < path.len() && (path[i] == '/' || dot_at(path, i))
        invariant
            from <= i <= path.len(),
            component_start(path@, from as int) == component_start(path@, i as int),
        decreases path.len() - i,
    {
        i = i + 1;
    }
    i
}

fn find_end(path: &Vec<char>, from: usize) -> (r: usize)
    requires
        from <= path.len(),
    ensures
        r == component_end(path@, from as int),
        from <= r <= path.len(),
{
    let mut i: usize = from;
    while i < path.len() && path[i] != '/'
        invariant
            from <= i <= path.len(),
            component_end(path@, from as int) == component_end(path@, i as int),
        decreases path.len() - i,
    {
        i = i + 1;
    }
    i
}

fn find_last_end(path: &Vec<char>, start: usize) -> (r: usize)
    requires
        start <= path.len(),
    ensures
        r == last_end(path@, start as int, path@.len() as int),
        start <= r <= path.len(),
{
    let mut end: usize = path.len();
    while end > start && (path[end - 1] == '/' || (path[end - 1] == '.' && (end - 1 == start || path[end - 2]
        == '/')))
        invariant
            start <= end <= path.len(),
            last_end(path@, start as int, path@.len() as int) == last_end(path@, start as int, end as int),
        decreases end,
    {
        end = end - 1;
    }
    end
}

pub(crate) fn same_chars(a: &Vec<char>, a0: usize, a1: usize, b: &Vec<char>, b0: usize, b1: usize) -> (r: bool)
    requires
        a0 <= a1 <= a.len(),
        b0 <= b1 <= b.len(),
    ensures
        r == (a@.subrange(a0 as int, a1 as int) == b@.subrange(b0 as int, b1 as int)),
{
    let ghost x = a@.subrange(a0 as int, a1 as int);
    let ghost y = b@.subrange(b0 as int, b1 as int);
    if a1 - a0 != b1 - b0 {
        assert(x.len() != y.len());
        return false;
    }
    let mut k: usize = 0;
    while k < a1 - a0
        invariant
            a0 <= a1 <= a.len(),
            b0 <= b1 <= b.len(),
            a1 - a0 == b1 - b0,
            k <= a1 - a0,
            x == a@.subrange(a0 as int, a1 as int),
            y == b@.subrange(b0 as int, b1 as int),
            forall|m: int| 0 <= m < k ==> x[m] == y[m],
        decreases a1 - a0 - k,
    {
        if a[a0 + k] != b[b0 + k] {
            assert(x[k as int] != y[k as int]);
            return false;
        }
        assert(x[k as int] == y[k as int]);
        k = k + 1;
    }
    assert(x =~= y);
    true
}

/// Where the part of a path that is relative to a directory begins and ends.
pub(crate) fn find_span(path: &Vec<char>, base: &Vec<char>) -> (r: Option<(usize, usize)>)
    ensures
        match r {
            Some((start, end)) => span(path@, base@) == Some((start as int, end as int)) && start <= end
                <= path.len(),
            None => span(path@, base@) is None,
        },
{
    let rooted = path.len() > 0 && path[0] == '/';
    let dotted = dot_at(path, 0);
    let front: usize = if rooted || dotted {
        1
    } else {
        0
    };
    if base.len() == 0 {
        return Some((0, find_last_end(path, front)));
    }
    let base_rooted = base[0] == '/';
    let base_dotted = dot_at(base, 0);
    if rooted != base_rooted || dotted != base_dotted {
        return None;
    }
    let mut i: usize = front;
    let mut j: usize = front;
    loop
        invariant
            i <= path.len(),
            j <= base.len(),
            base@.len() > 0,
            is_rooted(path@) == is_rooted(base@),
            is_dot(path@, 0) == is_dot(base@, 0),
            after_components(path@, front_len(path@), base@, front_len(base@)) == after_components(
                path@,
                i as int,
                base@,
                j as int,
            ),
        decreases base.len() - j,
    {
        let b: usize = find_start(base, j);
        if b >= base.len() {
            let start: usize = find_start(path, i);
            return Some((start, find_last_end(path, start)));
        }
        let p: usize = find_start(path, i);
        if p >= path.len() {
            return None;
        }
        let p_end: usize = find_end(path, p);
        let b_end: usize = find_end(base, b);
        proof {
            lemma_component_bounds(base@, j as int);
        }
        if !same_chars(path, p, p_end, base, b, b_end) {
            return None;
        }
        i = p_end;
        j = b_end;
    }
}

/// The path relative to a directory on this system, or `None` where it does not lie under the
/// directory.
pub fn to_relative_path(system: System, absolute_path: &str, watched_path: &str) -> (r: Option<String>)
    ensures
        crate::json::opt_text(r) == relative_on(system, absolute_path@, watched_path@),
{
    let path = chars_of(absolute_path);
    let base = chars_of(watched_path);
    assert(absolute_path@.len() <= usize::MAX) by {
        assert(path@.len() == path.len());
    }
    let found = match system {
        System::Unix => find_span(&path, &base),
        System::Windows => windows::find_span(&path, &base),
    };
    match found {
        Some((start, end)) => Some(absolute_path.substring_char(start, end).to_owned()),
        None => None,
    }
}

/// Whether a path is written plainly: it has no repeated or trailing separators and no `.`
/// components.
pub open spec fn is_plain(path: Seq<char>) -> bool {
    &&& forall|i: int|
        0 <= i < path.len() && #[trigger] path[i] == '/' ==> i + 1 < path.len() && path[i + 1] != '/'
            && !is_dot(path, i + 1)
    &&& path.len() > 0
    &&& !is_dot(path, 0)
}

/// A path below a directory is relative to it what was added to the directory's path.
pub proof fn lemma_relative_of_joined(base: Seq<char>, rest: Seq<char>)
    requires
        is_rooted(base),
        is_plain(base),
        is_plain(rest),
        !is_rooted(rest),
    ensures
        relative(base + seq!['/'] + rest, base) == Some(rest),
{
    let path = base + seq!['/'] + rest;
    assert(path[0] == base[0]);
    lemma_match_joined(base, rest, 1);
    let n = base.len() as int;
    assert(path[n] == '/');
    assert(path[n + 1] == rest[0]);
    assert(component_start(path, n) == component_start(path, n + 1));
    assert(!is_dot(path, n + 1)) by {
        if is_dot(path, n + 1) {
            assert(rest[0] == '.');
            if rest.len() > 1 {
                assert(path[n + 2] == rest[1]);
            }
            assert(is_dot(rest, 0));
        }
    }
    assert(component_start(path, n + 1) == n + 1);
    let last = rest.len() - 1;
    assert(path[path.len() - 1] == rest[last]);
    assert(rest[last] != '/');
    if path[path.len() - 1] == '.' && (path.len() - 1 == n + 1 || path[path.len() - 2] == '/') {
        if last == 0 {
            assert(is_dot(rest, 0));
        } else {
            assert(path[path.len() - 2] == rest[last - 1]);
            assert(rest[last - 1] == '/');
            assert(is_dot(rest, last));
        }
    }
    assert(last_end(path, n + 1, path.len() as int) == path.len());
    assert(path.subrange(n + 1, path.len() as int) =~= rest);
}

/// The components of the directory are those with which the longer path begins.
proof fn lemma_match_joined(base: Seq<char>, rest: Seq<char>, i: int)
    requires
        is_rooted(base),
        is_plain(base),
        1 <= i <= base.len(),
        i == 1 || i == base.len() || base[i] == '/',
    ensures
        after_components(base + seq!['/'] + rest, i, base, i) == Some(base.len() as int),
    decreases base.len() - i,
{
    let path = base + seq!['/'] + rest;
    let n = base.len() as int;
    if i < n {
        let s = if base[i] == '/' {
            i + 1
        } else {
            i
        };
        assert(base[0] == '/');
        assert(s < n && base[s] != '/' && !is_dot(base, s));
        assert(path[s] == base[s]);
        assert(!is_dot(path, s)) by {
            if is_dot(path, s) {
                if s + 1 < n {
                    assert(path[s + 1] == base[s + 1]);
                }
                assert(is_dot(base, s));
            }
        }
        assert(component_start(base, s) == s);
        assert(component_start(path, s) == s);
        if s == i + 1 {
            assert(path[i] == base[i]);
            assert(component_start(base, i) == component_start(base, i + 1));
            assert(component_start(path, i) == component_start(path, i + 1));
        }
        lemma_same_end(base, rest, s);
        lemma_component_bounds(base, s);
        let e = component_end(base, s);
        lemma_end_is_boundary(base, s);
        assert(path.subrange(s, e) =~= base.subrange(s, e));
        lemma_match_joined(base, rest, e);
    } else {
        assert(component_start(base, n) == n);
    }
}

proof fn lemma_same_end(base: Seq<char>, rest: Seq<char>, i: int)
    requires
        0 <= i <= base.len(),
    ensures
        component_end(base + seq!['/'] + rest, i) == component_end(base, i),
    decreases base.len() - i,
{
    let path = base + seq!['/'] + rest;
    if i < base.len() {
        assert(path[i] == base[i]);
        lemma_same_end(base, rest, i + 1);
    } else {
        assert(path[i] == '/');
    }
}

proof fn lemma_end_is_boundary(path: Seq<char>, i: int)
    requires
        0 <= i <= path.len(),
    ensures
        component_end(path, i) == path.len() || path[component_end(path, i)] == '/',
    decreases path.len() - i,
{
    if i < path.len() {
        lemma_end_is_boundary(path, i + 1);
    }
}

} // verus!
