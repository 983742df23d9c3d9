//! What holds of relative paths: a path has one where it begins with the components of the directory,
//! and joining the relative path to the directory gives the path back.

use vstd::prelude::*;

use crate::paths::{
    after_components, component_end, component_start, front_len, is_dot, is_rooted, last_end, relative,
};
use crate::paths;

verus! {

/// The components of a path that begin at or after `i`, the beginning or the end of a component.
pub open spec fn parts(path: Seq<char>, i: int) -> Seq<Seq<char>>
    decreases path.len() - i,
{
    let start = component_start(path, i);
    if i < 0 || start >= path.len() {
        seq![]
    } else {
        proof {
            if i <= path.len() {
                paths::lemma_component_bounds(path, i);
                paths::lemma_component_bounds(path, start);
            }
        }
        seq![path.subrange(start, component_end(path, start))] + parts(path, component_end(path, start))
    }
}

/// What comes before the components proper: the root, or a `.` at the beginning.
pub open spec fn front(path: Seq<char>) -> Seq<Seq<char>> {
    if is_rooted(path) {
        seq![seq!['/']]
    } else if is_dot(path, 0) {
        seq![seq!['.']]
    } else {
        seq![]
    }
}

/// The components of a path. Paths with the same components are the same path.
pub open spec fn components(path: Seq<char>) -> Seq<Seq<char>> {
    front(path) + parts(path, front_len(path))
}

/// Whether a path begins with the components of another.
pub open spec fn begins_with(path: Seq<char>, base: Seq<char>) -> bool {
    components(base).is_prefix_of(components(path))
}

/// A path appended to a directory. A path that begins at the root takes its place.
pub open spec fn joined(base: Seq<char>, rest: Seq<char>) -> Seq<char> {
    if is_rooted(rest) {
        rest
    } else if base.len() > 0 && base.last() != '/' {
        base + seq!['/'] + rest
    } else {
        base + rest
    }
}

/// A path has a relative path exactly where it begins with the components of the directory.
pub proof fn lemma_relative_means_prefix(path: Seq<char>, base: Seq<char>)
    ensures
        relative(path, base) is Some <==> begins_with(path, base),
{
    if base.len() == 0 {
        assert(components(base) =~= seq![]);
    } else {
        let fp = front_len(path);
        let fb = front_len(base);
        lemma_after_components(path, fp, base, fb);
        lemma_parts_proper(path, fp);
        lemma_parts_proper(base, fb);
        let all = components(path);
        let head = components(base);
        if is_rooted(path) == is_rooted(base) && is_dot(path, 0) == is_dot(base, 0) {
            assert(front(path) == front(base));
            let f = front(path);
            if parts(base, fb).is_prefix_of(parts(path, fp)) {
                assert(all.take(head.len() as int) =~= head);
            }
            if head.is_prefix_of(all) {
                assert(parts(path, fp).take(parts(base, fb).len() as int) =~= parts(base, fb)) by {
                    assert forall|k: int| 0 <= k < parts(base, fb).len() implies parts(path, fp)[k] == parts(
                        base,
                        fb,
                    )[k] by {
                        assert(head[f.len() + k] == all[f.len() + k]);
                    }
                }
            }
        } else {
            assert(head.len() > 0) by {
                if front(base).len() == 0 {
                    assert(component_start(base, 0) == 0);
                    assert(parts(base, 0).len() > 0);
                    assert(head =~= parts(base, 0));
                } else {
                    assert(head[0] == front(base)[0]);
                }
            }
            if head.is_prefix_of(all) {
                assert(head[0] == all[0]);
                if front(base).len() > 0 {
                    assert(head[0] == front(base)[0]);
                    if front(path).len() > 0 {
                        assert(all[0] == front(path)[0]);
                        assert(front(base)[0][0] != front(path)[0][0]);
                    } else {
                        assert(all[0] == parts(path, fp)[0]);
                    }
                } else {
                    assert(head[0] == parts(base, fb)[0]);
                    assert(all[0] == front(path)[0]);
                }
                assert(false);
            }
        }
    }
}

/// Joining the relative path of a path to the directory gives the path back.
pub proof fn lemma_relative_joins_back(path: Seq<char>, base: Seq<char>)
    requires
        relative(path, base) is Some,
    ensures
        components(joined(base, relative(path, base)->0)) == components(path),
{
    let rest = relative(path, base)->0;
    if base.len() == 0 {
        let f = front_len(path);
        let e = last_end(path, f, path.len() as int);
        lemma_last_end_cuts(path, f, path.len() as int);
        assert(joined(base, rest) =~= rest);
        assert(rest =~= path.take(e));
        assert(is_rooted(rest) == is_rooted(path));
        assert(is_dot(rest, 0) == is_dot(path, 0));
        lemma_parts_shift(path, f, f);
        lemma_parts_shift(rest, f, f);
        assert(rest.subrange(f, rest.len() as int) =~= path.subrange(f, e));
        lemma_parts_of_cut(path, f, path.len() as int);
    } else {
        let fp = front_len(path);
        let fb = front_len(base);
        lemma_after_components(path, fp, base, fb);
        let i = after_components(path, fp, base, fb)->0;
        let start = component_start(path, i);
        let e = last_end(path, start, path.len() as int);
        paths::lemma_component_bounds(path, i);
        lemma_start_is_start(path, i);
        lemma_last_end_cuts(path, start, path.len() as int);
        assert(rest == path.subrange(start, e));
        lemma_parts_from_start(path, i);
        lemma_parts_shift(path, start, start);
        lemma_parts_of_cut(path, start, path.len() as int);
        assert(parts(rest, 0) == parts(path, i));
        assert(!is_rooted(rest)) by {
            if rest.len() > 0 {
                assert(rest[0] == path[start]);
            }
        }
        let dir = if base.last() != '/' {
            base + seq!['/']
        } else {
            base
        };
        if base.last() != '/' {
            lemma_parts_with_separator(base, fb);
        }
        assert(dir.last() == '/');
        lemma_parts_add(dir, rest, fb);
        let whole = joined(base, rest);
        assert(whole =~= dir + rest);
        assert(whole[0] == base[0]);
        assert(is_dot(whole, 0) == is_dot(base, 0)) by {
            if base.len() > 1 {
                assert(whole[1] == base[1]);
            } else if base[0] != '/' {
                assert(whole[1] == '/');
            }
        }
        assert(components(whole) =~= components(path));
    }
}

// ---------------------------------------------------------------------------
// Components
// ---------------------------------------------------------------------------

proof fn lemma_start_is_start(path: Seq<char>, i: int)
    requires
        0 <= i <= path.len(),
    ensures
        i <= component_start(path, i) <= path.len(),
        component_start(path, component_start(path, i)) == component_start(path, i),
        component_start(path, i) < path.len() ==> path[component_start(path, i)] != '/' && !is_dot(
            path,
            component_start(path, i),
        ),
    decreases path.len() - i,
{
    if i < path.len() && (path[i] == '/' || is_dot(path, i)) {
        lemma_start_is_start(path, i + 1);
    }
}

proof fn lemma_parts_from_start(path: Seq<char>, i: int)
    requires
        0 <= i <= path.len(),
    ensures
        parts(path, i) == parts(path, component_start(path, i)),
{
    lemma_start_is_start(path, i);
}

/// No component is the root or a `.`.
proof fn lemma_parts_proper(path: Seq<char>, i: int)
    requires
        0 <= i <= path.len(),
    ensures
        forall|k: int|
            0 <= k < parts(path, i).len() ==> #[trigger] parts(path, i)[k] != seq!['/'] && parts(path, i)[k]
                != seq!['.'],
    decreases path.len() - i,
{
    let start = component_start(path, i);
    lemma_start_is_start(path, i);
    paths::lemma_component_bounds(path, i);
    if start < path.len() {
        let end = component_end(path, start);
        paths::lemma_component_bounds(path, start);
        lemma_parts_proper(path, end);
        let first = path.subrange(start, end);
        assert(first[0] == path[start]);
        assert(first != seq!['/']) by {
            assert(seq!['/'][0] == '/');
        }
        assert(first != seq!['.']) by {
            if first == seq!['.'] {
                assert(first.len() == 1);
                assert(end == start + 1);
                lemma_end_at_separator(path, start);
            }
        }
        let all = parts(path, i);
        assert forall|k: int| 0 <= k < all.len() implies #[trigger] all[k] != seq!['/'] && all[k] != seq![
            '.',
        ] by {
            if k == 0 {
                assert(all[0] == first);
            } else {
                assert(all[k] == parts(path, end)[k - 1]);
            }
        }
    }
}

proof fn lemma_end_at_separator(path: Seq<char>, i: int)
    requires
        0 <= i <= path.len(),
    ensures
        i <= component_end(path, i) <= path.len(),
        component_end(path, i) < path.len() ==> path[component_end(path, i)] == '/',
    decreases path.len() - i,
{
    if i < path.len() && path[i] != '/' {
        lemma_end_at_separator(path, i + 1);
    }
}

/// The components of the directory are found at the beginning of those of the path, or are not there.
proof fn lemma_after_components(path: Seq<char>, i: int, base: Seq<char>, j: int)
    requires
        0 <= i <= path.len(),
        0 <= j <= base.len(),
    ensures
        after_components(path, i, base, j) is Some <==> parts(base, j).is_prefix_of(parts(path, i)),
        after_components(path, i, base, j) matches Some(k) ==> 0 <= k <= path.len() && parts(path, i)
            == parts(base, j) + parts(path, k),
    decreases base.len() - j,
{
    let b = component_start(base, j);
    let p = component_start(path, i);
    lemma_start_is_start(base, j);
    lemma_start_is_start(path, i);
    paths::lemma_component_bounds(base, j);
    paths::lemma_component_bounds(path, i);
    if b >= base.len() {
        assert(parts(base, j) =~= seq![]);
        assert(parts(path, i).take(0) =~= seq![]);
        assert(seq![] + parts(path, i) =~= parts(path, i));
    } else {
        let be = component_end(base, b);
        paths::lemma_component_bounds(base, b);
        let first = base.subrange(b, be);
        assert(parts(base, j)[0] == first);
        if p >= path.len() {
            assert(parts(path, i) =~= seq![]);
        } else {
            let pe = component_end(path, p);
            paths::lemma_component_bounds(path, p);
            let mine = path.subrange(p, pe);
            assert(parts(path, i)[0] == mine);
            lemma_after_components(path, pe, base, be);
            let more = parts(base, be);
            let rest = parts(path, pe);
            if mine == first {
                assert(parts(base, j).is_prefix_of(parts(path, i)) <==> more.is_prefix_of(rest)) by {
                    let whole = parts(path, i);
                    let head = parts(base, j);
                    if more.is_prefix_of(rest) {
                        assert(whole.take(head.len() as int) =~= head) by {
                            assert(rest.take(more.len() as int) == more);
                            assert forall|k: int| 0 <= k < head.len() implies whole[k] == head[k] by {
                                if k > 0 {
                                    assert(whole[k] == rest[k - 1]);
                                    assert(head[k] == more[k - 1]);
                                    assert(rest.take(more.len() as int)[k - 1] == rest[k - 1]);
                                }
                            }
                        }
                    }
                    if head.is_prefix_of(whole) {
                        assert(rest.take(more.len() as int) =~= more) by {
                            assert forall|k: int| 0 <= k < more.len() implies rest[k] == more[k] by {
                                assert(whole[k + 1] == rest[k]);
                                assert(head[k + 1] == more[k]);
                                assert(head[k + 1] == whole[k + 1]);
                            }
                        }
                    }
                }
                match after_components(path, pe, base, be) {
                    Some(k) => {
                        assert(parts(path, i) =~= parts(base, j) + parts(path, k));
                    },
                    None => {},
                }
            } else if parts(base, j).is_prefix_of(parts(path, i)) {
                assert(parts(base, j)[0] == parts(path, i)[0]);
            }
        }
    }
}

/// The components from a place on are those of the rest of the path.
proof fn lemma_parts_shift(path: Seq<char>, from: int, i: int)
    requires
        0 <= from <= i <= path.len(),
    ensures
        parts(path, i) == parts(path.subrange(from, path.len() as int), i - from),
    decreases path.len() - i,
{
    let rest = path.subrange(from, path.len() as int);
    lemma_start_shift(path, from, i);
    let start = component_start(path, i);
    lemma_start_is_start(path, i);
    if start < path.len() {
        lemma_end_shift(path, from, start);
        let end = component_end(path, start);
        paths::lemma_component_bounds(path, i);
        paths::lemma_component_bounds(path, start);
        lemma_parts_shift(path, from, end);
        assert(rest.subrange(start - from, end - from) =~= path.subrange(start, end));
    }
}

proof fn lemma_start_shift(path: Seq<char>, from: int, i: int)
    requires
        0 <= from <= i <= path.len(),
    ensures
        component_start(path.subrange(from, path.len() as int), i - from) == component_start(path, i) - from,
    decreases path.len() - i,
{
    let rest = path.subrange(from, path.len() as int);
    if i < path.len() {
        assert(rest[i - from] == path[i]);
        if i + 1 < path.len() {
            assert(rest[i + 1 - from] == path[i + 1]);
        }
        lemma_start_shift(path, from, i + 1);
    }
}

proof fn lemma_end_shift(path: Seq<char>, from: int, i: int)
    requires
        0 <= from <= i <= path.len(),
    ensures
        component_end(path.subrange(from, path.len() as int), i - from) == component_end(path, i) - from,
    decreases path.len() - i,
{
    let rest = path.subrange(from, path.len() as int);
    if i < path.len() {
        assert(rest[i - from] == path[i]);
        lemma_end_shift(path, from, i + 1);
    }
}

/// A separator at the end adds no component.
proof fn lemma_parts_with_separator(path: Seq<char>, i: int)
    requires
        0 <= i <= path.len(),
    ensures
        parts(path + seq!['/'], i) == parts(path, i),
    decreases path.len() - i,
{
    let longer = path + seq!['/'];
    lemma_start_with_separator(path, i);
    lemma_start_is_start(path, i);
    let start = component_start(path, i);
    if start < path.len() {
        paths::lemma_component_bounds(path, i);
        paths::lemma_component_bounds(path, start);
        lemma_end_with_separator(path, start);
        let end = component_end(path, start);
        lemma_parts_with_separator(path, end);
        assert(longer.subrange(start, end) =~= path.subrange(start, end));
    }
}

proof fn lemma_start_with_separator(path: Seq<char>, i: int)
    requires
        0 <= i <= path.len(),
    ensures
        component_start(path + seq!['/'], i) == (if component_start(path, i) < path.len() {
            component_start(path, i)
        } else {
            path.len() as int + 1
        }),
    decreases path.len() - i,
{
    let longer = path + seq!['/'];
    let n = path.len() as int;
    assert(longer[n] == '/');
    if i < n {
        assert(longer[i] == path[i]);
        if i + 1 < n {
            assert(longer[i + 1] == path[i + 1]);
        }
        lemma_start_with_separator(path, i + 1);
    } else {
        assert(component_start(longer, n + 1) == n + 1);
    }
}

proof fn lemma_end_with_separator(path: Seq<char>, i: int)
    requires
        0 <= i <= path.len(),
    ensures
        component_end(path + seq!['/'], i) == component_end(path, i),
    decreases path.len() - i,
{
    let longer = path + seq!['/'];
    if i < path.len() {
        assert(longer[i] == path[i]);
        lemma_end_with_separator(path, i + 1);
    } else {
        assert(longer[i] == '/');
    }
}

/// After a separator come the components of what is appended.
proof fn lemma_parts_add(dir: Seq<char>, rest: Seq<char>, i: int)
    requires
        0 <= i <= dir.len(),
        dir.len() > 0,
        dir.last() == '/',
    ensures
        parts(dir + rest, i) == parts(dir, i) + parts(rest, 0),
    decreases dir.len() - i,
{
    let whole = dir + rest;
    let n = dir.len() as int;
    lemma_start_add(dir, rest, i);
    lemma_start_is_start(dir, i);
    let start = component_start(dir, i);
    if start < n {
        paths::lemma_component_bounds(dir, i);
        paths::lemma_component_bounds(dir, start);
        lemma_end_add(dir, rest, start);
        let end = component_end(dir, start);
        lemma_parts_add(dir, rest, end);
        assert(whole.subrange(start, end) =~= dir.subrange(start, end));
        assert(parts(whole, i) =~= parts(dir, i) + parts(rest, 0));
    } else {
        assert(parts(dir, i) =~= seq![]);
        lemma_start_is_start(rest, 0);
        lemma_start_is_start(whole, i);
        lemma_parts_from_start(whole, i);
        lemma_parts_from_start(rest, 0);
        lemma_parts_shift(whole, n, n + component_start(rest, 0));
        assert(whole.subrange(n, whole.len() as int) =~= rest);
        assert(parts(whole, i) =~= parts(dir, i) + parts(rest, 0));
    }
}

proof fn lemma_start_add(dir: Seq<char>, rest: Seq<char>, i: int)
    requires
        0 <= i <= dir.len(),
        dir.len() > 0,
        dir.last() == '/',
    ensures
        component_start(dir + rest, i) == (if component_start(dir, i) < dir.len() {
            component_start(dir, i)
        } else {
            dir.len() + component_start(rest, 0)
        }),
    decreases dir.len() - i,
{
    let whole = dir + rest;
    let n = dir.len() as int;
    if i < n {
        assert(whole[i] == dir[i]);
        if i + 1 < n {
            assert(whole[i + 1] == dir[i + 1]);
        }
        lemma_start_add(dir, rest, i + 1);
    } else {
        lemma_start_shift(whole, n, n);
        assert(whole.subrange(n, whole.len() as int) =~= rest);
    }
}

proof fn lemma_end_add(dir: Seq<char>, rest: Seq<char>, i: int)
    requires
        0 <= i < dir.len(),
        dir.last() == '/',
    ensures
        component_end(dir + rest, i) == component_end(dir, i),
    decreases dir.len() - i,
{
    let whole = dir + rest;
    assert(whole[i] == dir[i]);
    if dir[i] != '/' {
        lemma_end_add(dir, rest, i + 1);
    }
}

// ---------------------------------------------------------------------------
// The end of a path
// ---------------------------------------------------------------------------

proof fn lemma_last_end_cuts(path: Seq<char>, start: int, end: int)
    requires
        0 <= start <= end <= path.len(),
    ensures
        start <= last_end(path, start, end) <= end,
        ({
            let e = last_end(path, start, end);
            e < end ==> path[e] == '/' || (path[e] == '.' && (e == start || path[e - 1] == '/'))
        }),
    decreases end,
{
    if end > start {
        if path[end - 1] == '/' || (path[end - 1] == '.' && (end - 1 == start || path[end - 2] == '/')) {
            lemma_last_end_cuts(path, start, end - 1);
        }
    }
}

/// What is cut off at the end holds no component.
proof fn lemma_parts_of_cut(path: Seq<char>, start: int, end: int)
    requires
        0 <= start <= end <= path.len(),
    ensures
        parts(path.subrange(start, end), 0) == parts(path.subrange(start, last_end(path, start, end)), 0),
    decreases end,
{
    if end > start {
        let shorter = path.subrange(start, end - 1);
        if path[end - 1] == '/' {
            assert(path.subrange(start, end) =~= shorter + seq!['/']);
            lemma_parts_with_separator(shorter, 0);
            lemma_parts_of_cut(path, start, end - 1);
        } else if path[end - 1] == '.' && (end - 1 == start || path[end - 2] == '/') {
            let dot = seq!['.'];
            assert(path.subrange(start, end) =~= shorter + dot);
            assert(component_start(dot, 1) == 1);
            assert(parts(dot, 0) =~= seq![]);
            if end - 1 == start {
                assert(shorter + dot =~= dot);
                assert(parts(shorter, 0) =~= seq![]);
            } else {
                assert(shorter.last() == '/');
                lemma_parts_add(shorter, dot, 0);
                assert(parts(shorter, 0) + seq![] =~= parts(shorter, 0));
            }
            lemma_parts_of_cut(path, start, end - 1);
        }
    }
}

/// The relative path of a path goes by the system whose path it is.
pub proof fn lemma_relative_call(system: crate::command::System, path: &str, watched: &str, r: Option<String>)
    requires
        call_ensures(paths::to_relative_path, (system, path, watched), r),
    ensures
        crate::json::opt_text(r) == paths::relative_on(system, path@, watched@),
        system == crate::command::System::Unix ==> paths::relative_on(system, path@, watched@) == relative(path@, watched@),
        system == crate::command::System::Windows ==> paths::relative_on(system, path@, watched@) == paths::windows::relative(
            path@,
            watched@,
        ),
{
}

} // verus!
