//! What holds of the path syntax: how joining, parents and file names relate
//! to the components of a path.

use crate::path::{
    components, components_behind_separator, components_by_last_segment, file_name, has_traversal,
    is_absolute, is_name, joined, last_component, last_start, last_start_bounds, named, parent,
    parent_dir, root_dir, stem, within, DOT, SEPARATOR,
};
use vstd::prelude::*;

verus! {

/// Whether `bytes` holds no separator.
pub open spec fn is_segment(bytes: Seq<u8>) -> bool {
    forall|i: int| 0 <= i < bytes.len() ==> bytes[i] != SEPARATOR
}

/// Whether `name` can be the name of a file: a segment other than the empty
/// one, `.` and `..`.
pub open spec fn is_file_name(name: Seq<u8>) -> bool {
    is_segment(name) && is_name(name) && name != parent_dir()
}

/// A path lies within itself.
pub proof fn within_is_reflexive(path: Seq<u8>)
    ensures
        within(path, path),
{
    assert(components(path).subrange(0, components(path).len() as int) =~= components(path));
}

/// What lies within a path lies within whatever that path lies within.
pub proof fn within_is_transitive(inner: Seq<u8>, middle: Seq<u8>, outer: Seq<u8>)
    requires
        within(inner, middle),
        within(middle, outer),
    ensures
        within(inner, outer),
{
    let a = components(outer);
    let b = components(middle);
    let c = components(inner);
    assert forall|k: int| 0 <= k < a.len() implies a[k] == c[k] by {
        assert(a[k] == b.subrange(0, a.len() as int)[k]);
        assert(b[k] == c.subrange(0, b.len() as int)[k]);
    }
    assert(a =~= c.subrange(0, a.len() as int));
}

/// The last segment of `front + back` begins in `back` if `back` holds a
/// separator, else where the last segment of `front` begins.
pub proof fn last_start_of_concat(front: Seq<u8>, back: Seq<u8>)
    ensures
        last_start(front + back) == if last_start(back) > 0 {
            front.len() + last_start(back)
        } else {
            last_start(front)
        },
    decreases back.len(),
{
    let whole = front + back;
    if back.len() == 0 {
        assert(whole == front);
    } else {
        assert(whole.last() == back.last());
        assert(whole.drop_last() == front + back.drop_last());
        if back.last() != SEPARATOR {
            last_start_of_concat(front, back.drop_last());
        }
    }
}

/// The last segment of a segment is the segment.
pub proof fn last_start_of_segment(bytes: Seq<u8>)
    requires
        is_segment(bytes),
    ensures
        last_start(bytes) == 0,
{
    last_start_bounds(bytes);
}

/// Appending to a path that ends in a separator keeps its components and adds
/// to them.
pub proof fn components_grow(front: Seq<u8>, back: Seq<u8>)
    requires
        front.len() > 0,
        front.last() == SEPARATOR,
    ensures
        components(front).is_prefix_of(components(front + back)),
    decreases back.len(),
{
    let whole = front + back;
    let s = last_start(whole);
    let k = last_start(back);
    last_start_of_concat(front, back);
    last_start_bounds(back);
    components_by_last_segment(whole);
    let head = whole.take(s);
    if k <= 0 {
        assert(head == front);
    } else {
        assert(head == front + back.take(k));
        assert(head.last() == SEPARATOR);
        components_behind_separator(head);
        assert(head.drop_last() == front + back.take(k - 1));
        components_grow(front, back.take(k - 1));
    }
    assert(components(front).is_prefix_of(components(head)));
    assert(components(head).is_prefix_of(components(head) + last_component(whole)));
}

/// A relative path joined to a base lies within the base.
pub proof fn joined_lies_within_base(base: Seq<u8>, path: Seq<u8>)
    requires
        !is_absolute(path),
    ensures
        within(joined(base, path), base),
{
    if base.len() == 0 {
        assert(components(base) =~= Seq::empty());
    } else if base.last() == SEPARATOR {
        components_grow(base, path);
    } else {
        let front = base.push(SEPARATOR);
        assert(front.drop_last() == base);
        components_behind_separator(front);
        components_grow(front, path);
    }
}

/// A file name joined to a directory adds one component: the name.
pub proof fn components_of_joined_name(dir: Seq<u8>, name: Seq<u8>)
    requires
        is_segment(name),
        is_name(name),
    ensures
        components(joined(dir, name)) == components(dir).push(name),
{
    let whole = joined(dir, name);
    last_start_of_segment(name);
    if dir.len() == 0 {
        assert(whole == name);
        assert(components(dir) =~= Seq::empty());
        assert(components(whole) =~= components(dir).push(name));
    } else {
        let front = if dir.last() == SEPARATOR {
            dir
        } else {
            dir.push(SEPARATOR)
        };
        if dir.last() != SEPARATOR {
            assert(front.drop_last() == dir);
            components_behind_separator(front);
        }
        assert(whole == front + name);
        last_start_of_concat(front, name);
        components_by_last_segment(whole);
        assert(whole.take(front.len() as int) == front);
        assert(whole.skip(front.len() as int) == name);
        assert(components(whole) =~= components(dir).push(name));
    }
}

/// A path that lies within a base keeps lying within it when a file name is
/// joined to it.
pub proof fn joined_name_stays_within(dir: Seq<u8>, name: Seq<u8>, base: Seq<u8>)
    requires
        is_segment(name),
        is_name(name),
        within(dir, base),
    ensures
        within(joined(dir, name), base),
{
    components_of_joined_name(dir, name);
}

/// The stem of a path is the path or a shorter beginning of it, and ends
/// in a separator only where it is the root.
pub proof fn stem_shape(path: Seq<u8>)
    ensures
        stem(path).len() <= path.len(),
        stem(path) == path.take(stem(path).len() as int),
        stem(path).len() > 1 ==> stem(path).last() != SEPARATOR,
    decreases path.len(),
{
    let s = last_start(path);
    last_start_bounds(path);
    if s <= 0 || is_name(path.skip(s)) {
        assert(path.take(path.len() as int) == path);
        if path.len() > 1 && path.last() == SEPARATOR {
            assert(path.skip(s).len() == 0);
        }
    } else if s == 1 {
    } else {
        let front = path.take(s - 1);
        stem_shape(front);
        assert(front.take(stem(front).len() as int) == path.take(stem(front).len() as int));
    }
}

/// The name that a path ends in is a file name.
pub proof fn file_name_is_plain(path: Seq<u8>)
    ensures
        file_name(path) matches Some(name) ==> is_file_name(name),
{
    let t = stem(path);
    last_start_bounds(t);
}

/// Joining a directory and a file name, and taking the result apart again,
/// gives back the two: the parent is the directory and the file name is the
/// name, provided that nothing follows the last component of the directory.
pub proof fn parent_and_name_of_joined(dir: Seq<u8>, name: Seq<u8>)
    requires
        stem(dir) == dir,
        is_file_name(name),
    ensures
        parent(joined(dir, name)) == Some(dir),
        file_name(joined(dir, name)) == Some(name),
{
    let whole = joined(dir, name);
    last_start_of_segment(name);
    stem_shape(dir);
    if dir.len() == 0 {
        assert(whole == name);
        assert(whole.skip(0) == whole);
        assert(dir =~= Seq::empty());
    } else {
        let front = if dir.last() == SEPARATOR {
            dir
        } else {
            dir.push(SEPARATOR)
        };
        assert(whole == front + name);
        last_start_of_concat(front, name);
        let s = front.len() as int;
        assert(last_start(whole) == s);
        assert(whole.skip(s) == name);
        assert(stem(whole) == whole);
        if dir.last() == SEPARATOR {
            assert(dir.len() == 1);
            assert(whole.take(1) == dir);
        } else {
            assert(whole.take(s - 1) == dir);
        }
    }
}

/// Two different names in one directory are apart: nothing below the one
/// lies within the other, however alike the two are spelled.
pub proof fn sibling_is_outside(dir: Seq<u8>, name: Seq<u8>, other: Seq<u8>, rest: Seq<u8>)
    requires
        is_segment(name),
        is_name(name),
        is_segment(other),
        is_name(other),
        name != other,
        !is_absolute(rest),
    ensures
        !within(joined(joined(dir, other), rest), joined(dir, name)),
{
    let base = joined(dir, name);
    let sibling = joined(dir, other);
    let path = joined(sibling, rest);
    components_of_joined_name(dir, name);
    components_of_joined_name(dir, other);
    joined_lies_within_base(sibling, rest);
    let k = components(dir).len() as int;
    assert(components(sibling)[k] == other);
    assert(components(path).subrange(0, components(sibling).len() as int)[k] == components(
        path,
    )[k]);
    assert(components(base)[k] == name);
    if within(path, base) {
        assert(components(path).subrange(0, components(base).len() as int)[k] == components(
            path,
        )[k]);
    }
}

/// The stem of a path has the components of the path.
pub proof fn stem_keeps_components(path: Seq<u8>)
    ensures
        components(stem(path)) == components(path),
    decreases path.len(),
{
    let s = last_start(path);
    last_start_bounds(path);
    if s <= 0 || is_name(path.skip(s)) {
    } else if s == 1 {
        let root = path.take(1);
        assert(root.last() == SEPARATOR);
        components_behind_separator(root);
        assert(components(path) =~= seq![root_dir()]);
    } else {
        stem_keeps_components(path.take(s - 1));
        assert(components(path) =~= components(path.take(s - 1)));
    }
}

/// The parent of a path is a beginning of the path that has all its
/// components but the last. Only a path without a component, or with the
/// root as its only one, has no parent.
pub proof fn parent_drops_last_component(path: Seq<u8>)
    ensures
        match parent(path) {
            Some(dir) => {
                &&& components(path).len() > 0
                &&& components(dir) == components(path).drop_last()
                &&& dir.len() <= path.len()
                &&& dir == path.take(dir.len() as int)
            },
            None => components(path).len() == 0 || components(path) == seq![root_dir()],
        },
{
    let t = stem(path);
    let s = last_start(t);
    stem_keeps_components(path);
    stem_shape(path);
    last_start_bounds(t);
    if s >= t.len() {
        if t.len() > 0 {
            assert(t.len() == 1);
            components_behind_separator(t);
        }
    } else if s <= 0 {
        assert(components(t).drop_last() =~= Seq::empty());
        assert(path.take(0) =~= Seq::empty());
    } else if s == 1 {
        let root = t.take(1);
        assert(root.last() == SEPARATOR);
        components_behind_separator(root);
        assert(is_name(t.skip(1))) by {
            assert(stem(t) == t) by {
                stem_is_fixed(path);
            }
        }
        assert(components(t).drop_last() =~= seq![root_dir()]);
        assert(root == path.take(1));
    } else {
        let front = t.take(s - 1);
        stem_keeps_components(front);
        stem_shape(front);
        assert(is_name(t.skip(s))) by {
            assert(stem(t) == t) by {
                stem_is_fixed(path);
            }
        }
        assert(components(t).drop_last() =~= components(front));
        let dir = stem(front);
        assert(dir == path.take(dir.len() as int)) by {
            assert(front == path.take(s - 1));
            assert(front.take(dir.len() as int) == path.take(dir.len() as int));
        }
    }
}

/// The stem of a stem is the stem: either it has no separator, or it ends in
/// a segment that names something, or it is the root.
pub proof fn stem_is_fixed(path: Seq<u8>)
    ensures
        stem(stem(path)) == stem(path),
    decreases path.len(),
{
    let s = last_start(path);
    last_start_bounds(path);
    if s <= 0 || is_name(path.skip(s)) {
    } else if s == 1 {
        let root = path.take(1);
        assert(last_start(root) == 1);
        assert(root.take(1) == root);
        assert(root.skip(1).len() == 0);
    } else {
        stem_is_fixed(path.take(s - 1));
    }
}

/// The name that a path ends in is its last component. A path ends in no name
/// only where it has no component or its last component is the root, `.` or
/// `..`.
pub proof fn file_name_is_last_component(path: Seq<u8>)
    ensures
        match file_name(path) {
            Some(name) => components(path).len() > 0 && components(path).last() == name,
            None => {
                ||| components(path).len() == 0
                ||| components(path).last() == root_dir()
                ||| components(path).last() == seq![DOT]
                ||| components(path).last() == parent_dir()
            },
        },
{
    let t = stem(path);
    let s = last_start(t);
    stem_keeps_components(path);
    stem_is_fixed(path);
    stem_shape(path);
    last_start_bounds(t);
    if t.len() == 0 {
    } else if s <= 0 {
        assert(t.skip(0) == t);
    } else if s == 1 {
        if t.len() == 1 {
            components_behind_separator(t);
        }
    } else {
        stem_shape(t.take(s - 1));
    }
}

/// Whether the bytes of `path` from `start` up to `end` are one of its
/// segments: they hold no separator and reach, on either side, to a separator
/// or to the end of the path.
pub open spec fn is_segment_at(path: Seq<u8>, start: int, end: int) -> bool {
    &&& 0 <= start <= end <= path.len()
    &&& (start == 0 || path[start - 1] == SEPARATOR)
    &&& (end == path.len() || path[end] == SEPARATOR)
    &&& is_segment(path.subrange(start, end))
}

/// Whether some segment of `path` is spelled `text`.
pub open spec fn has_segment(path: Seq<u8>, text: Seq<u8>) -> bool {
    exists|start: int|
        #[trigger] is_segment_at(path, start, start + text.len()) && path.subrange(
            start,
            start + text.len(),
        ) == text
}

/// A name is a component of a path exactly where it is one of its segments.
pub proof fn name_is_component_where_segment(path: Seq<u8>, text: Seq<u8>)
    requires
        is_segment(text),
        is_name(text),
    ensures
        components(path).contains(text) <==> has_segment(path, text),
    decreases path.len(),
{
    let s = last_start(path);
    let n = text.len() as int;
    let len = path.len() as int;
    let last = path.skip(s);
    last_start_bounds(path);
    assert(text[0] != SEPARATOR);
    assert(text != root_dir()) by {
        assert(root_dir()[0] == SEPARATOR);
    }
    assert(is_segment(last));
    assert(last == path.subrange(s, len));
    if len == 0 {
        if has_segment(path, text) {
            let a = choose|a: int| #[trigger]
                is_segment_at(path, a, a + n) && path.subrange(a, a + n) == text;
            assert(false);
        }
    } else if s >= 2 {
        let front = path.take(s - 1);
        name_is_component_where_segment(front, text);
        let before = components(front);
        assert(components(path) == before + named(last));
        if components(path).contains(text) {
            let i = choose|i: int| 0 <= i < components(path).len() && components(path)[i] == text;
            if i < before.len() {
                assert(before[i] == text);
                assert(before.contains(text));
                let a = choose|a: int| #[trigger]
                    is_segment_at(front, a, a + n) && front.subrange(a, a + n) == text;
                assert(path.subrange(a, a + n) == front.subrange(a, a + n));
                assert(is_segment_at(path, a, a + n));
            } else {
                assert(last == text);
                assert(s + n == len);
                assert(is_segment_at(path, s, s + n));
            }
        }
        if has_segment(path, text) {
            let a = choose|a: int| #[trigger]
                is_segment_at(path, a, a + n) && path.subrange(a, a + n) == text;
            if a >= s {
                assert(a == s);
                assert(a + n == len);
                assert((before + named(last))[before.len() as int] == text);
            } else {
                if a + n > s - 1 {
                    assert(path.subrange(a, a + n)[s - 1 - a] == SEPARATOR);
                }
                assert(path.subrange(a, a + n) == front.subrange(a, a + n));
                assert(is_segment_at(front, a, a + n));
                let i = choose|i: int| 0 <= i < before.len() && before[i] == text;
                assert((before + named(last))[i] == text);
            }
        }
    } else {
        // at most one separator, and only at the very start
        let head: Seq<Seq<u8>> = if s == 1 {
            seq![root_dir()]
        } else {
            Seq::empty()
        };
        let tail: Seq<Seq<u8>> = if s == 1 {
            named(last)
        } else {
            seq![path]
        };
        assert(components(path) == head + tail);
        assert(path.skip(0) == path);
        if components(path).contains(text) {
            let i = choose|i: int| 0 <= i < components(path).len() && components(path)[i] == text;
            assert(last == text);
            assert(s + n == len);
            assert(is_segment_at(path, s, s + n));
        }
        if has_segment(path, text) {
            let a = choose|a: int| #[trigger]
                is_segment_at(path, a, a + n) && path.subrange(a, a + n) == text;
            if a < s {
                assert(path.subrange(a, a + n)[0] == SEPARATOR);
            }
            assert(a == s);
            assert(a + n == len);
            assert(tail == seq![text]);
            assert((head + tail)[head.len() as int] == text);
        }
    }
}

/// A path has a parent-directory component exactly where one of its segments
/// is spelled `..`.
pub proof fn traversal_is_a_dot_dot_segment(path: Seq<u8>)
    ensures
        has_traversal(path) <==> has_segment(path, parent_dir()),
{
    let text = parent_dir();
    assert(is_segment(text)) by {
        assert(text[0] == DOT && text[1] == DOT);
    }
    assert(is_name(text)) by {
        assert(text.len() == 2);
        assert(seq![DOT].len() == 1);
    }
    name_is_component_where_segment(path, text);
}

} // verus!
