//! POSIX path syntax over byte strings.
//!
//! A path is a sequence of bytes. Its *segments* are the runs of bytes between
//! separators; its *components* are the root (a leading separator) followed by
//! the segments that name something. Empty segments and `.` segments name
//! nothing, except that a path may begin with `.`.
//!
//! A component is written as the bytes it is spelled with: the root as `/`,
//! the current directory as `.`, the parent directory as `..`, and any other
//! component as its name. No two kinds of component share a spelling.

use vstd::prelude::*;
use vstd::slice::{slice_subrange, slice_to_vec};

verus! {

/// The byte that separates the segments of a path.
pub const SEPARATOR: u8 = 0x2f;

/// The byte of which the segments `.` and `..` are made.
pub const DOT: u8 = 0x2e;

/// The spelling of the parent-directory component.
pub open spec fn parent_dir() -> Seq<u8> {
    seq![DOT, DOT]
}

/// The spelling of the root component.
pub open spec fn root_dir() -> Seq<u8> {
    seq![SEPARATOR]
}

/// Whether `path` begins at the root directory.
pub open spec fn is_absolute(path: Seq<u8>) -> bool {
    path.len() > 0 && path[0] == SEPARATOR
}

/// Where the last segment of `path` begins: just past the last separator, or
/// at 0 when there is none.
pub open spec fn last_start(path: Seq<u8>) -> int
    decreases path.len(),
{
    if path.len() == 0 {
        0
    } else if path.last() == SEPARATOR {
        path.len() as int
    } else {
        last_start(path.drop_last())
    }
}

/// Whether a segment names something: every segment does, but the empty one
/// and `.`.
pub open spec fn is_name(segment: Seq<u8>) -> bool {
    segment.len() > 0 && segment != seq![DOT]
}

/// The component that a segment past a separator stands for, if any.
pub open spec fn named(segment: Seq<u8>) -> Seq<Seq<u8>> {
    if is_name(segment) {
        seq![segment]
    } else {
        Seq::empty()
    }
}

/// The components of `path`, in order.
///
/// A path without a separator is a single component. Otherwise the components
/// are those of what stands before the last separator, then the last segment
/// if it names something. A separator at the very start is the root.
pub open spec fn components(path: Seq<u8>) -> Seq<Seq<u8>>
    decreases path.len(),
{
    let s = last_start(path);
    if path.len() == 0 {
        Seq::empty()
    } else if s == 0 {
        seq![path]
    } else if s == 1 {
        seq![root_dir()] + named(path.skip(1))
    } else {
        proof {
            last_start_bounds(path);
        }
        components(path.take(s - 1)) + named(path.skip(s))
    }
}

/// Whether `path` has a parent-directory component.
pub open spec fn has_traversal(path: Seq<u8>) -> bool {
    components(path).contains(parent_dir())
}

/// Whether `path` lies within `base`: the components of `base` are the first
/// components of `path`. A path lies within itself.
pub open spec fn within(path: Seq<u8>, base: Seq<u8>) -> bool {
    components(base).is_prefix_of(components(path))
}

/// `path` as seen from `base`: an absolute `path` stands for itself, any other
/// is appended to `base`, after a separator if `base` does not end in one.
pub open spec fn joined(base: Seq<u8>, path: Seq<u8>) -> Seq<u8> {
    if is_absolute(path) {
        path
    } else if base.len() > 0 && base.last() != SEPARATOR {
        base.push(SEPARATOR) + path
    } else {
        base + path
    }
}

/// `path` cut off behind its last component: trailing separators and trailing
/// `.` segments are dropped.
pub open spec fn stem(path: Seq<u8>) -> Seq<u8>
    decreases path.len(),
{
    let s = last_start(path);
    if s == 0 || is_name(path.skip(s)) {
        path
    } else if s == 1 {
        path.take(1)
    } else {
        proof {
            last_start_bounds(path);
        }
        stem(path.take(s - 1))
    }
}

/// The last segment of the stem of `path`: the spelling of its last component,
/// or nothing where the last component is the root or there is none.
pub open spec fn last_segment(path: Seq<u8>) -> Seq<u8> {
    let t = stem(path);
    t.skip(last_start(t))
}

/// The name that `path` ends in: its last component, unless that is the root,
/// `.` or `..`.
pub open spec fn file_name(path: Seq<u8>) -> Option<Seq<u8>> {
    let name = last_segment(path);
    if is_name(name) && name != parent_dir() {
        Some(name)
    } else {
        None
    }
}

/// `path` without its last component. There is none where `path` has no
/// component or ends in the root.
pub open spec fn parent(path: Seq<u8>) -> Option<Seq<u8>> {
    let t = stem(path);
    let s = last_start(t);
    if s == t.len() {
        None
    } else if s == 0 {
        Some(Seq::empty())
    } else if s == 1 {
        Some(t.take(1))
    } else {
        Some(stem(t.take(s - 1)))
    }
}

/// The last segment of a path begins inside the path, just past a separator
/// if anywhere past the start, and holds no separator.
pub proof fn last_start_bounds(path: Seq<u8>)
    ensures
        0 <= last_start(path) <= path.len(),
        last_start(path) > 0 ==> path[last_start(path) - 1] == SEPARATOR,
        forall|i: int| last_start(path) <= i < path.len() ==> path[i] != SEPARATOR,
    decreases path.len(),
{
    if path.len() > 0 && path.last() != SEPARATOR {
        let init = path.drop_last();
        last_start_bounds(init);
        assert forall|i: int| last_start(path) <= i < path.len() implies path[i] != SEPARATOR by {
            if i < init.len() {
                assert(path[i] == init[i]);
            }
        }
    }
}

/// A path that ends in a separator has the components of what stands before
/// that separator; the separator alone is the root.
pub proof fn components_behind_separator(path: Seq<u8>)
    requires
        path.len() > 0,
        path.last() == SEPARATOR,
    ensures
        path.len() == 1 ==> components(path) == seq![root_dir()],
        path.len() > 1 ==> components(path) == components(path.drop_last()),
{
    let n = path.len() as int;
    assert(last_start(path) == n);
    assert(path.skip(n) =~= Seq::empty());
    assert(named(path.skip(n)) =~= Seq::empty());
    if n == 1 {
        assert(components(path) =~= seq![root_dir()]);
    } else {
        assert(path.take(n - 1) == path.drop_last());
        assert(components(path) =~= components(path.drop_last()));
    }
}

/// What the last segment of `path` adds to the components of what stands
/// before it.
pub open spec fn last_component(path: Seq<u8>) -> Seq<Seq<u8>> {
    let s = last_start(path);
    if s <= 0 {
        if path.len() == 0 {
            Seq::empty()
        } else {
            seq![path]
        }
    } else {
        named(path.skip(s))
    }
}

/// The components of a path are those of the path up to its last separator,
/// then what its last segment adds.
pub proof fn components_by_last_segment(path: Seq<u8>)
    ensures
        components(path) == components(path.take(last_start(path))) + last_component(path),
{
    let s = last_start(path);
    last_start_bounds(path);
    let head = path.take(s);
    if s == 0 {
        assert(components(head) =~= Seq::empty());
        assert(components(path) =~= components(head) + last_component(path));
    } else {
        assert(head.last() == SEPARATOR);
        components_behind_separator(head);
        if s > 1 {
            assert(head.drop_last() == path.take(s - 1));
        }
    }
}

/// Whether `path` begins at the root directory.
pub fn path_is_absolute(path: &[u8]) -> (r: bool)
    ensures
        r == is_absolute(path@),
{
    path.len() > 0 && path[0] == SEPARATOR
}

/// The byte range that one component takes up in its path.
struct Span {
    start: usize,
    end: usize,
}

/// The spellings that `spans` cut out of `path`.
spec fn texts(spans: Seq<Span>, path: Seq<u8>) -> Seq<Seq<u8>> {
    Seq::new(spans.len(), |k: int| path.subrange(spans[k].start as int, spans[k].end as int))
}

/// Whether every span lies in the first `limit` bytes.
spec fn spans_fit(spans: Seq<Span>, limit: int) -> bool {
    forall|k: int| 0 <= k < spans.len() ==> 0 <= (#[trigger] spans[k]).start <= spans[k].end <= limit
}

/// Whether the bytes of `path` from `start` up to `end` name something.
fn range_is_name(path: &[u8], start: usize, end: usize) -> (r: bool)
    requires
        start <= end <= path@.len(),
    ensures
        r == is_name(path@.subrange(start as int, end as int)),
{
    let ghost segment = path@.subrange(start as int, end as int);
    if end == start {
        false
    } else if end - start == 1 && path[start] == DOT {
        assert(segment =~= seq![DOT]);
        false
    } else {
        assert(segment != seq![DOT]) by {
            if segment.len() == 1 {
                assert(segment[0] == path@[start as int]);
                assert(seq![DOT][0] == DOT);
            } else {
                assert(seq![DOT].len() == 1);
            }
        }
        true
    }
}

/// Finds the components of `path`, from left to right.
fn scan(path: &[u8]) -> (spans: Vec<Span>)
    ensures
        spans_fit(spans@, path@.len() as int),
        texts(spans@, path@) == components(path@),
{
    let n = path.len();
    let mut spans: Vec<Span> = Vec::new();
    let mut start: usize = 0;
    let mut i: usize = 0;
    proof {
        assert(path@.take(0) =~= Seq::empty());
        assert(texts(spans@, path@) =~= components(path@.take(0)));
    }
    while i < n
        invariant
            0 <= start <= i <= n,
            n == path@.len(),
            start == last_start(path@.take(i as int)),
            spans_fit(spans@, start as int),
            texts(spans@, path@) == components(path@.take(start as int)),
        decreases n - i,
    {
        let ghost before = path@.take(i as int);
        let ghost after = path@.take(i + 1);
        proof {
            assert(after.drop_last() == before);
            assert(after.last() == path@[i as int]);
        }
        if path[i] == SEPARATOR {
            let ghost old_spans = spans@;
            proof {
                components_by_last_segment(before);
                components_behind_separator(after);
                assert(before.take(start as int) == path@.take(start as int));
                assert(before.skip(start as int) == path@.subrange(start as int, i as int));
            }
            if start == 0 {
                if i == 0 {
                    spans.push(Span { start: 0, end: 1 });
                    proof {
                        assert(path@.subrange(0, 1) =~= root_dir());
                        assert(texts(spans@, path@) =~= seq![root_dir()]);
                    }
                } else {
                    spans.push(Span { start: 0, end: i });
                    proof {
                        assert(path@.subrange(0, i as int) == before);
                        assert(texts(spans@, path@) =~= texts(old_spans, path@) + seq![before]);
                    }
                }
            } else if range_is_name(path, start, i) {
                spans.push(Span { start, end: i });
                proof {
                    assert(texts(spans@, path@) =~= texts(old_spans, path@) + named(
                        before.skip(start as int),
                    ));
                }
            } else {
                proof {
                    assert(texts(spans@, path@) =~= texts(old_spans, path@) + named(
                        before.skip(start as int),
                    ));
                }
            }
            start = i + 1;
            proof {
                assert(after.take(start as int) == after);
                assert(path@.take(start as int) == after);
            }
        }
        i += 1;
    }
    let ghost old_spans = spans@;
    proof {
        assert(path@.take(n as int) == path@);
        components_by_last_segment(path@);
        assert(path@.skip(start as int) == path@.subrange(start as int, n as int));
    }
    if start == 0 {
        if n > 0 {
            spans.push(Span { start: 0, end: n });
            proof {
                assert(path@.subrange(0, n as int) == path@);
                assert(texts(spans@, path@) =~= texts(old_spans, path@) + seq![path@]);
            }
        }
    } else if range_is_name(path, start, n) {
        spans.push(Span { start, end: n });
        proof {
            assert(texts(spans@, path@) =~= texts(old_spans, path@) + named(
                path@.skip(start as int),
            ));
        }
    }
    spans
}

/// Whether `path` has a parent-directory component.
pub fn path_has_traversal(path: &[u8]) -> (r: bool)
    ensures
        r == has_traversal(path@),
{
    let spans = scan(path);
    let mut k: usize = 0;
    while k < spans.len()
        invariant
            0 <= k <= spans@.len(),
            spans_fit(spans@, path@.len() as int),
            texts(spans@, path@) == components(path@),
            forall|j: int| 0 <= j < k ==> components(path@)[j] != parent_dir(),
        decreases spans@.len() - k,
    {
        let span = &spans[k];
        let ghost text = texts(spans@, path@)[k as int];
        proof {
            assert(text == path@.subrange(span.start as int, span.end as int));
        }
        if span.end - span.start == 2 && path[span.start] == DOT && path[span.start + 1] == DOT {
            proof {
                assert(text =~= parent_dir());
                assert(components(path@)[k as int] == parent_dir());
            }
            return true;
        }
        proof {
            if text == parent_dir() {
                assert(text.len() == 2);
                assert(text[0] == DOT && text[1] == DOT);
                assert(false);
            }
        }
        k += 1;
    }
    false
}

/// Whether two byte ranges hold the same bytes.
fn ranges_equal(a: &[u8], a_start: usize, a_end: usize, b: &[u8], b_start: usize, b_end: usize) -> (r:
    bool)
    requires
        a_start <= a_end <= a@.len(),
        b_start <= b_end <= b@.len(),
    ensures
        r == (a@.subrange(a_start as int, a_end as int) == b@.subrange(
            b_start as int,
            b_end as int,
        )),
{
    let ghost left = a@.subrange(a_start as int, a_end as int);
    let ghost right = b@.subrange(b_start as int, b_end as int);
    let len = a_end - a_start;
    if len != b_end - b_start {
        assert(left.len() != right.len());
        return false;
    }
    let mut i: usize = 0;
    while i < len
        invariant
            0 <= i <= len,
            len == a_end - a_start,
            len == b_end - b_start,
            a_end <= a@.len(),
            b_end <= b@.len(),
            left == a@.subrange(a_start as int, a_end as int),
            right == b@.subrange(b_start as int, b_end as int),
            forall|j: int| 0 <= j < i ==> left[j] == right[j],
        decreases len - i,
    {
        if a[a_start + i] != b[b_start + i] {
            assert(left[i as int] != right[i as int]);
            return false;
        }
        i += 1;
    }
    assert(left =~= right);
    true
}

/// Whether two paths are spelled alike.
pub fn same_spelling(a: &[u8], b: &[u8]) -> (r: bool)
    ensures
        r == (a@ == b@),
{
    proof {
        assert(a@.subrange(0, a@.len() as int) == a@);
        assert(b@.subrange(0, b@.len() as int) == b@);
    }
    ranges_equal(a, 0, a.len(), b, 0, b.len())
}

/// Whether `path` lies within `base`, component by component.
pub fn path_within(path: &[u8], base: &[u8]) -> (r: bool)
    ensures
        r == within(path@, base@),
{
    let inner = scan(path);
    let outer = scan(base);
    if outer.len() > inner.len() {
        return false;
    }
    let ghost have = components(path@);
    let ghost want = components(base@);
    let mut k: usize = 0;
    while k < outer.len()
        invariant
            0 <= k <= outer@.len() <= inner@.len(),
            spans_fit(inner@, path@.len() as int),
            spans_fit(outer@, base@.len() as int),
            have == components(path@),
            want == components(base@),
            texts(inner@, path@) == have,
            texts(outer@, base@) == want,
            forall|j: int| 0 <= j < k ==> have[j] == want[j],
        decreases outer@.len() - k,
    {
        let p = &inner[k];
        let b = &outer[k];
        proof {
            assert(texts(inner@, path@)[k as int] == path@.subrange(p.start as int, p.end as int));
            assert(texts(outer@, base@)[k as int] == base@.subrange(b.start as int, b.end as int));
        }
        if !ranges_equal(path, p.start, p.end, base, b.start, b.end) {
            proof {
                assert(have.subrange(0, want.len() as int)[k as int] == have[k as int]);
            }
            return false;
        }
        k += 1;
    }
    proof {
        assert(want =~= have.subrange(0, want.len() as int));
    }
    true
}

/// `path` as seen from `base`.
pub fn join(base: &[u8], path: &[u8]) -> (r: Vec<u8>)
    ensures
        r@ == joined(base@, path@),
{
    let mut out: Vec<u8> = Vec::new();
    if !path_is_absolute(path) {
        out.extend_from_slice(base);
        assert(out@ =~= base@);
        if base.len() > 0 && base[base.len() - 1] != SEPARATOR {
            out.push(SEPARATOR);
        }
    }
    let ghost front = out@;
    out.extend_from_slice(path);
    assert(out@ =~= front + path@);
    out
}

/// Where the last segment of the first `end` bytes of `path` begins.
fn segment_start(path: &[u8], end: usize) -> (r: usize)
    requires
        end <= path@.len(),
    ensures
        r <= end,
        r == last_start(path@.take(end as int)),
{
    let mut j = end;
    while j > 0 && path[j - 1] != SEPARATOR
        invariant
            j <= end <= path@.len(),
            last_start(path@.take(end as int)) == last_start(path@.take(j as int)),
        decreases j,
    {
        proof {
            assert(path@.take(j as int).drop_last() == path@.take(j - 1));
        }
        j -= 1;
    }
    j
}

/// The length of the stem of the first `end` bytes of `path`.
fn stem_len(path: &[u8], end: usize) -> (r: usize)
    requires
        end <= path@.len(),
    ensures
        r <= end,
        path@.take(r as int) == stem(path@.take(end as int)),
{
    let mut e = end;
    loop
        invariant
            e <= end <= path@.len(),
            stem(path@.take(end as int)) == stem(path@.take(e as int)),
        decreases e,
    {
        let s = segment_start(path, e);
        let ghost front = path@.take(e as int);
        proof {
            assert(front.skip(s as int) == path@.subrange(s as int, e as int));
        }
        if s == 0 || range_is_name(path, s, e) {
            return e;
        }
        if s == 1 {
            proof {
                assert(front.take(1) == path@.take(1));
            }
            return 1;
        }
        proof {
            assert(front.take(s - 1) == path@.take(s - 1));
        }
        e = s - 1;
    }
}

/// `path` without its last component, if it has one that is not the root.
pub fn parent_of(path: &[u8]) -> (r: Option<Vec<u8>>)
    ensures
        match r {
            Some(p) => parent(path@) == Some(p@),
            None => parent(path@) is None,
        },
{
    proof {
        assert(path@.take(path@.len() as int) == path@);
    }
    let t = stem_len(path, path.len());
    let s = segment_start(path, t);
    let ghost whole = path@.take(t as int);
    if s >= t {
        None
    } else if s == 0 {
        Some(Vec::new())
    } else if s == 1 {
        proof {
            assert(whole.take(1) == path@.subrange(0, 1));
        }
        Some(slice_to_vec(slice_subrange(path, 0, 1)))
    } else {
        let e = stem_len(path, s - 1);
        proof {
            assert(whole.take(s - 1) == path@.take(s - 1));
            assert(path@.take(e as int) == path@.subrange(0, e as int));
        }
        Some(slice_to_vec(slice_subrange(path, 0, e)))
    }
}

/// The name that `path` ends in, if it ends in one.
pub fn file_name_of(path: &[u8]) -> (r: Option<Vec<u8>>)
    ensures
        match r {
            Some(name) => file_name(path@) == Some(name@),
            None => file_name(path@) is None,
        },
{
    proof {
        assert(path@.take(path@.len() as int) == path@);
    }
    let t = stem_len(path, path.len());
    let s = segment_start(path, t);
    let ghost name = path@.subrange(s as int, t as int);
    proof {
        assert(path@.take(t as int).skip(s as int) == name);
    }
    if !range_is_name(path, s, t) {
        return None;
    }
    if t - s == 2 && path[s] == DOT && path[s + 1] == DOT {
        proof {
            assert(name =~= parent_dir());
        }
        return None;
    }
    proof {
        if name == parent_dir() {
            assert(name.len() == 2);
            assert(name[0] == DOT && name[1] == DOT);
        }
    }
    Some(slice_to_vec(slice_subrange(path, s, t)))
}

} // verus!
