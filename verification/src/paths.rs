//! Paths as sequences of parts: how they are read, tidied up and related to each other, without
//! looking at the file system. Parts are separated by `/`.
use vstd::prelude::*;
use crate::text;
use crate::text::{begins_with_char, copy_text, same, split_text};

verus! {

broadcast use crate::text::group_texts;

/// One part of a path.
pub enum PathPart {
    Root,
    Current,
    Parent,
    Name(String),
}

/// One part of a path, as a mathematical value.
pub enum PartView {
    Root,
    Current,
    Parent,
    Name(Seq<char>),
}

impl View for PathPart {
    type V = PartView;

    open spec fn view(&self) -> PartView {
        match self {
            PathPart::Root => PartView::Root,
            PathPart::Current => PartView::Current,
            PathPart::Parent => PartView::Parent,
            PathPart::Name(name) => PartView::Name(name@),
        }
    }
}

impl PathPart {
    fn copy(&self) -> (r: PathPart)
        ensures
            r@ == self@,
    {
        match self {
            PathPart::Root => PathPart::Root,
            PathPart::Current => PathPart::Current,
            PathPart::Parent => PathPart::Parent,
            PathPart::Name(name) => PathPart::Name(copy_text(name.as_str())),
        }
    }

    fn same_as(&self, other: &PathPart) -> (r: bool)
        ensures
            r == (self@ == other@),
    {
        match (self, other) {
            (PathPart::Root, PathPart::Root) => true,
            (PathPart::Current, PathPart::Current) => true,
            (PathPart::Parent, PathPart::Parent) => true,
            (PathPart::Name(a), PathPart::Name(b)) => same(a.as_str(), b.as_str()),
            _ => false,
        }
    }
}

/// The parts of a sequence.
pub open spec fn part_views(parts: Seq<PathPart>) -> Seq<PartView> {
    Seq::new(parts.len(), |i: int| parts[i]@)
}

/// The path with the segments `segments` after what was read before: an empty segment is nothing,
/// and so is a dot, except at the very start.
pub open spec fn read_segments(start: Seq<PartView>, segments: Seq<Seq<char>>) -> Seq<PartView>
    decreases segments.len(),
{
    if segments.len() == 0 {
        start
    } else {
        let before = read_segments(start, segments.drop_last());
        let segment = segments.last();
        if segment.len() == 0 {
            before
        } else if segment == "."@ {
            if segments.len() == 1 && start.len() == 0 {
                before.push(PartView::Current)
            } else {
                before
            }
        } else if segment == ".."@ {
            before.push(PartView::Parent)
        } else {
            before.push(PartView::Name(segment))
        }
    }
}

/// The parts of a path that is written down.
pub open spec fn parts_of(path: Seq<char>) -> Seq<PartView> {
    let start = if text::starts_with_char(path, '/') {
        seq![PartView::Root]
    } else {
        Seq::empty()
    };
    read_segments(start, text::split_on(path, '/'))
}

/// The parts of a path that is written down.
pub fn path_parts(path: &str) -> (r: Vec<PathPart>)
    ensures
        part_views(r@) == parts_of(path@),
{
    let segments = split_text(path, '/');
    let ghost all = text::texts(segments@);
    let absolute = begins_with_char(path, '/');
    let mut out: Vec<PathPart> = Vec::new();
    if absolute {
        out.push(PathPart::Root);
    }
    let ghost start = part_views(out@);
    proof {
        if absolute {
            assert(start =~= seq![PartView::Root]);
        } else {
            assert(start =~= Seq::<PartView>::empty());
        }
        assert(all.take(0) =~= Seq::<Seq<char>>::empty());
    }
    let mut i: usize = 0;
    while i < segments.len()
        invariant
            0 <= i <= segments.len(),
            all == text::texts(segments@),
            absolute == (start.len() > 0),
            part_views(out@) == read_segments(start, all.take(i as int)),
        decreases segments.len() - i,
    {
        assert(all.take(i + 1).drop_last() =~= all.take(i as int));
        let segment = segments[i].as_str();
        let ghost before = out@;
        if segment.is_empty() {
        } else if same(segment, ".") {
            if i == 0 && !absolute {
                out.push(PathPart::Current);
                assert(part_views(out@) =~= part_views(before).push(PartView::Current));
            }
        } else if same(segment, "..") {
            out.push(PathPart::Parent);
            assert(part_views(out@) =~= part_views(before).push(PartView::Parent));
        } else {
            out.push(PathPart::Name(copy_text(segment)));
            assert(part_views(out@) =~= part_views(before).push(PartView::Name(segment@)));
        }
        i += 1;
    }
    assert(all.take(i as int) =~= all);
    out
}

/// Whether two paths that are written down have the same parts.
pub fn same_path(a: &str, b: &str) -> (r: bool)
    ensures
        r == (parts_of(a@) == parts_of(b@)),
{
    let x = path_parts(a);
    let y = path_parts(b);
    if x.len() != y.len() {
        assert(part_views(x@).len() != part_views(y@).len());
        return false;
    }
    let mut i: usize = 0;
    while i < x.len()
        invariant
            0 <= i <= x.len(),
            x.len() == y.len(),
            part_views(x@) == parts_of(a@),
            part_views(y@) == parts_of(b@),
            forall|j: int| 0 <= j < i ==> x@[j]@ == y@[j]@,
        decreases x.len() - i,
    {
        if !x[i].same_as(&y[i]) {
            assert(part_views(x@)[i as int] != part_views(y@)[i as int]);
            return false;
        }
        i += 1;
    }
    assert(part_views(x@) =~= part_views(y@));
    true
}

/// The parts of a path below a directory, where it is below it.
pub open spec fn below_dir(dir: Seq<PartView>, path: Seq<PartView>) -> Option<Seq<PartView>> {
    if dir.len() <= path.len() && path.take(dir.len() as int) == dir {
        Some(path.skip(dir.len() as int))
    } else {
        None
    }
}

/// A path below a directory as it is written relative to it; nothing where it is not below it.
pub fn strip_dir(dir: &str, path: &str) -> (r: Option<String>)
    ensures
        text::opt_text(r) == (match below_dir(parts_of(dir@), parts_of(path@)) {
            Some(parts) => Some(written(parts)),
            None => None,
        }),
{
    let d = path_parts(dir);
    let p = path_parts(path);
    assert(part_views(d@).len() == d@.len());
    assert(part_views(p@).len() == p@.len());
    if d.len() > p.len() {
        return None;
    }
    let mut i: usize = 0;
    while i < d.len()
        invariant
            0 <= i <= d.len(),
            d.len() <= p.len(),
            part_views(d@) == parts_of(dir@),
            part_views(p@) == parts_of(path@),
            forall|j: int| 0 <= j < i ==> d@[j]@ == p@[j]@,
        decreases d.len() - i,
    {
        if !d[i].same_as(&p[i]) {
            assert(part_views(p@).take(d@.len() as int)[i as int] != part_views(d@)[i as int]);
            return None;
        }
        i += 1;
    }
    assert(part_views(p@).take(d@.len() as int) =~= part_views(d@));
    let rest = vstd::slice::slice_subrange(p.as_slice(), d.len(), p.len());
    assert(part_views(rest@) =~= part_views(p@).skip(d@.len() as int));
    Some(write_path(rest))
}

/// How a part is written.
pub open spec fn part_text(part: PartView) -> Seq<char> {
    match part {
        PartView::Root => "/"@,
        PartView::Current => "."@,
        PartView::Parent => ".."@,
        PartView::Name(name) => name,
    }
}

/// How a path is written: the parts with `/` between them, none right after the root.
pub open spec fn written(parts: Seq<PartView>) -> Seq<char>
    decreases parts.len(),
{
    if parts.len() == 0 {
        Seq::empty()
    } else if parts.len() == 1 || parts[parts.len() - 2] == PartView::Root {
        written(parts.drop_last()) + part_text(parts.last())
    } else {
        written(parts.drop_last()) + "/"@ + part_text(parts.last())
    }
}

/// How a path is written.
pub fn write_path(parts: &[PathPart]) -> (r: String)
    ensures
        r@ == written(part_views(parts@)),
{
    let ghost all = part_views(parts@);
    let mut out = String::new();
    let mut after_root = true;
    let mut i: usize = 0;
    assert(all.take(0) =~= Seq::<PartView>::empty());
    while i < parts.len()
        invariant
            0 <= i <= parts.len(),
            all == part_views(parts@),
            after_root == (i == 0 || all[i - 1] == PartView::Root),
            out@ == written(all.take(i as int)),
        decreases parts.len() - i,
    {
        assert(all.take(i + 1).drop_last() =~= all.take(i as int));
        assert(i > 0 ==> all.take(i + 1)[i - 1] == all[i - 1]);
        if !after_root {
            out.append("/");
        }
        match &parts[i] {
            PathPart::Root => {
                out.append("/");
                after_root = true;
            },
            PathPart::Current => {
                out.append(".");
                after_root = false;
            },
            PathPart::Parent => {
                out.append("..");
                after_root = false;
            },
            PathPart::Name(name) => {
                out.append(name.as_str());
                after_root = false;
            },
        }
        i += 1;
    }
    assert(all.take(i as int) =~= all);
    out
}

/// The tidy path `done`, continued by one part. A parent undoes a name, and nothing else.
pub open spec fn continued(done: Seq<PartView>, part: PartView) -> Seq<PartView> {
    match part {
        PartView::Root => seq![PartView::Root],
        PartView::Current => done,
        PartView::Parent => if done.len() > 0 && done.last() is Name {
            done.drop_last()
        } else {
            done
        },
        PartView::Name(_) => done.push(part),
    }
}

/// The tidy path `done`, continued by several parts.
pub open spec fn continued_by(done: Seq<PartView>, parts: Seq<PartView>) -> Seq<PartView>
    decreases parts.len(),
{
    if parts.len() == 0 {
        done
    } else {
        continued(continued_by(done, parts.drop_last()), parts.last())
    }
}

/// The path without dots and without names that a parent undoes; a dot where nothing is left.
pub open spec fn tidy(parts: Seq<PartView>) -> Seq<PartView> {
    let done = continued_by(Seq::empty(), parts);
    if done.len() == 0 {
        seq![PartView::Current]
    } else {
        done
    }
}

/// The path without dots and without names that a parent undoes.
pub fn tidy_parts(parts: &[PathPart]) -> (r: Vec<PathPart>)
    ensures
        part_views(r@) == tidy(part_views(parts@)),
{
    let ghost all = part_views(parts@);
    let mut out: Vec<PathPart> = Vec::new();
    let mut i: usize = 0;
    assert(all.take(0) =~= Seq::<PartView>::empty());
    assert(part_views(out@) =~= Seq::<PartView>::empty());
    while i < parts.len()
        invariant
            0 <= i <= parts.len(),
            all == part_views(parts@),
            part_views(out@) == continued_by(Seq::empty(), all.take(i as int)),
        decreases parts.len() - i,
    {
        assert(all.take(i + 1).drop_last() =~= all.take(i as int));
        let ghost before = part_views(out@);
        match &parts[i] {
            PathPart::Root => {
                out.clear();
                out.push(PathPart::Root);
                assert(part_views(out@) =~= seq![PartView::Root]);
            },
            PathPart::Current => {},
            PathPart::Parent => {
                let named = out.len() > 0 && matches!(out[out.len() - 1], PathPart::Name(_));
                if named {
                    assert(before.last() is Name);
                    let _ = out.pop();
                    assert(part_views(out@) =~= before.drop_last());
                }
            },
            PathPart::Name(name) => {
                out.push(PathPart::Name(copy_text(name.as_str())));
                assert(part_views(out@) =~= before.push(PartView::Name(name@)));
            },
        }
        i += 1;
    }
    assert(all.take(i as int) =~= all);
    if out.len() == 0 {
        out.push(PathPart::Current);
        assert(part_views(out@) =~= seq![PartView::Current]);
    }
    out
}

/// The path, tidied up and written down again.
pub fn normalize_path(path: &str) -> (r: String)
    ensures
        r@ == written(tidy(parts_of(path@))),
{
    let parts = path_parts(path);
    let tidied = tidy_parts(parts.as_slice());
    write_path(tidied.as_slice())
}

/// How many parts two paths have in common at the start.
pub open spec fn common(a: Seq<PartView>, b: Seq<PartView>) -> int
    decreases a.len(),
{
    if a.len() == 0 || b.len() == 0 || a[0] != b[0] {
        0
    } else {
        1 + common(a.skip(1), b.skip(1))
    }
}

/// One parent for each part that is not the root.
pub open spec fn ups(parts: Seq<PartView>) -> Seq<PartView>
    decreases parts.len(),
{
    if parts.len() == 0 {
        Seq::empty()
    } else if parts.last() == PartView::Root {
        ups(parts.drop_last())
    } else {
        ups(parts.drop_last()).push(PartView::Parent)
    }
}

/// A path with parts added: a root starts afresh.
pub open spec fn extended(path: Seq<PartView>, parts: Seq<PartView>) -> Seq<PartView>
    decreases parts.len(),
{
    if parts.len() == 0 {
        path
    } else if parts.last() == PartView::Root {
        seq![PartView::Root]
    } else {
        extended(path, parts.drop_last()).push(parts.last())
    }
}

/// The path that leads from `from` to `to`, both tidy.
pub open spec fn relative(from: Seq<PartView>, to: Seq<PartView>) -> Seq<PartView> {
    let shared = common(from, to);
    let path = extended(ups(from.skip(shared)), to.skip(shared));
    if path.len() == 0 {
        seq![PartView::Current]
    } else {
        path
    }
}

proof fn common_bounds(a: Seq<PartView>, b: Seq<PartView>)
    ensures
        0 <= common(a, b) <= a.len(),
        common(a, b) <= b.len(),
        a.take(common(a, b)) == b.take(common(a, b)),
    decreases a.len(),
{
    if a.len() == 0 || b.len() == 0 || a[0] != b[0] {
    } else {
        common_bounds(a.skip(1), b.skip(1));
        let n = common(a.skip(1), b.skip(1));
        assert forall|i: int| 0 <= i < n + 1 implies a[i] == b[i] by {
            if i > 0 {
                assert(a.skip(1).take(n)[i - 1] == b.skip(1).take(n)[i - 1]);
            }
        }
        assert(a.take(n + 1) =~= b.take(n + 1));
    }
}

fn common_length(a: &[PathPart], b: &[PathPart]) -> (r: usize)
    ensures
        r == common(part_views(a@), part_views(b@)),
        r <= a@.len(),
        r <= b@.len(),
{
    let ghost x = part_views(a@);
    let ghost y = part_views(b@);
    let mut i: usize = 0;
    assert(x.skip(0) =~= x);
    assert(y.skip(0) =~= y);
    while i < a.len() && i < b.len() && a[i].same_as(&b[i])
        invariant
            0 <= i <= a.len(),
            i <= b.len(),
            x == part_views(a@),
            y == part_views(b@),
            common(x, y) == i + common(x.skip(i as int), y.skip(i as int)),
        decreases a.len() - i,
    {
        assert(x.skip(i as int).skip(1) =~= x.skip(i + 1));
        assert(y.skip(i as int).skip(1) =~= y.skip(i + 1));
        assert(x.skip(i as int)[0] == y.skip(i as int)[0]);
        i += 1;
    }
    i
}

/// The path that leads from `from` to `to`, both tidy.
pub fn relative_parts(from: &[PathPart], to: &[PathPart]) -> (r: Vec<PathPart>)
    ensures
        part_views(r@) == relative(part_views(from@), part_views(to@)),
{
    let ghost a = part_views(from@);
    let ghost b = part_views(to@);
    let shared: usize = common_length(from, to);
    let ghost up = a.skip(shared as int);
    let ghost down = b.skip(shared as int);
    let mut out: Vec<PathPart> = Vec::new();
    let mut i: usize = shared;
    assert(up.take(0) =~= Seq::<PartView>::empty());
    assert(part_views(out@) =~= Seq::<PartView>::empty());
    while i < from.len()
        invariant
            shared <= i <= from.len(),
            a == part_views(from@),
            up == a.skip(shared as int),
            part_views(out@) == ups(up.take(i - shared)),
        decreases from.len() - i,
    {
        assert(up.take(i - shared + 1).drop_last() =~= up.take(i - shared));
        assert(up.take(i - shared + 1).last() == a[i as int]);
        let ghost before = part_views(out@);
        match &from[i] {
            PathPart::Root => {},
            _ => {
                out.push(PathPart::Parent);
                assert(part_views(out@) =~= before.push(PartView::Parent));
            },
        }
        i += 1;
    }
    assert(up.take(i - shared) =~= up);
    let ghost climbed = part_views(out@);
    let mut k: usize = shared;
    assert(down.take(0) =~= Seq::<PartView>::empty());
    while k < to.len()
        invariant
            shared <= k <= to.len(),
            b == part_views(to@),
            down == b.skip(shared as int),
            part_views(out@) == extended(climbed, down.take(k - shared)),
        decreases to.len() - k,
    {
        assert(down.take(k - shared + 1).drop_last() =~= down.take(k - shared));
        assert(down.take(k - shared + 1).last() == b[k as int]);
        let ghost before = part_views(out@);
        match &to[k] {
            PathPart::Root => {
                out.clear();
                out.push(PathPart::Root);
                assert(part_views(out@) =~= seq![PartView::Root]);
            },
            part => {
                out.push(part.copy());
                assert(part_views(out@) =~= before.push(b[k as int]));
            },
        }
        k += 1;
    }
    assert(down.take(k - shared) =~= down);
    if out.len() == 0 {
        out.push(PathPart::Current);
        assert(part_views(out@) =~= seq![PartView::Current]);
    }
    out
}

/// The path that leads from `from` to `to`, written down. Both are tidied up first.
pub fn relative_path(from: &str, to: &str) -> (r: String)
    ensures
        r@ == written(relative(tidy(parts_of(from@)), tidy(parts_of(to@)))),
{
    let a = tidy_parts(path_parts(from).as_slice());
    let b = tidy_parts(path_parts(to).as_slice());
    write_path(relative_parts(a.as_slice(), b.as_slice()).as_slice())
}

/// A path text with each backslash turned into a slash.
pub fn normalize_plugin_root_text(path: &str) -> (r: String)
    ensures
        r@ == text::replace_char(path@, '\\', "/"@),
{
    text::replaced_char(path, '\\', "/")
}

/// The path from a directory to a root, before it is stored.
pub open spec fn path_to_root(base_dir: Seq<char>, root: Seq<char>) -> Seq<char> {
    written(relative(tidy(parts_of(base_dir)), tidy(parts_of(root))))
}

/// The text under which a root is stored in settings that live in a directory.
pub open spec fn stored_root(base_dir: Seq<char>, root: Seq<char>) -> Seq<char> {
    text::replace_char(path_to_root(base_dir, root), '\\', "/"@)
}

/// The text under which the root `resolved` is stored in settings that live in `base_dir`.
pub fn serialize_plugin_root(base_dir: &str, resolved: &str) -> (r: String)
    ensures
        r@ == stored_root(base_dir@, resolved@),
{
    normalize_plugin_root_text(relative_path(base_dir, resolved).as_str())
}

/// The path that a value means in a directory: the value itself where it is absolute, and what is
/// below the directory where it is not.
pub open spec fn resolved(dir: Seq<char>, value: Seq<char>) -> Seq<PartView> {
    if text::starts_with_char(value, '/') {
        tidy(parts_of(value))
    } else {
        tidy(parts_of(dir) + parts_of(value))
    }
}

/// The path that a value means in a directory, tidied up. A leading tilde has no meaning here.
pub fn resolve_plugin_root(dir: &str, value: &str) -> (r: String)
    ensures
        r@ == written(resolved(dir@, value@)),
{
    if begins_with_char(value, '/') {
        return normalize_path(value);
    }
    let mut parts = path_parts(dir);
    let mut rest = path_parts(value);
    let ghost before = part_views(parts@);
    let ghost after = part_views(rest@);
    parts.append(&mut rest);
    assert(part_views(parts@) =~= before + after);
    write_path(tidy_parts(parts.as_slice()).as_slice())
}

/// Whether a path is what tidying up leaves: a dot, or a root or nothing followed by names.
pub open spec fn is_tidy(path: Seq<PartView>) -> bool {
    ||| path == seq![PartView::Current]
    ||| path.len() > 0 && clean(path)
}

/// Whether a path consists of names, after a root or not.
pub open spec fn clean(path: Seq<PartView>) -> bool {
    forall|i: int|
        0 <= i < path.len() ==> (#[trigger] path[i]) is Name || (i == 0 && path[i] == PartView::Root)
}

proof fn continued_by_clean(done: Seq<PartView>, parts: Seq<PartView>)
    requires
        clean(done),
    ensures
        clean(continued_by(done, parts)),
    decreases parts.len(),
{
    if parts.len() > 0 {
        continued_by_clean(done, parts.drop_last());
    }
}

proof fn clean_is_kept(path: Seq<PartView>)
    requires
        clean(path),
    ensures
        continued_by(Seq::empty(), path) == path,
    decreases path.len(),
{
    if path.len() > 0 {
        let front = path.drop_last();
        assert(forall|i: int| 0 <= i < front.len() ==> front[i] == path[i]);
        clean_is_kept(front);
        assert(path[path.len() - 1] == path.last());
        if path.last() == PartView::Root {
            assert(path =~= seq![PartView::Root]);
        } else {
            assert(path =~= front.push(path.last()));
        }
    }
}

/// Tidying up leaves a tidy path, and a tidy path stays as it is.
pub proof fn tidy_is_idempotent(parts: Seq<PartView>)
    ensures
        is_tidy(tidy(parts)),
        tidy(tidy(parts)) == tidy(parts),
{
    let done = continued_by(Seq::empty(), parts);
    continued_by_clean(Seq::empty(), parts);
    if done.len() == 0 {
        let dot = seq![PartView::Current];
        assert(dot.drop_last() =~= Seq::<PartView>::empty());
        assert(continued_by(Seq::empty(), dot.drop_last()) =~= Seq::<PartView>::empty());
    } else {
        clean_is_kept(done);
    }
}

proof fn continued_in_two(done: Seq<PartView>, a: Seq<PartView>, b: Seq<PartView>)
    ensures
        continued_by(done, a + b) == continued_by(continued_by(done, a), b),
    decreases b.len(),
{
    if b.len() == 0 {
        assert(a + b =~= a);
    } else {
        continued_in_two(done, a, b.drop_last());
        assert((a + b).drop_last() =~= a + b.drop_last());
        assert((a + b).last() == b.last());
    }
}

proof fn ups_of_names(parts: Seq<PartView>)
    requires
        forall|i: int| 0 <= i < parts.len() ==> (#[trigger] parts[i]) is Name,
    ensures
        ups(parts) == Seq::new(parts.len(), |i: int| PartView::Parent),
    decreases parts.len(),
{
    if parts.len() > 0 {
        let front = parts.drop_last();
        assert(forall|i: int| 0 <= i < front.len() ==> front[i] == parts[i]);
        ups_of_names(front);
        assert(parts[parts.len() - 1] is Name);
        assert(ups(parts) =~= Seq::new(parts.len(), |i: int| PartView::Parent));
    } else {
        assert(ups(parts) =~= Seq::new(parts.len(), |i: int| PartView::Parent));
    }
}

proof fn extended_by_names(path: Seq<PartView>, names: Seq<PartView>)
    requires
        forall|i: int| 0 <= i < names.len() ==> (#[trigger] names[i]) is Name,
    ensures
        extended(path, names) == path + names,
        continued_by(path, names) == path + names,
    decreases names.len(),
{
    if names.len() > 0 {
        let front = names.drop_last();
        assert(forall|i: int| 0 <= i < front.len() ==> front[i] == names[i]);
        extended_by_names(path, front);
        assert(names[names.len() - 1] is Name);
        assert(extended(path, names) =~= path + names);
        assert(continued_by(path, names) =~= path + names);
    } else {
        assert(path + names =~= path);
    }
}

proof fn climbing_undoes_names(path: Seq<PartView>, n: nat)
    requires
        n <= path.len(),
        forall|i: int| path.len() - n <= i < path.len() ==> (#[trigger] path[i]) is Name,
    ensures
        continued_by(path, Seq::new(n, |i: int| PartView::Parent)) == path.take(path.len() - n),
    decreases n,
{
    let parents = Seq::new(n, |i: int| PartView::Parent);
    if n == 0 {
        assert(path.take(path.len() as int) =~= path);
    } else {
        let fewer = Seq::new((n - 1) as nat, |i: int| PartView::Parent);
        assert(parents.drop_last() =~= fewer);
        climbing_undoes_names(path, (n - 1) as nat);
        let climbed = path.take(path.len() - (n - 1));
        assert(climbed.last() == path[path.len() - n]);
        assert(climbed.drop_last() =~= path.take(path.len() - n));
    }
}

/// Whether two paths consist of names, both behind a root or neither.
pub open spec fn alike(a: Seq<PartView>, b: Seq<PartView>) -> bool {
    a.len() > 0 && b.len() > 0 && clean(a) && clean(b) && (a[0] == PartView::Root <==> b[0]
        == PartView::Root)
}

/// A root that is stored relative to a directory is found again from that directory: going from
/// `from` along the relative path leads to `to`.
pub proof fn relative_path_leads_back(from: Seq<PartView>, to: Seq<PartView>)
    requires
        alike(from, to),
    ensures
        tidy(from + relative(from, to)) == to,
{
    let shared = common(from, to);
    common_bounds(from, to);
    assert(from[0] == PartView::Root ==> shared >= 1) by {
        common_bounds(from.skip(1), to.skip(1));
    }
    let up = from.skip(shared);
    let down = to.skip(shared);
    assert forall|i: int| 0 <= i < up.len() implies (#[trigger] up[i]) is Name by {
        assert(up[i] == from[i + shared]);
    }
    assert forall|i: int| 0 <= i < down.len() implies (#[trigger] down[i]) is Name by {
        assert(down[i] == to[i + shared]);
    }
    ups_of_names(up);
    extended_by_names(ups(up), down);
    assert(clean(from));
    clean_is_kept(from);
    climbing_undoes_names(from, up.len());
    let base = from.take(shared);
    assert(from.take(from.len() - up.len()) =~= base);
    extended_by_names(base, down);
    assert(base + down =~= to) by {
        assert(base =~= to.take(shared));
    }
    let path = ups(up) + down;
    continued_in_two(Seq::empty(), from, path);
    continued_in_two(from, ups(up), down);
    assert(continued_by(Seq::empty(), from + path) == to);
    if path.len() == 0 {
        assert(ups(up).len() == up.len());
        assert(from =~= base);
        assert(to =~= base);
        let dot = seq![PartView::Current];
        continued_in_two(Seq::empty(), from, dot);
        assert(dot.drop_last() =~= Seq::<PartView>::empty());
        assert(continued_by(from, dot) == from);
    }
}

/// Whether a text can be the name of a part: it is neither empty nor a dot nor two dots, and no slash
/// stands in it.
pub open spec fn good_name(name: Seq<char>) -> bool {
    name.len() > 0 && !name.contains('/') && name != "."@ && name != ".."@
}

/// Whether the parts are such as reading gives: a root or a dot only at the start, and names that can
/// be read.
pub open spec fn readable(parts: Seq<PartView>) -> bool {
    forall|i: int|
        0 <= i < parts.len() ==> match #[trigger] parts[i] {
            PartView::Root => i == 0,
            PartView::Current => i == 0,
            PartView::Parent => true,
            PartView::Name(name) => good_name(name),
        }
}

/// What stands between the slashes for a part.
spec fn segment_of(part: PartView) -> Seq<char> {
    if part == PartView::Root {
        Seq::empty()
    } else {
        part_text(part)
    }
}

spec fn segments_of(parts: Seq<PartView>) -> Seq<Seq<char>> {
    Seq::new(parts.len(), |i: int| segment_of(parts[i]))
}

proof fn dots()
    ensures
        "."@ == seq!['.'],
        ".."@ == seq!['.', '.'],
        "/"@ == seq!['/'],
{
    reveal_strlit(".");
    reveal_strlit("..");
    reveal_strlit("/");
    assert("."@ =~= seq!['.']);
    assert(".."@ =~= seq!['.', '.']);
    assert("/"@ =~= seq!['/']);
}

proof fn written_is_joined(parts: Seq<PartView>)
    requires
        readable(parts),
        parts.len() > 0,
        parts.len() == 1 ==> parts[0] != PartView::Root,
    ensures
        written(parts) == text::join(segments_of(parts), seq!['/']),
    decreases parts.len(),
{
    dots();
    let segments = segments_of(parts);
    let front = parts.drop_last();
    assert(segments.drop_last() =~= segments_of(front));
    assert(parts[parts.len() - 1] == parts.last());
    if parts.len() == 1 {
        assert(written(front) =~= Seq::<char>::empty());
        assert(written(parts) =~= part_text(parts[0]));
    } else if parts[parts.len() - 2] == PartView::Root {
        assert(parts.len() == 2);
        reveal_with_fuel(written, 3);
        reveal_with_fuel(text::join, 3);
        assert(front[0] == PartView::Root);
        assert(written(front) =~= seq!['/']);
        assert(segments[0] =~= Seq::<char>::empty());
        assert(segments.drop_last()[0] == segments[0]);
        assert(text::join(segments, seq!['/']) =~= seq!['/'] + part_text(parts.last()));
    } else {
        assert(forall|i: int| 0 <= i < front.len() ==> front[i] == parts[i]);
        written_is_joined(front);
        assert(written(parts) == written(front) + "/"@ + part_text(parts.last()));
        assert(segments.last() == part_text(parts.last()));
    }
}

proof fn segments_read_back(start: Seq<PartView>, parts: Seq<PartView>)
    requires
        readable(parts),
        start.len() == 0 || (start == seq![PartView::Root] && parts.len() > 0 && parts[0]
            == PartView::Root),
        start.len() == 0 && parts.len() > 0 ==> parts[0] != PartView::Root,
    ensures
        read_segments(start, segments_of(parts)) == (if start.len() == 0 {
            parts
        } else {
            start + parts.skip(1)
        }),
    decreases parts.len(),
{
    dots();
    let segments = segments_of(parts);
    if parts.len() > 0 {
        let front = parts.drop_last();
        assert(segments.drop_last() =~= segments_of(front));
        assert(forall|i: int| 0 <= i < front.len() ==> front[i] == parts[i]);
        let last = parts[parts.len() - 1];
        assert(segments.last() == segment_of(last));
        if parts.len() == 1 && start.len() > 0 {
            assert(segments.drop_last() =~= Seq::<Seq<char>>::empty());
            assert(read_segments(start, segments.drop_last()) == start);
            assert(parts.skip(1) =~= Seq::<PartView>::empty());
            assert(start + parts.skip(1) =~= start);
        } else {
            segments_read_back(start, front);
            assert("."@.len() == 1 && ".."@.len() == 2);
            assert(last != PartView::Root);
            assert(segments.last().len() > 0);
            assert(read_segments(start, segments) == read_segments(
                start,
                segments.drop_last(),
            ).push(last)) by {
                match last {
                    PartView::Current => {
                        assert(parts.len() == 1);
                    },
                    PartView::Name(name) => {
                        assert(good_name(name));
                    },
                    _ => {},
                }
            }
            if start.len() == 0 {
                assert(front.push(last) =~= parts);
            } else {
                assert((start + front.skip(1)).push(last) =~= start + parts.skip(1));
            }
        }
    } else {
        assert(segments =~= Seq::<Seq<char>>::empty());
        assert(start =~= parts);
    }
}

/// A path that is written down is read back as it was.
pub proof fn written_path_reads_back(parts: Seq<PartView>)
    requires
        readable(parts),
    ensures
        parts_of(written(parts)) == parts,
{
    dots();
    let nothing = Seq::<char>::empty();
    if parts.len() == 0 {
        reveal_with_fuel(read_segments, 2);
        assert(text::split_on(nothing, '/') == seq![nothing]);
        assert(seq![nothing].drop_last() =~= Seq::<Seq<char>>::empty());
        assert(parts =~= Seq::<PartView>::empty());
    } else if parts.len() == 1 && parts[0] == PartView::Root {
        let segments = seq![nothing, nothing];
        assert(written(parts.drop_last()) =~= nothing);
        assert(written(parts) =~= seq!['/']);
        assert(segments.drop_last() =~= seq![nothing]);
        assert(text::join(segments, seq!['/']) =~= seq!['/']) by {
            reveal_with_fuel(text::join, 3);
        }
        text::split_undoes_join(segments, '/');
        reveal_with_fuel(read_segments, 3);
        assert(seq![nothing].drop_last() =~= Seq::<Seq<char>>::empty());
        assert(parts =~= seq![PartView::Root]);
    } else {
        let segments = segments_of(parts);
        written_is_joined(parts);
        assert forall|i: int| 0 <= i < segments.len() implies !(#[trigger] segments[i]).contains(
            '/',
        ) by {
            assert(segments[i] == segment_of(parts[i]));
        }
        text::split_undoes_join(segments, '/');
        let path = written(parts);
        first_of_joined(segments);
        assert(segments[0] == segment_of(parts[0]));
        if parts[0] == PartView::Root {
            segments_read_back(seq![PartView::Root], parts);
            assert(seq![PartView::Root] + parts.skip(1) =~= parts);
        } else {
            assert(segments[0].len() > 0);
            assert(segments[0].contains(segments[0][0]));
            segments_read_back(Seq::empty(), parts);
        }
    }
}

proof fn first_of_joined(segments: Seq<Seq<char>>)
    requires
        segments.len() > 0,
    ensures
        segments[0].len() > 0 ==> text::join(segments, seq!['/']).len() > 0 && text::join(
            segments,
            seq!['/'],
        )[0] == segments[0][0],
        segments[0].len() == 0 && segments.len() > 1 ==> text::starts_with_char(
            text::join(segments, seq!['/']),
            '/',
        ),
    decreases segments.len(),
{
    if segments.len() > 1 {
        let front = segments.drop_last();
        first_of_joined(front);
        assert(front[0] == segments[0]);
        if segments.len() == 2 {
            assert(text::join(front, seq!['/']) == front[0]);
        }
    }
}

/// Whether the names of parts can be read and, where a character is given, do not hold it.
spec fn names_fit(parts: Seq<PartView>, c: Option<char>) -> bool {
    forall|i: int|
        0 <= i < parts.len() ==> match #[trigger] parts[i] {
            PartView::Name(name) => good_name(name) && (c is Some ==> !name.contains(c->0)),
            _ => true,
        }
}

/// The pieces of a split text hold no character that the text does not hold.
pub proof fn pieces_without(s: Seq<char>, c: char, d: char, i: int)
    requires
        !s.contains(d),
        0 <= i < text::split_on(s, c).len(),
    ensures
        !text::split_on(s, c)[i].contains(d),
    decreases s.len(),
{
    if s.len() > 0 {
        let front = s.drop_last();
        let before = text::split_on(front, c);
        text::split_on_nonempty(front, c);
        assert(!front.contains(d)) by {
            if front.contains(d) {
                let k = choose|k: int| 0 <= k < front.len() && front[k] == d;
                assert(s[k] == d);
            }
        }
        assert(s[s.len() - 1] != d);
        if i < before.len() {
            pieces_without(front, c, d, i);
        }
        if s.last() != c && i == before.len() - 1 {
            let piece = before.last();
            let longer = piece.push(s.last());
            assert(!longer.contains(d)) by {
                if longer.contains(d) {
                    let k = choose|k: int| 0 <= k < longer.len() && longer[k] == d;
                    if k < piece.len() {
                        assert(piece[k] == d);
                    }
                }
            }
        }
    }
}

proof fn read_names_fit(start: Seq<PartView>, segments: Seq<Seq<char>>, c: Option<char>)
    requires
        start.len() == 0 || start == seq![PartView::Root],
        forall|i: int|
            0 <= i < segments.len() ==> !(#[trigger] segments[i]).contains('/') && (c is Some
                ==> !segments[i].contains(c->0)),
    ensures
        names_fit(read_segments(start, segments), c),
        start.len() <= read_segments(start, segments).len(),
        start.len() > 0 ==> read_segments(start, segments)[0] == PartView::Root,
        forall|i: int|
            start.len() <= i < read_segments(start, segments).len() ==> #[trigger] read_segments(
                start,
                segments,
            )[i] != PartView::Root,
    decreases segments.len(),
{
    if segments.len() > 0 {
        let front = segments.drop_last();
        assert forall|i: int| 0 <= i < front.len() implies !(#[trigger] front[i]).contains('/') && (
        c is Some ==> !front[i].contains(c->0)) by {
            assert(front[i] == segments[i]);
        }
        read_names_fit(start, front, c);
        assert(segments[segments.len() - 1] == segments.last());
    }
}

proof fn parts_fit(path: Seq<char>, c: Option<char>)
    requires
        c is Some ==> !path.contains(c->0),
    ensures
        names_fit(parts_of(path), c),
        text::starts_with_char(path, '/') ==> parts_of(path).len() > 0 && parts_of(path)[0]
            == PartView::Root,
        forall|i: int|
            0 <= i < parts_of(path).len() && (i > 0 || !text::starts_with_char(path, '/'))
                ==> #[trigger] parts_of(path)[i] != PartView::Root,
{
    let segments = text::split_on(path, '/');
    assert forall|i: int| 0 <= i < segments.len() implies !(#[trigger] segments[i]).contains('/')
        && (c is Some ==> !segments[i].contains(c->0)) by {
        text::split_pieces(path, '/', i);
        if c is Some {
            pieces_without(path, '/', c->0, i);
        }
    }
    let start = if text::starts_with_char(path, '/') {
        seq![PartView::Root]
    } else {
        Seq::empty()
    };
    read_names_fit(start, segments, c);
}

/// What tidying up leaves of parts with a root only at the start.
proof fn continued_fits(parts: Seq<PartView>, c: Option<char>)
    requires
        names_fit(parts, c),
        forall|i: int| 0 < i < parts.len() ==> #[trigger] parts[i] != PartView::Root,
    ensures
        names_fit(continued_by(Seq::empty(), parts), c),
        clean(continued_by(Seq::empty(), parts)),
        parts.len() > 0 && parts[0] == PartView::Root ==> continued_by(Seq::empty(), parts).len() > 0,
        continued_by(Seq::empty(), parts).len() > 0 ==> (continued_by(Seq::empty(), parts)[0]
            == PartView::Root <==> parts[0] == PartView::Root),
    decreases parts.len(),
{
    if parts.len() > 0 {
        let front = parts.drop_last();
        assert(forall|i: int| 0 <= i < front.len() ==> front[i] == parts[i]);
        continued_fits(front, c);
        assert(parts[parts.len() - 1] == parts.last());
        if parts.len() == 1 {
            assert(continued_by(Seq::empty(), front) =~= Seq::<PartView>::empty());
        }
    }
}

/// What is known of a path that was tidied up.
proof fn tidy_fits(parts: Seq<PartView>, c: Option<char>)
    requires
        names_fit(parts, c),
        forall|i: int| 0 < i < parts.len() ==> #[trigger] parts[i] != PartView::Root,
    ensures
        is_tidy(tidy(parts)),
        names_fit(tidy(parts), c),
        readable(tidy(parts)),
        tidy(tidy(parts)) == tidy(parts),
        tidy(parts)[0] == PartView::Root <==> parts.len() > 0 && parts[0] == PartView::Root,
        tidy(parts) == seq![PartView::Current] ==> continued_by(Seq::empty(), parts).len() == 0,
{
    continued_fits(parts, c);
    tidy_is_idempotent(parts);
    let done = continued_by(Seq::empty(), parts);
    if done == seq![PartView::Current] {
        assert(done[0] is Name || done[0] == PartView::Root);
    }
}

proof fn resolved_fits(dir: Seq<char>, value: Seq<char>, c: Option<char>)
    requires
        c is Some ==> !dir.contains(c->0) && !value.contains(c->0),
    ensures
        names_fit(resolved(dir, value), c),
        is_tidy(resolved(dir, value)),
        readable(resolved(dir, value)),
        tidy(resolved(dir, value)) == resolved(dir, value),
        resolved(dir, value)[0] == PartView::Root <==> text::starts_with_char(value, '/')
            || text::starts_with_char(dir, '/'),
{
    parts_fit(dir, c);
    parts_fit(value, c);
    let parts = if text::starts_with_char(value, '/') {
        parts_of(value)
    } else {
        parts_of(dir) + parts_of(value)
    };
    assert(names_fit(parts, c));
    assert forall|i: int| 0 < i < parts.len() implies #[trigger] parts[i] != PartView::Root by {
        if !text::starts_with_char(value, '/') && i >= parts_of(dir).len() {
            assert(parts[i] == parts_of(value)[i - parts_of(dir).len()]);
        }
    }
    if !text::starts_with_char(value, '/') && parts.len() > 0 {
        if parts_of(dir).len() == 0 {
            assert(parts[0] == parts_of(value)[0]);
        } else {
            assert(parts[0] == parts_of(dir)[0]);
        }
    }
    tidy_fits(parts, c);
}

proof fn written_without(parts: Seq<PartView>, c: char)
    requires
        names_fit(parts, Some(c)),
        c != '/',
        c != '.',
    ensures
        !written(parts).contains(c),
    decreases parts.len(),
{
    dots();
    if parts.len() > 0 {
        let front = parts.drop_last();
        assert(forall|i: int| 0 <= i < front.len() ==> front[i] == parts[i]);
        written_without(front, c);
        assert(parts[parts.len() - 1] == parts.last());
        let last = part_text(parts.last());
        assert(!last.contains(c));
        let whole = written(parts);
        if whole.contains(c) {
            let k = choose|k: int| 0 <= k < whole.len() && whole[k] == c;
            let before = written(front);
            if k < before.len() {
                assert(before[k] == c);
            } else if parts.len() == 1 || parts[parts.len() - 2] == PartView::Root {
                assert(last[k - before.len()] == c);
            } else if k > before.len() {
                assert(last[k - before.len() - 1] == c);
            }
        }
    }
}

/// A text without a character stays as it is where that character is replaced.
pub proof fn nothing_replaced(s: Seq<char>, from: char, to: Seq<char>)
    requires
        !s.contains(from),
    ensures
        text::replace_char(s, from, to) == s,
    decreases s.len(),
{
    if s.len() > 0 {
        let front = s.drop_last();
        assert(!front.contains(from)) by {
            if front.contains(from) {
                let k = choose|k: int| 0 <= k < front.len() && front[k] == from;
                assert(s[k] == from);
            }
        }
        nothing_replaced(front, from, to);
        assert(s[s.len() - 1] != from);
        assert(front.push(s.last()) =~= s);
    }
}

proof fn names_of_ups(parts: Seq<PartView>, c: Option<char>)
    ensures
        names_fit(ups(parts), c),
    decreases parts.len(),
{
    if parts.len() > 0 {
        names_of_ups(parts.drop_last(), c);
    }
}

proof fn names_of_extended(path: Seq<PartView>, parts: Seq<PartView>, c: Option<char>)
    requires
        names_fit(path, c),
        names_fit(parts, c),
    ensures
        names_fit(extended(path, parts), c),
    decreases parts.len(),
{
    if parts.len() > 0 {
        let front = parts.drop_last();
        assert(forall|i: int| 0 <= i < front.len() ==> front[i] == parts[i]);
        names_of_extended(path, front, c);
        assert(parts[parts.len() - 1] == parts.last());
    }
}

/// The path from a directory to a root holds no character that the root does not hold.
proof fn relative_names_fit(from: Seq<PartView>, to: Seq<PartView>, c: Option<char>)
    requires
        names_fit(to, c),
    ensures
        names_fit(relative(from, to), c),
{
    let shared = common(from, to);
    common_bounds(from, to);
    let down = to.skip(shared);
    assert forall|i: int| 0 <= i < down.len() implies match #[trigger] down[i] {
        PartView::Name(name) => good_name(name) && (c is Some ==> !name.contains(c->0)),
        _ => true,
    } by {
        assert(down[i] == to[i + shared]);
    }
    names_of_ups(from.skip(shared), c);
    names_of_extended(ups(from.skip(shared)), down, c);
}

/// Where no backslash stands in a directory and in a text, none stands in what the text means there.
pub proof fn plain_texts_mean_plain_root(dir: Seq<char>, value: Seq<char>)
    requires
        !dir.contains('\\'),
        !value.contains('\\'),
    ensures
        !written(resolved(dir, value)).contains('\\'),
{
    resolved_fits(dir, value, Some('\\'));
    written_without(resolved(dir, value), '\\');
}

/// Where no backslash stands in a root, none stands in the path that leads to it.
pub proof fn plain_root_has_plain_path(base_dir: Seq<char>, root: Seq<char>)
    requires
        !root.contains('\\'),
    ensures
        !path_to_root(base_dir, root).contains('\\'),
{
    parts_fit(root, Some('\\'));
    tidy_fits(parts_of(root), Some('\\'));
    let from = tidy(parts_of(base_dir));
    let to = tidy(parts_of(root));
    relative_names_fit(from, to, Some('\\'));
    written_without(relative(from, to), '\\');
}

/// The relative path between paths that are alike: it is read back, and it is not absolute.
proof fn relative_is_readable(from: Seq<PartView>, to: Seq<PartView>)
    requires
        alike(from, to),
        names_fit(to, None),
    ensures
        readable(relative(from, to)),
        relative(from, to).len() > 0,
        relative(from, to)[0] != PartView::Root,
{
    let shared = common(from, to);
    common_bounds(from, to);
    assert(from[0] == PartView::Root ==> shared >= 1) by {
        common_bounds(from.skip(1), to.skip(1));
    }
    let up = from.skip(shared);
    let down = to.skip(shared);
    assert forall|i: int| 0 <= i < up.len() implies (#[trigger] up[i]) is Name by {
        assert(up[i] == from[i + shared]);
    }
    assert forall|i: int| 0 <= i < down.len() implies (#[trigger] down[i]) is Name && good_name(
        down[i]->Name_0,
    ) by {
        assert(down[i] == to[i + shared]);
    }
    ups_of_names(up);
    extended_by_names(ups(up), down);
    let path = ups(up) + down;
    assert forall|i: int| 0 <= i < path.len() implies path[i] == PartView::Parent || (
    (#[trigger] path[i]) is Name && good_name(path[i]->Name_0)) by {
        if i >= ups(up).len() {
            assert(path[i] == down[i - ups(up).len()]);
        }
    }
}

/// Parts that begin with a root start afresh.
proof fn extended_afresh(path: Seq<PartView>, parts: Seq<PartView>)
    requires
        parts.len() > 0,
        parts[0] == PartView::Root,
        forall|i: int| 0 < i < parts.len() ==> (#[trigger] parts[i]) is Name,
    ensures
        extended(path, parts) == parts,
    decreases parts.len(),
{
    let front = parts.drop_last();
    assert(forall|i: int| 0 <= i < front.len() ==> front[i] == parts[i]);
    assert(parts[parts.len() - 1] == parts.last());
    if parts.len() > 1 {
        extended_afresh(path, front);
        assert(front.push(parts.last()) =~= parts);
    } else {
        assert(parts =~= seq![PartView::Root]);
    }
}

/// A path that is written down does not begin with a slash unless it begins with a root.
proof fn written_start(parts: Seq<PartView>)
    requires
        readable(parts),
        parts.len() > 0,
    ensures
        text::starts_with_char(written(parts), '/') <==> parts[0] == PartView::Root,
{
    dots();
    if parts.len() == 1 && parts[0] == PartView::Root {
        assert(written(parts.drop_last()) =~= Seq::<char>::empty());
        assert(written(parts) =~= seq!['/']);
    } else {
        written_is_joined(parts);
        let segments = segments_of(parts);
        first_of_joined(segments);
        assert(segments[0] == segment_of(parts[0]));
        if parts[0] != PartView::Root {
            assert(segments[0].len() > 0);
            if segments[0][0] == '/' {
                assert(segments[0].contains('/'));
            }
        }
    }
}

/// A dot behind parents is not read.
proof fn dot_behind_parents(n: nat)
    requires
        n > 0,
    ensures
        ({
            let parents = Seq::new(n, |i: int| PartView::Parent);
            let path = written(parents.push(PartView::Current));
            &&& parts_of(path) == parents
            &&& !text::starts_with_char(path, '/')
        }),
{
    dots();
    let parents = Seq::new(n, |i: int| PartView::Parent);
    let parts = parents.push(PartView::Current);
    let segments = segments_of(parents);
    let all = segments.push("."@);
    assert(parts.drop_last() =~= parents);
    written_is_joined(parents);
    assert(all.drop_last() =~= segments);
    assert(written(parts) == text::join(all, seq!['/'])) by {
        assert(parts[parts.len() - 2] == PartView::Parent);
        assert(all.last() == "."@);
    }
    assert forall|i: int| 0 <= i < all.len() implies !(#[trigger] all[i]).contains('/') by {
        if i < segments.len() {
            assert(all[i] == segment_of(parents[i]));
        }
    }
    text::split_undoes_join(all, '/');
    first_of_joined(all);
    assert(all[0] == segment_of(parents[0]));
    segments_read_back(Seq::empty(), parents);
    assert(read_segments(Seq::empty(), all) == read_segments(Seq::empty(), segments));
}

/// From a directory without a root to the empty path: up through all its names.
proof fn climbing_to_nothing(names: Seq<PartView>)
    requires
        names.len() > 0,
        clean(names),
        names[0] != PartView::Root,
    ensures
        relative(names, seq![PartView::Current]) == Seq::new(
            names.len(),
            |i: int| PartView::Parent,
        ).push(PartView::Current),
        continued_by(names, Seq::new(names.len(), |i: int| PartView::Parent)).len() == 0,
{
    let dot = seq![PartView::Current];
    let parents = Seq::new(names.len(), |i: int| PartView::Parent);
    assert(names[0] is Name);
    assert(common(names, dot) == 0);
    assert(names.skip(0) =~= names);
    assert(dot.skip(0) =~= dot);
    ups_of_names(names);
    assert(dot.drop_last() =~= Seq::<PartView>::empty());
    assert(extended(parents, dot.drop_last()) == parents);
    climbing_undoes_names(names, names.len());
}

/// From no directory at all to names: the parent leads nowhere else.
proof fn starting_from_nothing(names: Seq<PartView>)
    requires
        names.len() > 0,
        clean(names),
        names[0] != PartView::Root,
    ensures
        relative(seq![PartView::Current], names) == seq![PartView::Parent] + names,
        continued_by(Seq::empty(), seq![PartView::Parent] + names) == names,
{
    let dot = seq![PartView::Current];
    let up = seq![PartView::Parent];
    assert(names[0] is Name);
    assert(common(dot, names) == 0);
    assert(names.skip(0) =~= names);
    assert(dot.skip(0) =~= dot);
    assert(dot.drop_last() =~= Seq::<PartView>::empty());
    assert(up.drop_last() =~= Seq::<PartView>::empty());
    assert(ups(dot) =~= up) by {
        assert(ups(dot.drop_last()) =~= Seq::<PartView>::empty());
    }
    extended_by_names(up, names);
    continued_in_two(Seq::empty(), up, names);
    assert(continued_by(Seq::empty(), up.drop_last()) =~= Seq::<PartView>::empty());
    assert(continued_by(Seq::empty(), up) =~= Seq::<PartView>::empty());
    extended_by_names(Seq::empty(), names);
    assert(Seq::<PartView>::empty() + names =~= names);
}

/// A root is found again under the text that it is stored under: in the directory of the settings, the
/// stored text means the root. The directory may only be absolute where the root is, since a text
/// cannot lead out of an absolute directory to a path without a root; and no backslash may stand in
/// the path to the root, since it is stored as a slash.
pub proof fn stored_root_leads_back(base_dir: Seq<char>, root: Seq<char>)
    requires
        text::starts_with_char(base_dir, '/') ==> text::starts_with_char(root, '/'),
        !path_to_root(base_dir, root).contains('\\'),
    ensures
        resolved(base_dir, stored_root(base_dir, root)) == tidy(parts_of(root)),
{
    let base = parts_of(base_dir);
    let from = tidy(base);
    let to = tidy(parts_of(root));
    let path = relative(from, to);
    let dot = seq![PartView::Current];
    parts_fit(base_dir, None);
    parts_fit(root, None);
    tidy_fits(base, None);
    tidy_fits(parts_of(root), None);
    nothing_replaced(written(path), '\\', "/"@);
    continued_in_two(Seq::empty(), base, parts_of(written(path)));
    if to[0] == PartView::Root && from[0] != PartView::Root {
        assert(common(from, to) == 0);
        assert(from.skip(0) =~= from);
        assert(to.skip(0) =~= to);
        assert forall|i: int| 0 < i < to.len() implies (#[trigger] to[i]) is Name by {}
        extended_afresh(ups(from), to);
        written_start(path);
        written_path_reads_back(path);
    } else if to == dot && from == dot {
        assert(common(from.skip(1), to.skip(1)) == 0);
        assert(common(from, to) == 1);
        assert(from.skip(1) =~= Seq::<PartView>::empty());
        assert(to.skip(1) =~= Seq::<PartView>::empty());
        assert(ups(from.skip(1)) =~= Seq::<PartView>::empty());
        assert(extended(ups(from.skip(1)), to.skip(1)) =~= Seq::<PartView>::empty());
        assert(path == dot);
        written_start(path);
        written_path_reads_back(path);
        assert(dot.drop_last() =~= Seq::<PartView>::empty());
        assert(continued_by(Seq::empty(), dot.drop_last()) =~= Seq::<PartView>::empty());
        assert(continued_by(Seq::empty(), base) =~= Seq::<PartView>::empty());
    } else if to == dot {
        climbing_to_nothing(from);
        dot_behind_parents(from.len());
    } else if from == dot {
        starting_from_nothing(to);
        assert(readable(path)) by {
            assert forall|i: int| 0 < i < path.len() implies path[i] == #[trigger] to[i - 1] by {}
        }
        written_start(path);
        written_path_reads_back(path);
        assert(continued_by(Seq::empty(), base) =~= Seq::<PartView>::empty());
    } else {
        assert(alike(from, to));
        relative_is_readable(from, to);
        written_start(path);
        written_path_reads_back(path);
        relative_path_leads_back(from, to);
        continued_in_two(Seq::empty(), from, path);
        clean_is_kept(from);
    }
}

/// What a text means in a directory, once written down, is read back as it was, and it is absolute
/// where the text or the directory is.
pub proof fn resolved_root_reads_back(dir: Seq<char>, value: Seq<char>)
    ensures
        tidy(parts_of(written(resolved(dir, value)))) == resolved(dir, value),
        text::starts_with_char(written(resolved(dir, value)), '/') <==> text::starts_with_char(
            value,
            '/',
        ) || text::starts_with_char(dir, '/'),
{
    resolved_fits(dir, value, None);
    written_path_reads_back(resolved(dir, value));
    written_start(resolved(dir, value));
}

} // verus!
