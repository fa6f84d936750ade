use vstd::prelude::*;

verus! {

/// The mathematical value of one path component.
pub enum Part {
    CurDir,
    ParentDir,
    Normal(Seq<char>),
}

/// The mathematical value of a path: whether it starts at the root, and its
/// components after the root.
pub struct PathView {
    pub absolute: bool,
    pub parts: Seq<Part>,
}

/// One lexical component of a path.
#[derive(Debug, Clone, PartialEq, Eq)]
pub enum PathComponent {
    /// `.`
    CurDir,
    /// `..`
    ParentDir,
    /// An ordinary named segment.
    Normal(String),
}

/// A path held as its components. Nothing here touches the file system: an
/// absolute path starts at the root, a relative one at some directory.
#[derive(Debug, Clone, PartialEq, Eq)]
pub struct JvmsPath {
    pub absolute: bool,
    pub components: Vec<PathComponent>,
}

impl View for PathComponent {
    type V = Part;

    open spec fn view(&self) -> Part {
        match self {
            PathComponent::CurDir => Part::CurDir,
            PathComponent::ParentDir => Part::ParentDir,
            PathComponent::Normal(s) => Part::Normal(s@),
        }
    }
}

pub open spec fn parts_of(v: Seq<PathComponent>) -> Seq<Part> {
    v.map_values(|c: PathComponent| c@)
}

impl View for JvmsPath {
    type V = PathView;

    open spec fn view(&self) -> PathView {
        PathView { absolute: self.absolute, parts: parts_of(self.components@) }
    }
}

/// The stack after one more component has been read: `.` is dropped, `..`
/// cancels a named segment, vanishes at the root, and is kept otherwise.
pub open spec fn norm_step(absolute: bool, stack: Seq<Part>, c: Part) -> Seq<Part> {
    match c {
        Part::CurDir => stack,
        Part::ParentDir => {
            if stack.len() > 0 && stack.last() is Normal {
                stack.drop_last()
            } else if stack.len() == 0 && absolute {
                stack
            } else {
                stack.push(Part::ParentDir)
            }
        },
        Part::Normal(_) => stack.push(c),
    }
}

/// The stack after reading all of `s` from left to right.
pub open spec fn norm_parts(absolute: bool, s: Seq<Part>) -> Seq<Part>
    decreases s.len(),
{
    if s.len() == 0 {
        Seq::empty()
    } else {
        norm_step(absolute, norm_parts(absolute, s.drop_last()), s.last())
    }
}

/// The lexical normal form of a path; an empty relative result is `.`.
pub open spec fn normalize(p: PathView) -> PathView {
    let s = norm_parts(p.absolute, p.parts);
    PathView {
        absolute: p.absolute,
        parts: if !p.absolute && s.len() == 0 { seq![Part::CurDir] } else { s },
    }
}

/// `rel` read from the directory `base`.
pub open spec fn join(base: PathView, rel: PathView) -> PathView {
    if rel.absolute {
        rel
    } else {
        PathView { absolute: base.absolute, parts: base.parts + rel.parts }
    }
}

/// `p` made absolute against the working directory `cwd`, then normalized.
pub open spec fn absolutize(p: PathView, cwd: PathView) -> PathView {
    normalize(join(cwd, p))
}

/// `p` is `base` or lies below it, component by component.
pub open spec fn starts_with(p: PathView, base: PathView) -> bool {
    &&& p.absolute == base.absolute
    &&& base.parts.len() <= p.parts.len()
    &&& p.parts.subrange(0, base.parts.len() as int) == base.parts
}

/// A stack that reading can produce: no `.`, every `..` before every named
/// segment, and no `..` at all below the root.
pub open spec fn is_normal_stack(absolute: bool, s: Seq<Part>) -> bool {
    &&& forall|i: int| 0 <= i < s.len() ==> s[i] != Part::CurDir
    &&& forall|i: int, j: int|
        0 <= i < j < s.len() && s[j] == Part::ParentDir ==> s[i] == Part::ParentDir
    &&& absolute ==> forall|i: int| 0 <= i < s.len() ==> s[i] != Part::ParentDir
}

proof fn lemma_norm_parts_is_normal(absolute: bool, s: Seq<Part>)
    ensures
        is_normal_stack(absolute, norm_parts(absolute, s)),
    decreases s.len(),
{
    if s.len() > 0 {
        lemma_norm_parts_is_normal(absolute, s.drop_last());
        let st = norm_parts(absolute, s.drop_last());
        let r = norm_parts(absolute, s);
        if s.last() == Part::ParentDir && !(st.len() > 0 && st.last() is Normal) && !(st.len()
            == 0 && absolute) {
            assert forall|i: int, j: int|
                0 <= i < j < r.len() && r[j] == Part::ParentDir implies r[i] == Part::ParentDir by {
                if j == r.len() - 1 {
                    assert(st[st.len() - 1] == Part::ParentDir);
                }
            }
        }
    }
}

proof fn lemma_norm_parts_fixed(absolute: bool, s: Seq<Part>)
    requires
        is_normal_stack(absolute, s),
    ensures
        norm_parts(absolute, s) == s,
    decreases s.len(),
{
    if s.len() > 0 {
        let init = s.drop_last();
        assert(is_normal_stack(absolute, init));
        lemma_norm_parts_fixed(absolute, init);
        if s.last() == Part::ParentDir {
            if init.len() > 0 {
                assert(init[init.len() - 1] == Part::ParentDir);
            }
        }
        assert(init.push(s.last()) =~= s);
    }
}

/// Normalizing a second time changes nothing.
pub proof fn lemma_normalize_idempotent(p: PathView)
    ensures
        normalize(normalize(p)) == normalize(p),
{
    let s = norm_parts(p.absolute, p.parts);
    lemma_norm_parts_is_normal(p.absolute, p.parts);
    if !p.absolute && s.len() == 0 {
        let one = seq![Part::CurDir];
        assert(one.drop_last() =~= Seq::<Part>::empty());
        assert(norm_parts(p.absolute, one.drop_last()) == Seq::<Part>::empty());
        assert(one.last() == Part::CurDir);
        assert(norm_parts(p.absolute, one) == Seq::<Part>::empty());
    } else {
        lemma_norm_parts_fixed(p.absolute, s);
    }
}

/// Reading the same components after two equal stacks gives equal stacks.
proof fn lemma_same_state_then(absolute: bool, x: Seq<Part>, y: Seq<Part>, b: Seq<Part>)
    requires
        norm_parts(absolute, x) == norm_parts(absolute, y),
    ensures
        norm_parts(absolute, x + b) == norm_parts(absolute, y + b),
    decreases b.len(),
{
    if b.len() > 0 {
        lemma_same_state_then(absolute, x, y, b.drop_last());
        assert((x + b).drop_last() =~= x + b.drop_last());
        assert((y + b).drop_last() =~= y + b.drop_last());
    }
}

/// A `.` component anywhere makes no difference to the normal form.
pub proof fn lemma_cur_dir_vanishes(p: PathView, a: Seq<Part>, b: Seq<Part>)
    requires
        p.parts == a + seq![Part::CurDir] + b,
    ensures
        normalize(p) == normalize(PathView { absolute: p.absolute, parts: a + b }),
{
    let x = a + seq![Part::CurDir];
    assert(x.drop_last() =~= a);
    lemma_same_state_then(p.absolute, x, a, b);
}

/// A named segment followed by `..` cancels out, wherever it stands.
pub proof fn lemma_segment_then_parent_cancels(
    p: PathView,
    a: Seq<Part>,
    name: Seq<char>,
    b: Seq<Part>,
)
    requires
        p.parts == a + seq![Part::Normal(name), Part::ParentDir] + b,
    ensures
        normalize(p) == normalize(PathView { absolute: p.absolute, parts: a + b }),
{
    let x = a + seq![Part::Normal(name), Part::ParentDir];
    assert(x.drop_last() =~= a.push(Part::Normal(name)));
    assert(a.push(Part::Normal(name)).drop_last() =~= a);
    let st = norm_parts(p.absolute, a).push(Part::Normal(name));
    assert(norm_parts(p.absolute, a.push(Part::Normal(name))) == st);
    assert(x.last() == Part::ParentDir);
    assert(st.last() == Part::Normal(name));
    assert(st.drop_last() =~= norm_parts(p.absolute, a));
    assert(norm_parts(p.absolute, x) == norm_parts(p.absolute, a));
    lemma_same_state_then(p.absolute, x, a, b);
}

proof fn lemma_root_parent_parts(rest: Seq<Part>)
    ensures
        norm_parts(true, seq![Part::ParentDir] + rest) == norm_parts(true, rest),
    decreases rest.len(),
{
    let s = seq![Part::ParentDir] + rest;
    if rest.len() == 0 {
        assert(s.drop_last() =~= Seq::<Part>::empty());
        assert(norm_parts(true, s.drop_last()) == Seq::<Part>::empty());
        assert(s.last() == Part::ParentDir);
        assert(rest =~= Seq::<Part>::empty());
    } else {
        lemma_root_parent_parts(rest.drop_last());
        assert(s.drop_last() =~= seq![Part::ParentDir] + rest.drop_last());
        assert(s.last() == rest.last());
    }
}

/// Going up from the root stays at the root: `/../x` is `/x`.
pub proof fn lemma_parent_of_root_is_root(rest: Seq<Part>)
    ensures
        normalize(PathView { absolute: true, parts: seq![Part::ParentDir] + rest }) == normalize(
            PathView { absolute: true, parts: rest },
        ),
{
    lemma_root_parent_parts(rest);
}

impl PathComponent {
    /// A copy with the same value.
    pub fn duplicate(&self) -> (r: PathComponent)
        ensures
            r@ == self@,
    {
        match self {
            PathComponent::CurDir => PathComponent::CurDir,
            PathComponent::ParentDir => PathComponent::ParentDir,
            PathComponent::Normal(s) => PathComponent::Normal(s.clone()),
        }
    }

    /// Whether two components are the same.
    pub fn same_as(&self, other: &PathComponent) -> (r: bool)
        ensures
            r == (self@ == other@),
    {
        match self {
            PathComponent::CurDir => match other {
                PathComponent::CurDir => true,
                _ => false,
            },
            PathComponent::ParentDir => match other {
                PathComponent::ParentDir => true,
                _ => false,
            },
            PathComponent::Normal(a) => match other {
                PathComponent::Normal(b) => {
                    let eq = a.eq(b);
                    proof {
                        if eq {
                            assert(self@ == Part::Normal(a@));
                        }
                    }
                    eq
                },
                _ => false,
            },
        }
    }
}

/// Appends copies of `from` to `to`.
fn append_copies(to: &mut Vec<PathComponent>, from: &Vec<PathComponent>)
    ensures
        parts_of(final(to)@) == parts_of(old(to)@) + parts_of(from@),
{
    let ghost start = parts_of(to@);
    let mut i: usize = 0;
    while i < from.len()
        invariant
            0 <= i <= from@.len(),
            parts_of(to@) == start + parts_of(from@).take(i as int),
        decreases from@.len() - i,
    {
        let c = from[i].duplicate();
        let ghost before = to@;
        to.push(c);
        assert(parts_of(to@) =~= parts_of(before).push(c@));
        assert(parts_of(from@).take(i + 1) =~= parts_of(from@).take(i as int).push(c@));
        i = i + 1;
    }
    assert(parts_of(from@).take(i as int) =~= parts_of(from@));
}

impl JvmsPath {
    /// A copy with the same value.
    pub fn duplicate(&self) -> (r: JvmsPath)
        ensures
            r@ == self@,
    {
        let mut components: Vec<PathComponent> = Vec::new();
        append_copies(&mut components, &self.components);
        assert(parts_of(Seq::<PathComponent>::empty()) + self@.parts =~= self@.parts);
        JvmsPath { absolute: self.absolute, components }
    }

    /// Whether the two paths have the same components.
    pub fn same_path(&self, other: &JvmsPath) -> (r: bool)
        ensures
            r == (self@ == other@),
    {
        if self.absolute != other.absolute || self.components.len() != other.components.len() {
            assert(self@.parts.len() == self.components@.len());
            assert(other@.parts.len() == other.components@.len());
            return false;
        }
        let n = self.components.len();
        let mut i: usize = 0;
        while i < n
            invariant
                0 <= i <= n,
                n == self.components@.len(),
                n == other.components@.len(),
                forall|j: int| 0 <= j < i ==> self@.parts[j] == other@.parts[j],
            decreases n - i,
        {
            if !self.components[i].same_as(&other.components[i]) {
                assert(self@.parts[i as int] != other@.parts[i as int]);
                return false;
            }
            i = i + 1;
        }
        assert(self@.parts =~= other@.parts);
        true
    }

    /// Whether this path is `base` or lies below it, compared component by
    /// component (so `/foobar` does not start with `/foo`).
    pub fn starts_with(&self, base: &JvmsPath) -> (r: bool)
        ensures
            r == starts_with(self@, base@),
    {
        if self.absolute != base.absolute || base.components.len() > self.components.len() {
            return false;
        }
        let n = base.components.len();
        let mut i: usize = 0;
        while i < n
            invariant
                0 <= i <= n,
                n == base.components@.len(),
                n <= self.components@.len(),
                forall|j: int| 0 <= j < i ==> self@.parts[j] == base@.parts[j],
            decreases n - i,
        {
            if !self.components[i].same_as(&base.components[i]) {
                assert(self@.parts.subrange(0, n as int)[i as int] != base@.parts[i as int]);
                return false;
            }
            i = i + 1;
        }
        assert(self@.parts.subrange(0, n as int) =~= base@.parts);
        true
    }

    /// This path with one more named segment at its end.
    pub fn child(&self, name: String) -> (r: JvmsPath)
        ensures
            r@ == (PathView { absolute: self@.absolute, parts: self@.parts.push(Part::Normal(name@)) }),
    {
        let mut components: Vec<PathComponent> = Vec::new();
        append_copies(&mut components, &self.components);
        let ghost before = components@;
        components.push(PathComponent::Normal(name));
        assert(parts_of(components@) =~= parts_of(before).push(Part::Normal(name@)));
        assert(parts_of(Seq::<PathComponent>::empty()) + parts_of(self.components@) =~= self@.parts);
        JvmsPath { absolute: self.absolute, components }
    }
}

/// The lexical normal form of `path`: `.` components are dropped, each `..`
/// cancels the named segment before it, `..` at the root vanishes, and any
/// other `..` is kept. An empty relative result becomes `.`.
pub fn normalize_path(path: &JvmsPath) -> (r: JvmsPath)
    ensures
        r@ == normalize(path@),
{
    let ghost src = path@.parts;
    let mut stack: Vec<PathComponent> = Vec::new();
    let n = path.components.len();
    let mut i: usize = 0;
    while i < n
        invariant
            0 <= i <= n,
            n == path.components@.len(),
            src == path@.parts,
            parts_of(stack@) == norm_parts(path.absolute, src.take(i as int)),
        decreases n - i,
    {
        let ghost before = stack@;
        assert(src.take(i + 1).drop_last() =~= src.take(i as int));
        match &path.components[i] {
            PathComponent::CurDir => {},
            PathComponent::ParentDir => {
                let len = stack.len();
                if len == 0 {
                    if !path.absolute {
                        stack.push(PathComponent::ParentDir);
                        assert(parts_of(stack@) =~= parts_of(before).push(Part::ParentDir));
                    }
                } else {
                    let top_is_normal = match &stack[len - 1] {
                        PathComponent::Normal(_) => true,
                        _ => false,
                    };
                    if top_is_normal {
                        stack.pop();
                        assert(parts_of(stack@) =~= parts_of(before).drop_last());
                    } else {
                        stack.push(PathComponent::ParentDir);
                        assert(parts_of(stack@) =~= parts_of(before).push(Part::ParentDir));
                    }
                }
            },
            PathComponent::Normal(s) => {
                stack.push(PathComponent::Normal(s.clone()));
                assert(parts_of(stack@) =~= parts_of(before).push(Part::Normal(s@)));
            },
        }
        i = i + 1;
    }
    assert(src.take(n as int) =~= src);
    if stack.len() == 0 && !path.absolute {
        stack.push(PathComponent::CurDir);
        assert(parts_of(stack@) =~= seq![Part::CurDir]);
    }
    JvmsPath { absolute: path.absolute, components: stack }
}

/// `path` made absolute against the working directory `current_dir` (kept
/// as it is when already absolute), then normalized.
pub fn make_absolute(path: &JvmsPath, current_dir: &JvmsPath) -> (r: JvmsPath)
    ensures
        r@ == absolutize(path@, current_dir@),
{
    if path.absolute {
        normalize_path(path)
    } else {
        let mut components: Vec<PathComponent> = Vec::new();
        append_copies(&mut components, &current_dir.components);
        append_copies(&mut components, &path.components);
        assert(parts_of(Seq::<PathComponent>::empty()) =~= Seq::<Part>::empty());
        assert(Seq::<Part>::empty() + current_dir@.parts =~= current_dir@.parts);
        let joined = JvmsPath { absolute: current_dir.absolute, components };
        normalize_path(&joined)
    }
}

} // verus!
