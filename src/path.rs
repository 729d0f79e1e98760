//! Lexical paths: parsing a path string into components, rendering them back,
//! collapsing `.` and `..`, and computing one path relative to another.
//! Nothing here touches the filesystem.

use vstd::prelude::*;
use vstd::string::*;

verus! {

/// One component of a path, as a mathematical value.
pub enum Part {
    Root,
    Current,
    Parent,
    Named(Seq<char>),
}

/// One component of a path.
#[derive(Debug)]
pub enum Component {
    /// The leading `/` of an absolute path.
    RootDir,
    /// A leading `.` of a relative path.
    CurDir,
    /// A `..` component.
    ParentDir,
    /// Any other non-empty segment, verbatim.
    Normal(String),
}

impl View for Component {
    type V = Part;

    open spec fn view(&self) -> Part {
        match self {
            Component::RootDir => Part::Root,
            Component::CurDir => Part::Current,
            Component::ParentDir => Part::Parent,
            Component::Normal(s) => Part::Named(s@),
        }
    }
}

/// The segments of `s` between `/` separators, empty ones included.
pub open spec fn split_segments(s: Seq<char>) -> Seq<Seq<char>>
    decreases s.len(),
{
    if s.len() == 0 {
        seq![Seq::<char>::empty()]
    } else {
        let prev = split_segments(s.drop_last());
        if s.last() == '/' {
            prev.push(Seq::<char>::empty())
        } else {
            prev.update(prev.len() - 1, prev.last().push(s.last()))
        }
    }
}

/// Every text has at least one segment.
pub proof fn lemma_split_nonempty(s: Seq<char>)
    ensures
        split_segments(s).len() >= 1,
    decreases s.len(),
{
    if s.len() > 0 {
        lemma_split_nonempty(s.drop_last());
    }
}

/// What one segment contributes to the component sequence.
pub open spec fn part_of_segment(seg: Seq<char>) -> Seq<Part> {
    if seg.len() == 0 || seg == seq!['.'] {
        seq![]
    } else if seg == seq!['.', '.'] {
        seq![Part::Parent]
    } else {
        seq![Part::Named(seg)]
    }
}

pub open spec fn parts_of_segments(segs: Seq<Seq<char>>) -> Seq<Part>
    decreases segs.len(),
{
    if segs.len() == 0 {
        seq![]
    } else {
        parts_of_segments(segs.drop_last()) + part_of_segment(segs.last())
    }
}

pub open spec fn starts_at_root(s: Seq<char>) -> bool {
    s.len() > 0 && s[0] == '/'
}

/// The component that stands before the segments: the root of an absolute
/// path, or the `.` that a relative path starts with.
pub open spec fn leading_part(rooted: bool, segs: Seq<Seq<char>>) -> Seq<Part> {
    if rooted {
        seq![Part::Root]
    } else if segs.len() > 0 && segs[0] == seq!['.'] {
        seq![Part::Current]
    } else {
        seq![]
    }
}

/// The components of a path string: a leading root or `.`, then one
/// component for each segment that is neither empty nor `.`.
pub open spec fn parse_parts(s: Seq<char>) -> Seq<Part> {
    let segs = split_segments(s);
    leading_part(starts_at_root(s), segs) + parts_of_segments(segs)
}

/// A path held as its sequence of components.
#[derive(Debug)]
pub struct LogicalPath {
    pub comps: Vec<Component>,
}

impl View for LogicalPath {
    type V = Seq<Part>;

    open spec fn view(&self) -> Seq<Part> {
        self.comps@.map_values(|c: Component| c@)
    }
}

/// Appends the component that the segment `s[start..end]` stands for.
fn segment_component(s: &str, start: usize, end: usize, comps: &mut Vec<Component>)
    requires
        start <= end <= s@.len(),
    ensures
        final(comps)@.map_values(|c: Component| c@) == old(comps)@.map_values(|c: Component| c@)
            + part_of_segment(s@.subrange(start as int, end as int)),
{
    let ghost seg = s@.subrange(start as int, end as int);
    let len = end - start;
    if len == 0 {
        assert(old(comps)@.map_values(|c: Component| c@) + part_of_segment(seg) =~= old(comps)@.map_values(|c: Component| c@));
        return;
    }
    let c0 = s.get_char(start);
    if len == 1 && c0 == '.' {
        assert(seg =~= seq!['.']);
        assert(old(comps)@.map_values(|c: Component| c@) + part_of_segment(seg) =~= old(comps)@.map_values(|c: Component| c@));
        return;
    }
    if len == 2 && c0 == '.' && s.get_char(start + 1) == '.' {
        assert(seg =~= seq!['.', '.']);
        comps.push(Component::ParentDir);
        assert(final(comps)@.map_values(|c: Component| c@) =~= old(comps)@.map_values(|c: Component| c@) + part_of_segment(seg));
        return;
    }
    assert(seg != seq!['.']) by {
        if len == 1 { assert(seg[0] == c0); } else { assert(seg.len() != 1); }
    }
    assert(seg != seq!['.', '.']) by {
        if len == 2 {
            if c0 == '.' { assert(seg[1] == s@[start + 1]); } else { assert(seg[0] == c0); }
        } else { assert(seg.len() != 2); }
    }
    let text = String::from_str(s.substring_char(start, end));
    comps.push(Component::Normal(text));
    assert(final(comps)@.map_values(|c: Component| c@) =~= old(comps)@.map_values(|c: Component| c@) + part_of_segment(seg));
}

impl LogicalPath {
    /// Splits a path string into its components, as `std::path::Path`
    /// does on Unix: separators are `/`, empty segments and `.` segments
    /// vanish, save a `.` at the start of a relative path.
    pub fn parse(s: &str) -> (r: LogicalPath)
        ensures
            r@ == parse_parts(s@),
    {
        let n = s.unicode_len();
        let mut comps: Vec<Component> = Vec::new();
        let rooted = n > 0 && s.get_char(0) == '/';
        if rooted {
            comps.push(Component::RootDir);
        }
        let ghost mut closed: Seq<Seq<char>> = seq![];
        let mut start: usize = 0;
        let mut first = true;
        let mut i: usize = 0;
        assert(s@.take(0) =~= seq![]);
        while i < n
            invariant
                n == s@.len(),
                start <= i <= n,
                first == (closed.len() == 0),
                rooted == starts_at_root(s@),
                split_segments(s@.take(i as int)) == closed.push(s@.subrange(start as int, i as int)),
                comps@.map_values(|c: Component| c@) == leading_part(rooted, closed)
                    + parts_of_segments(closed),
            decreases n - i,
        {
            let c = s.get_char(i);
            assert(s@.take(i + 1).drop_last() =~= s@.take(i as int));
            if c == '/' {
                let ghost seg = s@.subrange(start as int, i as int);
                if !rooted && first && i - start == 1 && s.get_char(start) == '.' {
                    assert(seg =~= seq!['.']);
                    comps.push(Component::CurDir);
                }
                segment_component(s, start, i, &mut comps);
                proof {
                    let nc = closed.push(seg);
                    assert(nc.drop_last() =~= closed);
                    if !rooted && closed.len() == 0 {
                        assert(nc[0] == seg);
                        if !(i - start == 1 && s@[start as int] == '.') {
                            assert(seg != seq!['.']) by {
                                if seg.len() == 1 { assert(seg[0] == s@[start as int]); }
                            }
                        }
                    }
                    if closed.len() > 0 {
                        assert(nc[0] == closed[0]);
                    }
                    assert(parts_of_segments(nc) == parts_of_segments(closed) + part_of_segment(seg));
                    assert(comps@.map_values(|c: Component| c@) =~= leading_part(rooted, nc)
                        + parts_of_segments(nc));
                    closed = nc;
                }
                start = i + 1;
                first = false;
                assert(s@.subrange(start as int, i + 1) =~= seq![]);
            } else {
                assert(s@.subrange(start as int, i + 1) =~= s@.subrange(start as int, i as int).push(c));
            }
            i = i + 1;
        }
        let ghost seg = s@.subrange(start as int, n as int);
        if !rooted && first && n - start == 1 && s.get_char(start) == '.' {
            assert(seg =~= seq!['.']);
            comps.push(Component::CurDir);
        }
        segment_component(s, start, n, &mut comps);
        proof {
            let nc = closed.push(seg);
            assert(s@.take(n as int) =~= s@);
            assert(nc.drop_last() =~= closed);
            if !rooted && closed.len() == 0 {
                assert(nc[0] == seg);
                if !(n - start == 1 && s@[start as int] == '.') {
                    assert(seg != seq!['.']) by {
                        if seg.len() == 1 { assert(seg[0] == s@[start as int]); }
                    }
                }
            }
            if closed.len() > 0 {
                assert(nc[0] == closed[0]);
            }
            assert(parts_of_segments(nc) == parts_of_segments(closed) + part_of_segment(seg));
            assert(comps@.map_values(|c: Component| c@) =~= leading_part(rooted, nc)
                + parts_of_segments(nc));
        }
        LogicalPath { comps }
    }
}

/// The text that a component renders as.
pub open spec fn part_text(p: Part) -> Seq<char> {
    match p {
        Part::Root => seq!['/'],
        Part::Current => seq!['.'],
        Part::Parent => seq!['.', '.'],
        Part::Named(t) => t,
    }
}

pub open spec fn texts_of(ps: Seq<Part>) -> Seq<Seq<char>> {
    ps.map_values(|p: Part| part_text(p))
}

/// The texts joined by single `/` separators.
pub open spec fn join_texts(ts: Seq<Seq<char>>) -> Seq<char>
    decreases ts.len(),
{
    if ts.len() == 0 {
        seq![]
    } else if ts.len() == 1 {
        ts[0]
    } else {
        ts[0] + seq!['/'] + join_texts(ts.skip(1))
    }
}

/// Joining one more text appends a separator and the text.
pub proof fn lemma_join_push(ts: Seq<Seq<char>>, t: Seq<char>)
    requires
        ts.len() >= 1,
    ensures
        join_texts(ts.push(t)) == join_texts(ts) + seq!['/'] + t,
    decreases ts.len(),
{
    if ts.len() == 1 {
        assert(ts.push(t).skip(1) =~= seq![t]);
        assert(ts.push(t)[0] == ts[0]);
        assert(join_texts(seq![t]) == t);
    } else {
        assert(ts.push(t).skip(1) =~= ts.skip(1).push(t));
        lemma_join_push(ts.skip(1), t);
        assert(ts.push(t)[0] == ts[0]);
    }
}

pub open spec fn is_absolute_parts(ps: Seq<Part>) -> bool {
    ps.len() > 0 && ps[0] is Root
}

/// The text of a component sequence: the root as a leading `/`, the other
/// components joined by `/`.
pub open spec fn render_parts(ps: Seq<Part>) -> Seq<char> {
    if is_absolute_parts(ps) {
        seq!['/'] + join_texts(texts_of(ps.skip(1)))
    } else {
        join_texts(texts_of(ps))
    }
}

/// One step of the lexical collapse: `.` is dropped, `..` cancels the
/// component before it unless there is none or it is itself `..`.
pub open spec fn collapse_step(stack: Seq<Part>, p: Part) -> Seq<Part> {
    match p {
        Part::Current => stack,
        Part::Parent => if stack.len() == 0 || stack.last() is Parent {
            stack.push(Part::Parent)
        } else {
            stack.drop_last()
        },
        _ => stack.push(p),
    }
}

pub open spec fn collapse_parts(ps: Seq<Part>) -> Seq<Part>
    decreases ps.len(),
{
    if ps.len() == 0 {
        seq![]
    } else {
        collapse_step(collapse_parts(ps.drop_last()), ps.last())
    }
}

/// The lexical normal form of a path string, or nothing when no component
/// is left (the joined path would be the empty string).
pub open spec fn normalize_text(s: Seq<char>) -> Option<Seq<Part>> {
    let ps = collapse_parts(parse_parts(s));
    if ps.len() == 0 {
        None
    } else {
        Some(ps)
    }
}

pub open spec fn option_parts(o: Option<LogicalPath>) -> Option<Seq<Part>> {
    match o {
        Some(p) => Some(p@),
        None => None,
    }
}

pub open spec fn parent_parts(n: nat) -> Seq<Part> {
    Seq::new(n, |i: int| Part::Parent)
}

/// The walk over two component sequences that finds the relative path:
/// `acc` holds what has been emitted so far.
pub open spec fn relative_walk(d: Seq<Part>, b: Seq<Part>, acc: Seq<Part>) -> Option<Seq<Part>>
    decreases d.len(),
{
    if d.len() == 0 {
        Some(acc + parent_parts(b.len()))
    } else if b.len() == 0 {
        Some(acc + d)
    } else if acc.len() == 0 && d[0] == b[0] {
        relative_walk(d.skip(1), b.skip(1), acc)
    } else if b[0] is Current {
        relative_walk(d.skip(1), b.skip(1), acc.push(d[0]))
    } else if b[0] is Parent {
        None
    } else {
        Some(acc + parent_parts(b.len()) + d)
    }
}

/// The path that leads from `base` to `dst`, if there is one.
pub open spec fn relative_parts(dst: Seq<Part>, base: Seq<Part>) -> Option<Seq<Part>> {
    if is_absolute_parts(base) != is_absolute_parts(dst) {
        if is_absolute_parts(dst) {
            Some(dst)
        } else {
            None
        }
    } else {
        relative_walk(dst, base, seq![])
    }
}

impl Component {
    pub fn copy(&self) -> (r: Component)
        ensures
            r@ == self@,
    {
        match self {
            Component::RootDir => Component::RootDir,
            Component::CurDir => Component::CurDir,
            Component::ParentDir => Component::ParentDir,
            Component::Normal(s) => Component::Normal(s.clone()),
        }
    }

    pub fn same(&self, other: &Component) -> (r: bool)
        ensures
            r == (self@ == other@),
    {
        match (self, other) {
            (Component::RootDir, Component::RootDir) => true,
            (Component::CurDir, Component::CurDir) => true,
            (Component::ParentDir, Component::ParentDir) => true,
            (Component::Normal(a), Component::Normal(b)) => a.eq(b),
            _ => false,
        }
    }

    pub fn is_parent(&self) -> (r: bool)
        ensures
            r == (self@ is Parent),
    {
        match self {
            Component::ParentDir => true,
            _ => false,
        }
    }

    /// Appends the text of this component to `out`.
    pub fn push_text(&self, out: &mut String)
        ensures
            final(out)@ == old(out)@ + part_text(self@),
    {
        match self {
            Component::RootDir => {
                proof { reveal_strlit("/"); }
                out.append("/");
            },
            Component::CurDir => {
                proof { reveal_strlit("."); }
                out.append(".");
            },
            Component::ParentDir => {
                proof { reveal_strlit(".."); }
                out.append("..");
            },
            Component::Normal(s) => {
                out.append(s.as_str());
            },
        }
    }
}

/// Appends copies of `v[from..to]` to `out`.
fn copy_components(v: &Vec<Component>, from: usize, to: usize, out: &mut Vec<Component>)
    requires
        from <= to <= v@.len(),
    ensures
        final(out)@.map_values(|c: Component| c@) == old(out)@.map_values(|c: Component| c@)
            + v@.map_values(|c: Component| c@).subrange(from as int, to as int),
{
    let mut i = from;
    while i < to
        invariant
            from <= i <= to <= v@.len(),
            out@.map_values(|c: Component| c@) == old(out)@.map_values(|c: Component| c@)
                + v@.map_values(|c: Component| c@).subrange(from as int, i as int),
        decreases to - i,
    {
        let ghost before = out@.map_values(|c: Component| c@);
        out.push(v[i].copy());
        assert(out@.map_values(|c: Component| c@) =~= before.push(v@[i as int]@));
        assert(v@.map_values(|c: Component| c@).subrange(from as int, i + 1) =~= v@.map_values(|c: Component| c@).subrange(from as int, i as int).push(v@[i as int]@));
        assert(out@.map_values(|c: Component| c@) =~= old(out)@.map_values(|c: Component| c@)
            + v@.map_values(|c: Component| c@).subrange(from as int, i + 1));
        i = i + 1;
    }
}

impl LogicalPath {
    pub fn new() -> (r: LogicalPath)
        ensures
            r@ == Seq::<Part>::empty(),
    {
        LogicalPath { comps: Vec::new() }
    }

    pub fn copy(&self) -> (r: LogicalPath)
        ensures
            r@ == self@,
    {
        let mut comps: Vec<Component> = Vec::new();
        copy_components(&self.comps, 0, self.comps.len(), &mut comps);
        assert(self@.subrange(0, self@.len() as int) =~= self@);
        assert(comps@.map_values(|c: Component| c@) =~= self@);
        LogicalPath { comps }
    }

    pub fn is_absolute(&self) -> (r: bool)
        ensures
            r == is_absolute_parts(self@),
    {
        self.comps.len() > 0 && match &self.comps[0] {
            Component::RootDir => true,
            _ => false,
        }
    }

    /// Component-wise equality.
    pub fn same(&self, other: &LogicalPath) -> (r: bool)
        ensures
            r == (self@ == other@),
    {
        assert(self@.len() == self.comps@.len());
        assert(other@.len() == other.comps@.len());
        if self.comps.len() != other.comps.len() {
            return false;
        }
        let mut i: usize = 0;
        while i < self.comps.len()
            invariant
                self.comps@.len() == other.comps@.len(),
                i <= self.comps@.len(),
                forall|k: int| 0 <= k < i ==> self@[k] == other@[k],
            decreases self.comps@.len() - i,
        {
            assert(self@[i as int] == self.comps@[i as int]@);
            assert(other@[i as int] == other.comps@[i as int]@);
            if !self.comps[i].same(&other.comps[i]) {
                return false;
            }
            i = i + 1;
        }
        assert(self@ =~= other@);
        true
    }

    /// The path as text: the root as a leading `/`, the other components
    /// joined by `/`.
    pub fn render(&self) -> (r: String)
        ensures
            r@ == render_parts(self@),
    {
        let mut out = String::new();
        let n = self.comps.len();
        let abs = self.is_absolute();
        let mut k: usize = 0;
        if abs {
            proof { reveal_strlit("/"); }
            out.append("/");
            k = 1;
        }
        let ghost prefix = out@;
        let ghost ts = if abs { texts_of(self@.skip(1)) } else { texts_of(self@) };
        let mut i = k;
        while i < n
            invariant
                n == self@.len(),
                k <= i <= n,
                k == (if abs { 1int } else { 0int }),
                abs == is_absolute_parts(self@),
                ts == (if abs { texts_of(self@.skip(1)) } else { texts_of(self@) }),
                out@ == prefix + join_texts(ts.take(i - k)),
            decreases n - i,
        {
            proof {
                assert(ts.take(i - k + 1) =~= ts.take(i - k).push(ts[i - k]));
                assert(ts[i - k] == part_text(self@[i as int]));
                if i > k {
                    lemma_join_push(ts.take(i - k), ts[i - k]);
                } else {
                    assert(ts.take(0) =~= seq![]);
                }
            }
            if i > k {
                proof { reveal_strlit("/"); }
                out.append("/");
            }
            self.comps[i].push_text(&mut out);
            proof {
                if i == k {
                    assert(join_texts(ts.take(1)) == ts[0]);
                    assert(prefix + join_texts(ts.take(0)) =~= prefix);
                }
                assert(out@ =~= prefix + join_texts(ts.take(i - k + 1)));
            }
            i = i + 1;
        }
        assert(ts.take(n - k) =~= ts);
        proof {
            if abs { reveal_strlit("/"); assert(prefix == seq!['/']); } else { assert(prefix =~= seq![]); }
        }
        out
    }
}

/// Collapses `.` and `..` in a component sequence.
pub fn collapse(path: &LogicalPath) -> (r: LogicalPath)
    ensures
        r@ == collapse_parts(path@),
{
    let mut stack: Vec<Component> = Vec::new();
    let n = path.comps.len();
    let mut i: usize = 0;
    while i < n
        invariant
            n == path@.len(),
            i <= n,
            stack@.map_values(|c: Component| c@) == collapse_parts(path@.take(i as int)),
        decreases n - i,
    {
        let ghost before = stack@.map_values(|c: Component| c@);
        assert(path@.take(i + 1).drop_last() =~= path@.take(i as int));
        let c = &path.comps[i];
        match c {
            Component::CurDir => {},
            Component::ParentDir => {
                let slen = stack.len();
                if slen == 0 || stack[slen - 1].is_parent() {
                    stack.push(Component::ParentDir);
                    assert(stack@.map_values(|c: Component| c@) =~= before.push(Part::Parent));
                } else {
                    stack.pop();
                    assert(stack@.map_values(|c: Component| c@) =~= before.drop_last());
                }
            },
            _ => {
                stack.push(c.copy());
                assert(stack@.map_values(|c: Component| c@) =~= before.push(c@));
            },
        }
        i = i + 1;
    }
    assert(path@.take(n as int) =~= path@);
    LogicalPath { comps: stack }
}

/// Normalizes a path string lexically: `.` components vanish, `..` cancels
/// the nearest preceding component that is not itself `..`, and no file
/// system is consulted. Returns `None` when nothing is left.
pub fn naively_normalize_path(path: &str) -> (r: Option<LogicalPath>)
    ensures
        option_parts(r) == normalize_text(path@),
{
    let parsed = LogicalPath::parse(path);
    let collapsed = collapse(&parsed);
    if collapsed.comps.len() == 0 {
        None
    } else {
        Some(collapsed)
    }
}

/// The path that, appended to `base`, names `dst`, computed without the
/// file system (as `os.path.relpath` does). Where exactly one of the two is
/// absolute, only an absolute `dst` is returned as it is; a `..` in `base`
/// past the point where the two part yields `None`.
pub fn relative_path_from(dst: &LogicalPath, base: &LogicalPath) -> (r: Option<LogicalPath>)
    ensures
        option_parts(r) == relative_parts(dst@, base@),
{
    let dst_abs = dst.is_absolute();
    if base.is_absolute() != dst_abs {
        if dst_abs {
            return Some(dst.copy());
        } else {
            return None;
        }
    }
    let dn = dst.comps.len();
    let bn = base.comps.len();
    let mut acc: Vec<Component> = Vec::new();
    let mut i: usize = 0;
    let mut j: usize = 0;
    assert(acc@.map_values(|c: Component| c@) =~= seq![]);
    assert(dst@.skip(0) =~= dst@);
    assert(base@.skip(0) =~= base@);
    while i < dn && j < bn
        invariant
            dn == dst@.len(),
            bn == base@.len(),
            i <= dn,
            j <= bn,
            i == j,
            is_absolute_parts(base@) == is_absolute_parts(dst@),
            relative_walk(dst@.skip(i as int), base@.skip(j as int), acc@.map_values(|c: Component| c@))
                == relative_walk(dst@, base@, seq![]),
        decreases dn - i,
    {
        let ghost a = acc@.map_values(|c: Component| c@);
        let ghost d = dst@.skip(i as int);
        let ghost b = base@.skip(j as int);
        assert(d.skip(1) =~= dst@.skip(i + 1));
        assert(b.skip(1) =~= base@.skip(j + 1));
        let dc = &dst.comps[i];
        let bc = &base.comps[j];
        assert(d[0] == dst.comps@[i as int]@);
        assert(b[0] == base.comps@[j as int]@);
        if acc.len() == 0 && dc.same(bc) {
        } else {
            match bc {
                Component::CurDir => {
                    let ghost before = acc@.map_values(|c: Component| c@);
                    acc.push(dc.copy());
                    assert(acc@.map_values(|c: Component| c@) =~= before.push(d[0]));
                },
                Component::ParentDir => {
                    assert(d.len() > 0 && b.len() > 0);
                    assert(!(a.len() == 0 && d[0] == b[0]));
                    assert(b[0] is Parent);
                    assert(relative_walk(d, b, a) is None);
                    return None;
                },
                _ => {
                    let mut k = j;
                    while k < bn
                        invariant
                            j <= k <= bn,
                            acc@.map_values(|c: Component| c@) == a + parent_parts((k - j) as nat),
                        decreases bn - k,
                    {
                        let ghost before = acc@.map_values(|c: Component| c@);
                        acc.push(Component::ParentDir);
                        assert(acc@.map_values(|c: Component| c@) =~= before.push(Part::Parent));
                        assert(acc@.map_values(|c: Component| c@) =~= a + parent_parts((k + 1 - j) as nat));
                        k = k + 1;
                    }
                    copy_components(&dst.comps, i, dn, &mut acc);
                    assert(dst@.subrange(i as int, dn as int) =~= d);
                    assert(b.len() == bn - j);
                    assert(d.len() > 0 && b.len() > 0);
                    assert(!(a.len() == 0 && d[0] == b[0]));
                    assert(!(b[0] is Parent) && !(b[0] is Current));
                    assert(relative_walk(d, b, a) == Some(a + parent_parts(b.len()) + d));
                    return Some(LogicalPath { comps: acc });
                },
            }
        }
        i = i + 1;
        j = j + 1;
    }
    let ghost a = acc@.map_values(|c: Component| c@);
    if i < dn {
        copy_components(&dst.comps, i, dn, &mut acc);
        assert(dst@.subrange(i as int, dn as int) =~= dst@.skip(i as int));
        assert(base@.skip(j as int).len() == 0);
    } else {
        let mut k = j;
        while k < bn
            invariant
                j <= k <= bn,
                acc@.map_values(|c: Component| c@) == a + parent_parts((k - j) as nat),
            decreases bn - k,
        {
            let ghost before = acc@.map_values(|c: Component| c@);
            acc.push(Component::ParentDir);
            assert(acc@.map_values(|c: Component| c@) =~= before.push(Part::Parent));
            assert(acc@.map_values(|c: Component| c@) =~= a + parent_parts((k + 1 - j) as nat));
            k = k + 1;
        }
        assert(dst@.skip(i as int).len() == 0);
    }
    Some(LogicalPath { comps: acc })
}

/// `base` extended by `p`, where an absolute `p` replaces `base` whole.
pub open spec fn join_parts(base: Seq<Part>, p: Seq<Part>) -> Seq<Part> {
    if is_absolute_parts(p) {
        p
    } else {
        base + p
    }
}

impl Component {
    /// The text of this component.
    pub fn text(&self) -> (r: String)
        ensures
            r@ == part_text(self@),
    {
        let mut out = String::new();
        self.push_text(&mut out);
        out
    }
}

impl LogicalPath {
    /// This path extended by `p`; an absolute `p` replaces it.
    pub fn join(&self, p: &LogicalPath) -> (r: LogicalPath)
        ensures
            r@ == join_parts(self@, p@),
    {
        if p.is_absolute() {
            return p.copy();
        }
        let mut comps: Vec<Component> = Vec::new();
        copy_components(&self.comps, 0, self.comps.len(), &mut comps);
        copy_components(&p.comps, 0, p.comps.len(), &mut comps);
        assert(self@.subrange(0, self@.len() as int) =~= self@);
        assert(p@.subrange(0, p@.len() as int) =~= p@);
        assert(comps@.map_values(|c: Component| c@) =~= self@ + p@);
        LogicalPath { comps }
    }

    /// Appends one named component.
    pub fn push_named(&mut self, name: String)
        ensures
            final(self)@ == old(self)@.push(Part::Named(name@)),
    {
        self.comps.push(Component::Normal(name));
        assert(final(self)@ =~= old(self)@.push(Part::Named(name@)));
    }

    /// The first `k` components.
    pub fn prefix(&self, k: usize) -> (r: LogicalPath)
        requires
            k <= self@.len(),
        ensures
            r@ == self@.take(k as int),
    {
        let mut comps: Vec<Component> = Vec::new();
        copy_components(&self.comps, 0, k, &mut comps);
        assert(comps@.map_values(|c: Component| c@) =~= self@.take(k as int));
        LogicalPath { comps }
    }
}

impl PartialEq for Component {
    fn eq(&self, other: &Component) -> (r: bool) {
        self.same(other)
    }
}

impl vstd::std_specs::cmp::PartialEqSpecImpl for Component {
    open spec fn obeys_eq_spec() -> bool {
        true
    }

    open spec fn eq_spec(&self, other: &Component) -> bool {
        self@ == other@
    }
}

impl PartialEq for LogicalPath {
    fn eq(&self, other: &LogicalPath) -> (r: bool) {
        self.same(other)
    }
}

impl vstd::std_specs::cmp::PartialEqSpecImpl for LogicalPath {
    open spec fn obeys_eq_spec() -> bool {
        true
    }

    open spec fn eq_spec(&self, other: &LogicalPath) -> bool {
        self@ == other@
    }
}

} // verus!
