//! The key path from the root table to the value being converted, rendered as
//! `database.replicas[2].port`.
use vstd::prelude::*;
use vstd::string::StringExecFns;
use crate::text::{decimal, push_decimal};

verus! {

/// One step of a key path: a table key or a sequence index.
#[derive(Debug, Clone, PartialEq, Eq)]
pub enum Segment {
    Key(String),
    Index(usize),
}

/// A segment as the contracts see it.
pub enum SegmentView {
    Key(Seq<char>),
    Index(usize),
}

impl View for Segment {
    type V = SegmentView;

    open spec fn view(&self) -> SegmentView {
        match self {
            Segment::Key(k) => SegmentView::Key(k@),
            Segment::Index(i) => SegmentView::Index(*i),
        }
    }
}

/// Breadcrumbs from the root table to the value being converted.
#[derive(Debug, Clone, Default, PartialEq, Eq)]
pub struct PathStack(Vec<Segment>);

/// How the segment at position `i` is written: a key after the first is preceded by a dot, an
/// index is bracketed.
pub open spec fn render_segment(i: int, s: SegmentView) -> Seq<char> {
    match s {
        SegmentView::Key(k) => if i == 0 { k } else { seq!['.'] + k },
        SegmentView::Index(n) => seq!['['] + decimal(n as nat) + seq![']'],
    }
}

/// The rendering of a whole path: its segments written one after the other.
pub open spec fn render_path(segs: Seq<SegmentView>) -> Seq<char>
    decreases segs.len(),
{
    if segs.len() == 0 {
        Seq::empty()
    } else {
        render_path(segs.drop_last()) + render_segment(segs.len() - 1, segs.last())
    }
}

/// Pushing a key adds `.key` to the rendering (just `key` at the root); pushing an index adds
/// `[index]`.
pub proof fn law_render_push(segs: Seq<SegmentView>, s: SegmentView)
    ensures
        render_path(segs.push(s)) == render_path(segs) + match s {
            SegmentView::Key(k) => if segs.len() == 0 { k } else { seq!['.'] + k },
            SegmentView::Index(i) => seq!['['] + decimal(i as nat) + seq![']'],
        },
{
    assert(segs.push(s).drop_last() =~= segs);
}

/// The path after entering, in turn, scopes that push `segs` onto `base`.
pub open spec fn entered(base: Seq<SegmentView>, segs: Seq<SegmentView>) -> Seq<SegmentView>
    decreases segs.len(),
{
    if segs.len() == 0 { base } else { entered(base, segs.drop_last()).push(segs.last()) }
}

/// Scopes nest: inside scopes entered from the root that push `s1, ..., sn` (a `Key` for
/// `with_key`, an `Index` for `with_index`), the path is `[s1, ..., sn]`, root first in push
/// order, so its length is the nesting depth; and leaving the innermost scope gives back the
/// path of the scopes around it.
pub proof fn law_scopes_nest(segs: Seq<SegmentView>)
    ensures
        entered(Seq::empty(), segs) == segs,
        segs.len() > 0 ==> pop_segment(entered(Seq::empty(), segs)) == entered(Seq::empty(), segs.drop_last()),
    decreases segs.len(),
{
    if segs.len() > 0 {
        law_scopes_nest(segs.drop_last());
        assert(segs.drop_last().push(segs.last()) =~= segs);
    }
}

/// Each stack of a chain that starts at the root and pushes `segs[i]` at step `i` (as
/// `with_key` and `with_index` do on entering their scope) holds the first `i` of `segs`.
proof fn lemma_pushed_prefix(stacks: Seq<PathStack>, segs: Seq<SegmentView>, k: int)
    requires
        stacks.len() == segs.len() + 1,
        stacks[0]@ == Seq::<SegmentView>::empty(),
        forall|i: int| 0 <= i < segs.len() ==> #[trigger] stacks[i + 1]@ == stacks[i]@.push(segs[i]),
        0 <= k <= segs.len(),
    ensures
        stacks[k]@ == segs.take(k),
    decreases k,
{
    if k > 0 {
        lemma_pushed_prefix(stacks, segs, k - 1);
        assert(stacks[(k - 1) + 1]@ == stacks[k - 1]@.push(segs[k - 1]));
        assert(segs.take(k) =~= segs.take(k - 1).push(segs[k - 1]));
    } else {
        assert(segs.take(0) =~= Seq::<SegmentView>::empty());
    }
}

/// The segments of a stack are its push history: for stacks `stacks[0], ..., stacks[n]` where
/// `stacks[0]` is the root (as `PathStack::new` gives) and each next one is the stack inside a
/// scope entered from the one before, pushing `segs[i]` (a `Key` for `with_key`, an `Index` for
/// `with_index`), every stack holds the segments pushed so far, root first in push order; so the
/// innermost stack's `segments()` are `segs` and their number is the nesting depth.
pub proof fn law_segments_are_the_push_history(stacks: Seq<PathStack>, segs: Seq<SegmentView>)
    requires
        stacks.len() == segs.len() + 1,
        stacks[0]@ == Seq::<SegmentView>::empty(),
        forall|i: int| 0 <= i < segs.len() ==> #[trigger] stacks[i + 1]@ == stacks[i]@.push(segs[i]),
    ensures
        forall|k: int| 0 <= k < stacks.len() ==> (#[trigger] stacks[k])@ == segs.take(k),
        stacks.last()@ == segs,
        stacks.last()@.len() == segs.len(),
{
    assert forall|k: int| 0 <= k < stacks.len() implies (#[trigger] stacks[k])@ == segs.take(k) by {
        lemma_pushed_prefix(stacks, segs, k);
    }
    lemma_pushed_prefix(stacks, segs, segs.len() as int);
    assert(segs.take(segs.len() as int) =~= segs);
}

/// The stack after a scope ends: the last segment removed, if there is one.
pub open spec fn pop_segment(segs: Seq<SegmentView>) -> Seq<SegmentView> {
    if segs.len() == 0 { segs } else { segs.drop_last() }
}

impl View for PathStack {
    type V = Seq<SegmentView>;

    closed spec fn view(&self) -> Seq<SegmentView> {
        self.0@.map_values(|s: Segment| s@)
    }
}

impl PathStack {
    /// The empty path, which denotes the root table.
    pub fn new() -> (p: Self)
        ensures
            p@ == Seq::<SegmentView>::empty(),
    {
        let p = PathStack(Vec::new());
        assert(p@ =~= Seq::<SegmentView>::empty());
        p
    }

    /// Pushes one segment.
    pub(crate) fn push(&mut self, segment: Segment)
        ensures
            final(self)@ == old(self)@.push(segment@),
    {
        self.0.push(segment);
        assert(self@ =~= old(self)@.push(segment@));
    }

    /// Pops the last segment, if any.
    pub(crate) fn pop(&mut self)
        ensures
            final(self)@ == pop_segment(old(self)@),
    {
        self.0.pop();
        assert(self@ =~= pop_segment(old(self)@));
    }

    /// Runs `f` with `key` pushed, popping afterwards so callers cannot leave the stack
    /// unbalanced.
    pub fn with_key<T>(&mut self, key: &str, f: impl FnOnce(&mut Self) -> T) -> (out: T)
        requires
            forall|p: &mut Self| (*p)@ == old(self)@.push(SegmentView::Key(key@)) ==> f.requires((p,)),
        ensures
            exists|p: &mut Self|
                {
                    &&& (*p)@ == old(self)@.push(SegmentView::Key(key@))
                    &&& f.ensures((p,), out)
                    &&& final(self)@ == pop_segment(final(p)@)
                },
            (forall|p: &mut Self, r: T| #[trigger] f.ensures((p,), r) ==> final(p)@ == (*p)@)
                ==> final(self)@ == old(self)@,
    {
        self.scoped(Segment::Key(String::from_str(key)), f)
    }

    /// Runs `f` with `index` pushed, popping afterwards.
    pub fn with_index<T>(&mut self, index: usize, f: impl FnOnce(&mut Self) -> T) -> (out: T)
        requires
            forall|p: &mut Self| (*p)@ == old(self)@.push(SegmentView::Index(index)) ==> f.requires((p,)),
        ensures
            exists|p: &mut Self|
                {
                    &&& (*p)@ == old(self)@.push(SegmentView::Index(index))
                    &&& f.ensures((p,), out)
                    &&& final(self)@ == pop_segment(final(p)@)
                },
            (forall|p: &mut Self, r: T| #[trigger] f.ensures((p,), r) ==> final(p)@ == (*p)@)
                ==> final(self)@ == old(self)@,
    {
        self.scoped(Segment::Index(index), f)
    }

    fn scoped<T>(&mut self, segment: Segment, f: impl FnOnce(&mut Self) -> T) -> (out: T)
        requires
            forall|p: &mut Self| (*p)@ == old(self)@.push(segment@) ==> f.requires((p,)),
        ensures
            exists|p: &mut Self|
                {
                    &&& (*p)@ == old(self)@.push(segment@)
                    &&& f.ensures((p,), out)
                    &&& final(self)@ == pop_segment(final(p)@)
                },
            (forall|p: &mut Self, r: T| #[trigger] f.ensures((p,), r) ==> final(p)@ == (*p)@)
                ==> final(self)@ == old(self)@,
    {
        self.push(segment);
        let out = f(self);
        self.pop();
        assert(old(self)@.push(segment@).drop_last() =~= old(self)@);
        out
    }

    /// The segments from the root down.
    pub fn segments(&self) -> (s: &[Segment])
        ensures
            s@.map_values(|x: Segment| x@) == self@,
    {
        self.0.as_slice()
    }

    /// The path as written in messages: keys joined by dots, indices in brackets; empty for the
    /// root.
    pub fn to_string(&self) -> (s: String)
        ensures
            s@ == render_path(self@),
    {
        let mut out = String::new();
        let mut i: usize = 0;
        while i < self.0.len()
            invariant
                i <= self.0@.len(),
                out@ == render_path(self@.take(i as int)),
            decreases self.0@.len() - i,
        {
            let ghost before = out@;
            match &self.0[i] {
                Segment::Key(key) => {
                    if i > 0 {
                        proof { reveal_strlit("."); }
                        out.append(".");
                    }
                    out.append(key.as_str());
                },
                Segment::Index(index) => {
                    proof { reveal_strlit("["); reveal_strlit("]"); }
                    out.append("[");
                    push_decimal(&mut out, *index as u64);
                    out.append("]");
                },
            }
            proof {
                assert(self@.take(i + 1).drop_last() =~= self@.take(i as int));
                assert(out@ =~= before + render_segment(i as int, self@[i as int]));
            }
            i += 1;
        }
        assert(self@.take(i as int) =~= self@);
        out
    }
}

} // verus!
