//! The layout box tree.

use vstd::prelude::*;

use std::collections::HashMap;

use crate::style_map::BoxStyle;

verus! {

broadcast use vstd::std_specs::hash::group_hash_axioms;

/// Where a text box takes its used `line-height` from.
#[derive(Clone, Copy, Debug, PartialEq, Eq, Structural)]
pub enum LineHeight {
    /// No ancestor has a computed style: `normal` at the initial font size.
    Initial,
    /// The used line height that the computed style of the element `element`
    /// gives at font size `font_size` (single-precision px bits).
    FromStyle { element: usize, font_size: u32 },
}

/// What a text box carries to be measured: its (transformed) text and the
/// inherited font properties.
#[derive(Debug)]
pub struct TextContext {
    pub text: String,
    /// Font size in px (single-precision bits).
    pub font_size: u32,
    pub font_family: String,
    pub font_weight: u16,
    pub line_height: LineHeight,
}

/// The content of a box: an element box with its layout style, or a text leaf.
#[derive(Debug)]
pub enum BoxContent {
    Element(BoxStyle),
    Text(TextContext),
}

/// A layout box tree: boxes by index, each with its children (in layout
/// order), the box of each document node by node address, and the root box.
///
/// The layout engine's own node tree stores floating-point styles, which this
/// library does not hold; the boxes are kept here, and the engine's tree is
/// built from them (one engine node per box, with the same children).
pub struct LayoutTree {
    contents: Vec<BoxContent>,
    children: Vec<Vec<usize>>,
    node_map: HashMap<usize, usize>,
    root: Option<usize>,
}

impl LayoutTree {
    #[verifier::type_invariant]
    spec fn inv(self) -> bool {
        &&& self.children@.len() == self.contents@.len()
        &&& forall|i: int, j: int|
            0 <= i < self.children@.len() && 0 <= j < self.children@[i]@.len() ==> #[trigger] self.children@[i]@[j]
                < self.contents@.len()
        &&& forall|a: usize| #[trigger]
            self.node_map@.contains_key(a) ==> self.node_map@[a] < self.contents@.len()
        &&& self.root matches Some(r) ==> r < self.contents@.len()
    }

    /// The boxes' contents, by index.
    pub closed spec fn contents_view(&self) -> Seq<BoxContent> {
        self.contents@
    }

    /// The boxes' children, by index.
    pub closed spec fn children_view(&self) -> Seq<Seq<usize>> {
        self.children@.map_values(|c: Vec<usize>| c@)
    }

    /// The box index of each mapped node address.
    pub closed spec fn map_view(&self) -> Map<usize, usize> {
        self.node_map@
    }

    /// The root box, if any.
    pub closed spec fn root_view(&self) -> Option<usize> {
        self.root
    }

    /// An empty tree.
    pub fn new() -> (r: LayoutTree)
        ensures
            r.contents_view().len() == 0,
            r.children_view().len() == 0,
            r.map_view() == Map::<usize, usize>::empty(),
            r.root_view() is None,
    {
        let r = LayoutTree {
            contents: Vec::new(),
            children: Vec::new(),
            node_map: HashMap::new(),
            root: None,
        };
        assert(r.children_view() =~= Seq::empty());
        r
    }

    /// The structural facts every tree keeps: the boxes can be counted in a
    /// `usize`; each child index and each mapped index names a box, and so
    /// does the root.
    pub open spec fn well_formed(&self) -> bool {
        &&& self.contents_view().len() <= usize::MAX
        &&& self.children_view().len() == self.contents_view().len()
        &&& forall|i: int, j: int|
            0 <= i < self.children_view().len() && 0 <= j < self.children_view()[i].len()
                ==> #[trigger] self.children_view()[i][j] < self.contents_view().len()
        &&& forall|a: usize| #[trigger]
            self.map_view().contains_key(a) ==> self.map_view()[a] < self.contents_view().len()
        &&& self.root_view() matches Some(r) ==> r < self.contents_view().len()
    }

    /// Every tree is well formed.
    pub fn check_well_formed(&self)
        ensures
            self.well_formed(),
    {
        proof {
            use_type_invariant(self);
            assert(self.contents@.len() == self.contents.len());
            assert forall|i: int, j: int|
                0 <= i < self.children_view().len() && 0 <= j < self.children_view()[i].len()
                    implies #[trigger] self.children_view()[i][j] < self.contents_view().len() by {
                assert(self.children_view()[i] == self.children@[i]@);
            }
        }
    }

    /// Moves the tree out, leaving an empty one.
    fn take(&mut self) -> (r: LayoutTree)
        ensures
            r == *old(self),
    {
        let mut r = LayoutTree::new();
        std::mem::swap(self, &mut r);
        r
    }

    /// Adds a box after the existing ones; its index is returned.
    pub(crate) fn push_box(&mut self, content: BoxContent, children: Vec<usize>) -> (idx: usize)
        requires
            forall|j: int| 0 <= j < children@.len() ==> #[trigger] children@[j] < old(self).contents_view().len(),
        ensures
            idx == old(self).contents_view().len(),
            final(self).contents_view() == old(self).contents_view().push(content),
            final(self).children_view() == old(self).children_view().push(children@),
            final(self).map_view() == old(self).map_view(),
            final(self).root_view() == old(self).root_view(),
    {
        proof {
            use_type_invariant(&*self);
        }
        let LayoutTree { contents: mut contents, children: mut all_children, node_map, root } =
            self.take();
        let idx = contents.len();
        let ghost ch = children@;
        contents.push(content);
        all_children.push(children);
        *self = LayoutTree { contents, children: all_children, node_map, root };
        assert(self.children_view() =~= old(self).children_view().push(ch));
        idx
    }

    /// Records `idx` as the box of the node at `addr`.
    pub(crate) fn map_node(&mut self, addr: usize, idx: usize)
        requires
            idx < old(self).contents_view().len(),
        ensures
            final(self).contents_view() == old(self).contents_view(),
            final(self).children_view() == old(self).children_view(),
            final(self).map_view() == old(self).map_view().insert(addr, idx),
            final(self).root_view() == old(self).root_view(),
    {
        proof {
            use_type_invariant(&*self);
        }
        let LayoutTree { contents, children, node_map: mut node_map, root } = self.take();
        node_map.insert(addr, idx);
        *self = LayoutTree { contents, children, node_map, root };
    }

    /// Sets the root box.
    pub(crate) fn set_root(&mut self, root: Option<usize>)
        requires
            root matches Some(r) ==> r < old(self).contents_view().len(),
        ensures
            final(self).contents_view() == old(self).contents_view(),
            final(self).children_view() == old(self).children_view(),
            final(self).map_view() == old(self).map_view(),
            final(self).root_view() == root,
    {
        proof {
            use_type_invariant(&*self);
        }
        let LayoutTree { contents, children, node_map, root: _ } = self.take();
        *self = LayoutTree { contents, children, node_map, root };
    }

    /// Appends `more` to the children of box `i`.
    pub(crate) fn append_children(&mut self, i: usize, more: &Vec<usize>)
        requires
            i < old(self).contents_view().len(),
            forall|j: int| 0 <= j < more@.len() ==> #[trigger] more@[j] < old(self).contents_view().len(),
        ensures
            final(self).contents_view() == old(self).contents_view(),
            final(self).children_view() == old(self).children_view().update(
                i as int,
                old(self).children_view()[i as int] + more@,
            ),
            final(self).map_view() == old(self).map_view(),
            final(self).root_view() == old(self).root_view(),
    {
        proof {
            use_type_invariant(&*self);
        }
        let mut c = self.children[i].clone();
        let mut j: usize = 0;
        while j < more.len()
            invariant
                j <= more@.len(),
                c@ == self.children@[i as int]@ + more@.subrange(0, j as int),
            decreases more.len() - j,
        {
            c.push(more[j]);
            j = j + 1;
            assert(c@ =~= self.children@[i as int]@ + more@.subrange(0, j as int));
        }
        assert(more@.subrange(0, more@.len() as int) =~= more@);
        let LayoutTree { contents, children: mut all_children, node_map, root } =
            self.take();
        all_children.set(i, c);
        *self = LayoutTree { contents, children: all_children, node_map, root };
        assert(self.children_view() =~= old(self).children_view().update(
            i as int,
            old(self).children_view()[i as int] + more@,
        ));
    }

    /// Number of boxes.
    pub fn box_count(&self) -> (r: usize)
        ensures
            r == self.contents_view().len(),
    {
        self.contents.len()
    }

    /// The content of box `i`.
    pub fn content(&self, i: usize) -> (r: &BoxContent)
        requires
            i < self.contents_view().len(),
        ensures
            *r == self.contents_view()[i as int],
    {
        &self.contents[i]
    }

    /// The children of box `i`, in layout order.
    pub fn children_of(&self, i: usize) -> (r: &Vec<usize>)
        requires
            i < self.contents_view().len(),
        ensures
            r@ == self.children_view()[i as int],
    {
        proof {
            use_type_invariant(self);
        }
        &self.children[i]
    }

    /// The root box, if the tree has one.
    pub fn root(&self) -> (r: Option<usize>)
        ensures
            r == self.root_view(),
    {
        self.root
    }

    /// The node addresses that have a box, with their box index.
    pub fn node_map(&self) -> (r: &HashMap<usize, usize>)
        ensures
            r@ == self.map_view(),
    {
        &self.node_map
    }

    /// Whether the tree has a root box.
    pub fn has_root(&self) -> (r: bool)
        ensures
            r == self.root_view() is Some,
    {
        self.root.is_some()
    }

    /// Number of document nodes that have a box.
    pub fn node_count(&self) -> (r: usize)
        ensures
            r == self.map_view().len(),
    {
        self.node_map.len()
    }

    /// Whether the node at `addr` has a box.
    pub fn contains_node(&self, addr: usize) -> (r: bool)
        ensures
            r == self.map_view().contains_key(addr),
    {
        self.node_map.contains_key(&addr)
    }

    /// Whether the box of `child` is a child of the box of `parent`.
    pub fn has_child(&self, parent: usize, child: usize) -> (r: bool)
        ensures
            r == (self.map_view().contains_key(parent) && self.map_view().contains_key(child)
                && self.children_view()[self.map_view()[parent] as int].contains(
                self.map_view()[child],
            )),
    {
        proof {
            use_type_invariant(self);
        }
        let p = match self.node_map.get(&parent) {
            Some(p) => *p,
            None => {
                return false;
            },
        };
        let c = match self.node_map.get(&child) {
            Some(c) => *c,
            None => {
                return false;
            },
        };
        let cs = &self.children[p];
        assert(cs@ == self.children_view()[p as int]);
        let mut i: usize = 0;
        while i < cs.len()
            invariant
                i <= cs@.len(),
                self.map_view().contains_key(parent),
                self.map_view()[parent] == p,
                self.map_view().contains_key(child),
                self.map_view()[child] == c,
                cs@ == self.children_view()[p as int],
                forall|j: int| 0 <= j < i ==> cs@[j] != c,
            decreases cs.len() - i,
        {
            if cs[i] == c {
                assert(cs@[i as int] == c);
                return true;
            }
            i = i + 1;
        }
        false
    }
}

} // verus!

verus! {

/// The boxes of a placement order, in order.
pub open spec fn entry_boxes(r: Seq<(usize, Option<usize>)>) -> Seq<usize> {
    r.map_values(|e: (usize, Option<usize>)| e.0)
}

/// `r` lists the boxes reachable from the root of `t`, each once, so that
/// each box comes after its parent: the first entry is the root (no
/// parent); each later entry names the position of an earlier entry whose
/// box has it as a child; and every child of a listed box is listed.
/// An absolute position is the parent's absolute position plus the box's
/// own offset, so following `r` computes them all.
pub open spec fn placement_ok(t: LayoutTree, r: Seq<(usize, Option<usize>)>) -> bool {
    &&& t.root_view() is None ==> r.len() == 0
    &&& t.root_view() matches Some(root) ==> r.len() > 0 && r[0] == (root, None::<usize>)
    &&& forall|j: int| 0 <= j < r.len() ==> #[trigger] r[j].0 < t.contents_view().len()
    &&& forall|i: int, j: int| 0 <= i < j < r.len() ==> #[trigger] r[i].0 != #[trigger] r[j].0
    &&& forall|j: int|
        0 < j < r.len() ==> (#[trigger] r[j].1 matches Some(i) && i < j
            && t.children_view()[r[i as int].0 as int].contains(r[j].0))
    &&& forall|i: int, k: int|
        0 <= i < r.len() && 0 <= k < t.children_view()[r[i].0 as int].len() ==> entry_boxes(
            r,
        ).contains(#[trigger] t.children_view()[r[i].0 as int][k])
}

/// Number of `false` entries.
pub open spec fn count_false(v: Seq<bool>) -> nat
    decreases v.len(),
{
    if v.len() == 0 {
        0
    } else {
        count_false(v.drop_last()) + if v.last() {
            0nat
        } else {
            1nat
        }
    }
}

proof fn lemma_count_false_set(v: Seq<bool>, b: int)
    requires
        0 <= b < v.len(),
        !v[b],
    ensures
        count_false(v.update(b, true)) + 1 == count_false(v),
    decreases v.len(),
{
    let w = v.update(b, true);
    if b == v.len() - 1 {
        assert(w.drop_last() =~= v.drop_last());
    } else {
        assert(w.drop_last() =~= v.drop_last().update(b, true));
        lemma_count_false_set(v.drop_last(), b);
    }
}

impl LayoutTree {
    /// The order in which absolute positions are accumulated: depth first
    /// from the root, each box once, with the position of its parent's
    /// entry (see [`placement_ok`]).
    pub fn placement_order(&self) -> (r: Vec<(usize, Option<usize>)>)
        ensures
            placement_ok(*self, r@),
    {
        self.check_well_formed();
        let n = self.contents.len();
        let mut out: Vec<(usize, Option<usize>)> = Vec::new();
        let root = match self.root {
            Some(r) => r,
            None => {
                return out;
            },
        };
        let mut visited: Vec<bool> = Vec::new();
        let mut i: usize = 0;
        while i < n
            invariant
                i <= n,
                visited@.len() == i,
                forall|j: int| 0 <= j < i ==> !#[trigger] visited@[j],
            decreases n - i,
        {
            visited.push(false);
            i = i + 1;
        }
        let mut stack: Vec<(usize, Option<usize>)> = Vec::new();
        stack.push((root, None));
        assert(entry_boxes(out@) =~= Seq::empty());
        while stack.len() > 0
            invariant
                self.well_formed(),
                n == self.contents_view().len(),
                self.root_view() == Some(root),
                root < n,
                visited@.len() == n,
                out@.len() > 0 ==> out@[0] == (root, None::<usize>),
                forall|j: int| 0 <= j < out@.len() ==> #[trigger] out@[j].0 < n,
                forall|a: int, j: int| 0 <= a < j < out@.len() ==> #[trigger] out@[a].0 != #[trigger] out@[j].0,
                forall|j: int|
                    0 < j < out@.len() ==> (#[trigger] out@[j].1 matches Some(p) && p < j
                        && self.children_view()[out@[p as int].0 as int].contains(out@[j].0)),
                forall|b: int| 0 <= b < n ==> (#[trigger] visited@[b] <==> entry_boxes(out@).contains(b as usize)),
                forall|s: int|
                    0 <= s < stack@.len() ==> #[trigger] stack@[s].0 < n && (match stack@[s].1 {
                        Some(p) => p < out@.len() && self.children_view()[out@[p as int].0 as int].contains(
                            stack@[s].0,
                        ),
                        None => out@.len() == 0 && stack@[s].0 == root,
                    }),
                forall|a: int, k: int|
                    0 <= a < out@.len() && 0 <= k < self.children_view()[out@[a].0 as int].len()
                        ==> entry_boxes(out@).contains(#[trigger] self.children_view()[out@[a].0 as int][k])
                        || entry_boxes(stack@).contains(self.children_view()[out@[a].0 as int][k]),
                out@.len() == 0 ==> stack@.len() == 1,
            decreases count_false(visited@), stack@.len(),
        {
            let ghost old_stack = stack@;
            let ghost old_out = out@;
            let (b, p) = match stack.pop() {
                Some(e) => e,
                None => {
                    return out;
                },
            };
            assert(old_stack.last() == (b, p));
            assert(stack@ =~= old_stack.drop_last());
            if visited[b] {
                proof {
                    assert forall|a: int, k: int|
                        0 <= a < out@.len() && 0 <= k < self.children_view()[out@[a].0 as int].len()
                            implies entry_boxes(out@).contains(#[trigger] self.children_view()[out@[a].0 as int][k])
                            || entry_boxes(stack@).contains(self.children_view()[out@[a].0 as int][k]) by {
                        let c = self.children_view()[out@[a].0 as int][k];
                        if !entry_boxes(out@).contains(c) {
                            let w = choose|w: int| 0 <= w < old_stack.len() && entry_boxes(old_stack)[w] == c;
                            if w == old_stack.len() - 1 {
                                assert(c == b);
                            } else {
                                assert(entry_boxes(stack@)[w] == c);
                            }
                        }
                    }
                }
                continue;
            }
            let ghost old_visited = visited@;
            proof {
                lemma_count_false_set(visited@, b as int);
            }
            visited.set(b, true);
            let pos = out.len();
            out.push((b, p));
            proof {
                assert(entry_boxes(out@) =~= entry_boxes(old_out).push(b));
                assert(!entry_boxes(old_out).contains(b));
                assert forall|a: int| 0 <= a < pos implies #[trigger] out@[a].0 != b by {
                    assert(entry_boxes(old_out)[a] == old_out[a].0);
                }
                assert forall|bb: int| 0 <= bb < n implies (#[trigger] visited@[bb] <==> entry_boxes(out@).contains(bb as usize)) by {
                    if bb == b {
                        assert(entry_boxes(out@)[pos as int] == b);
                    } else {
                        assert(visited@[bb] == old_visited[bb]);
                        if entry_boxes(out@).contains(bb as usize) {
                            let w = choose|w: int| 0 <= w < out@.len() && entry_boxes(out@)[w] == bb as usize;
                            assert(w != pos);
                            assert(entry_boxes(old_out)[w] == bb as usize);
                        }
                        if entry_boxes(old_out).contains(bb as usize) {
                            let w = choose|w: int| 0 <= w < old_out.len() && entry_boxes(old_out)[w] == bb as usize;
                            assert(entry_boxes(out@)[w] == bb as usize);
                        }
                    }
                }
            }
            let ch = &self.children[b];
            assert(ch@ == self.children_view()[b as int]);
            let ghost mid_stack = stack@;
            let mut k: usize = 0;
            #[verifier::loop_isolation(false)]
            while k < ch.len()
                invariant
                    k <= ch@.len(),
                    ch@ == self.children_view()[b as int],
                    b < n,
                    self.well_formed(),
                    n == self.contents_view().len(),
                    pos < out@.len(),
                    out@[pos as int].0 == b,
                    stack@.len() == mid_stack.len() + k,
                    forall|s: int| 0 <= s < mid_stack.len() ==> #[trigger] stack@[s] == mid_stack[s],
                    forall|s: int|
                        mid_stack.len() <= s < stack@.len() ==> #[trigger] stack@[s] == (
                            ch@[s - mid_stack.len()],
                            Some(pos),
                        ),
                decreases ch.len() - k,
            {
                stack.push((ch[k], Some(pos)));
                k = k + 1;
            }
            proof {
                assert forall|s: int|
                    0 <= s < stack@.len() implies #[trigger] stack@[s].0 < n && (match stack@[s].1 {
                        Some(p) => p < out@.len() && self.children_view()[out@[p as int].0 as int].contains(
                            stack@[s].0,
                        ),
                        None => out@.len() == 0 && stack@[s].0 == root,
                    }) by {
                    if s >= mid_stack.len() {
                        assert(ch@[s - mid_stack.len()] == self.children_view()[b as int][s - mid_stack.len()]);
                    } else {
                        assert(stack@[s] == old_stack[s]);
                        assert(old_out.len() > 0);
                        match stack@[s].1 {
                            Some(p) => {
                                assert(out@[p as int] == old_out[p as int]);
                            },
                            None => {},
                        }
                    }
                }
                assert forall|a: int, kk: int|
                    0 <= a < out@.len() && 0 <= kk < self.children_view()[out@[a].0 as int].len()
                        implies entry_boxes(out@).contains(#[trigger] self.children_view()[out@[a].0 as int][kk])
                        || entry_boxes(stack@).contains(self.children_view()[out@[a].0 as int][kk]) by {
                    let c = self.children_view()[out@[a].0 as int][kk];
                    if a == pos {
                        assert(entry_boxes(stack@)[mid_stack.len() + kk] == c);
                    } else if !entry_boxes(out@).contains(c) {
                        assert(out@[a] == old_out[a]);
                        if entry_boxes(old_out).contains(c) {
                            let w = choose|w: int| 0 <= w < old_out.len() && entry_boxes(old_out)[w] == c;
                            assert(entry_boxes(out@)[w] == c);
                        }
                        let w = choose|w: int| 0 <= w < old_stack.len() && entry_boxes(old_stack)[w] == c;
                        if w == old_stack.len() - 1 {
                            assert(entry_boxes(out@)[pos as int] == c);
                        } else {
                            assert(entry_boxes(stack@)[w] == c);
                        }
                    }
                }
            }
        }
        out
    }
}

} // verus!
