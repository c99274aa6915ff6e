//! The shape of a generated box tree: no box is shared between parents.

use vstd::prelude::*;

use crate::convert;
use crate::convert::{BoxSpec, Gen, InheritedView};
use crate::css;
use crate::dom::DomNode;
use crate::tree::LayoutTree;

verus! {

/// Number of times `x` occurs in `s`.
pub open spec fn occ(s: Seq<nat>, x: nat) -> nat
    decreases s.len(),
{
    if s.len() == 0 {
        0
    } else {
        occ(s.drop_last(), x) + if s.last() == x {
            1nat
        } else {
            0nat
        }
    }
}

/// The lists of `ss`, one after the other.
pub open spec fn flat(ss: Seq<Seq<nat>>) -> Seq<nat>
    decreases ss.len(),
{
    if ss.len() == 0 {
        Seq::empty()
    } else {
        flat(ss.drop_last()) + ss.last()
    }
}

/// The children list of each box.
pub open spec fn child_lists(boxes: Seq<BoxSpec>) -> Seq<Seq<nat>> {
    boxes.map_values(|b: BoxSpec| convert::spec_children(b))
}

/// Every reference that a generation makes to a box: as a child of one of
/// its boxes, or handed up in flow, or handed up as absolute.
pub open spec fn references(g: Gen) -> Seq<nat> {
    flat(child_lists(g.boxes)) + g.in_flow + g.absolute
}

/// Each box of `g`, numbered from `next`, is referenced at most once, and
/// no other box is referenced.
pub open spec fn referenced_once(g: Gen, next: nat) -> bool {
    forall|x: nat| #![trigger occ(references(g), x)]
        occ(references(g), x) <= 1 && (occ(references(g), x) > 0 ==> next <= x < next
            + g.boxes.len())
}

proof fn lemma_occ_concat(a: Seq<nat>, b: Seq<nat>, x: nat)
    ensures
        occ(a + b, x) == occ(a, x) + occ(b, x),
    decreases b.len(),
{
    if b.len() == 0 {
        assert(a + b =~= a);
    } else {
        assert((a + b).drop_last() =~= a + b.drop_last());
        lemma_occ_concat(a, b.drop_last(), x);
    }
}

proof fn lemma_occ_single(y: nat, x: nat)
    ensures
        occ(seq![y], x) == if y == x {
            1nat
        } else {
            0nat
        },
{
    let s = seq![y];
    assert(s.drop_last() =~= Seq::<nat>::empty());
    assert(occ(s.drop_last(), x) == 0);
    assert(s.last() == y);
}

proof fn lemma_occ_at(s: Seq<nat>, j: int)
    requires
        0 <= j < s.len(),
    ensures
        occ(s, s[j]) >= 1,
    decreases s.len(),
{
    if j < s.len() - 1 {
        lemma_occ_at(s.drop_last(), j);
    }
}

proof fn lemma_occ_twice(s: Seq<nat>, i: int, j: int)
    requires
        0 <= i < j < s.len(),
        s[i] == s[j],
    ensures
        occ(s, s[i]) >= 2,
    decreases s.len(),
{
    if j < s.len() - 1 {
        lemma_occ_twice(s.drop_last(), i, j);
    } else {
        lemma_occ_at(s.drop_last(), i);
    }
}

proof fn lemma_flat_concat(a: Seq<Seq<nat>>, b: Seq<Seq<nat>>)
    ensures
        flat(a + b) == flat(a) + flat(b),
    decreases b.len(),
{
    if b.len() == 0 {
        assert(a + b =~= a);
        assert(flat(a) + flat(b) =~= flat(a));
    } else {
        assert((a + b).drop_last() =~= a + b.drop_last());
        lemma_flat_concat(a, b.drop_last());
        assert(flat(a) + flat(b) =~= flat(a) + flat(b.drop_last()) + b.last());
    }
}

/// An entry at position `j` of list `p` occurs in the flattening.
proof fn lemma_flat_at(ss: Seq<Seq<nat>>, p: int, j: int)
    requires
        0 <= p < ss.len(),
        0 <= j < ss[p].len(),
    ensures
        occ(flat(ss), ss[p][j]) >= 1,
    decreases ss.len(),
{
    let x = ss[p][j];
    lemma_occ_concat(flat(ss.drop_last()), ss.last(), x);
    if p < ss.len() - 1 {
        lemma_flat_at(ss.drop_last(), p, j);
    } else {
        lemma_occ_at(ss.last(), j);
    }
}

/// Two different positions holding the same entry make it occur twice in
/// the flattening.
proof fn lemma_flat_twice(ss: Seq<Seq<nat>>, p1: int, j1: int, p2: int, j2: int)
    requires
        0 <= p1 < ss.len(),
        0 <= j1 < ss[p1].len(),
        0 <= p2 < ss.len(),
        0 <= j2 < ss[p2].len(),
        ss[p1][j1] == ss[p2][j2],
        p1 != p2 || j1 != j2,
    ensures
        occ(flat(ss), ss[p1][j1]) >= 2,
    decreases ss.len(),
{
    let x = ss[p1][j1];
    let last = ss.len() - 1;
    lemma_occ_concat(flat(ss.drop_last()), ss.last(), x);
    if p1 < last && p2 < last {
        lemma_flat_twice(ss.drop_last(), p1, j1, p2, j2);
    } else if p1 == last && p2 == last {
        if j1 < j2 {
            lemma_occ_twice(ss.last(), j1, j2);
        } else {
            lemma_occ_twice(ss.last(), j2, j1);
        }
    } else if p1 == last {
        lemma_occ_at(ss.last(), j1);
        lemma_flat_at(ss.drop_last(), p2, j2);
    } else {
        lemma_occ_at(ss.last(), j2);
        lemma_flat_at(ss.drop_last(), p1, j1);
    }
}

/// Adding `extra` to list `r` adds its entries to the flattening.
proof fn lemma_flat_extend_one(ss: Seq<Seq<nat>>, r: int, extra: Seq<nat>, x: nat)
    requires
        0 <= r < ss.len(),
    ensures
        occ(flat(ss.update(r, ss[r] + extra)), x) == occ(flat(ss), x) + occ(extra, x),
    decreases ss.len(),
{
    let tt = ss.update(r, ss[r] + extra);
    lemma_occ_concat(flat(ss.drop_last()), ss.last(), x);
    lemma_occ_concat(flat(tt.drop_last()), tt.last(), x);
    if r < ss.len() - 1 {
        assert(tt.drop_last() =~= ss.drop_last().update(r, ss[r] + extra));
        lemma_flat_extend_one(ss.drop_last(), r, extra, x);
    } else {
        assert(tt.drop_last() =~= ss.drop_last());
        lemma_occ_concat(ss[r], extra, x);
    }
}

proof fn lemma_child_lists_concat(a: Seq<BoxSpec>, b: Seq<BoxSpec>)
    ensures
        flat(child_lists(a + b)) == flat(child_lists(a)) + flat(child_lists(b)),
{
    assert(child_lists(a + b) =~= child_lists(a) + child_lists(b));
    lemma_flat_concat(child_lists(a), child_lists(b));
}

proof fn lemma_child_lists_push(a: Seq<BoxSpec>, b: BoxSpec)
    ensures
        flat(child_lists(a.push(b))) == flat(child_lists(a)) + convert::spec_children(b),
{
    assert(child_lists(a.push(b)).drop_last() =~= child_lists(a));
}

/// References of two generations side by side add up.
proof fn lemma_references_concat(a: Gen, b: Gen, x: nat)
    ensures
        occ(references(convert::concat_gen(a, b)), x) == occ(references(a), x) + occ(
            references(b),
            x,
        ),
{
    let c = convert::concat_gen(a, b);
    lemma_child_lists_concat(a.boxes, b.boxes);
    let fa = flat(child_lists(a.boxes));
    let fb = flat(child_lists(b.boxes));
    lemma_occ_concat(fa, fb, x);
    lemma_occ_concat(fa + fb, a.in_flow + b.in_flow, x);
    lemma_occ_concat(a.in_flow, b.in_flow, x);
    lemma_occ_concat(fa + fb + (a.in_flow + b.in_flow), a.absolute + b.absolute, x);
    lemma_occ_concat(a.absolute, b.absolute, x);
    lemma_occ_concat(fa, a.in_flow, x);
    lemma_occ_concat(fa + a.in_flow, a.absolute, x);
    lemma_occ_concat(fb, b.in_flow, x);
    lemma_occ_concat(fb + b.in_flow, b.absolute, x);
}

/// Generation of a node references each of its boxes exactly at most once.
pub proof fn lemma_gen_node_referenced_once(
    node: DomNode,
    styles: Map<usize, css::ElementStyle>,
    inh: InheritedView,
    next: nat,
)
    ensures
        referenced_once(convert::gen_node(node, styles, inh, next), next),
    decreases node,
{
    let g = convert::gen_node(node, styles, inh, next);
    match node {
        DomNode::Text { addr, data } => {
            if css::all_ascii_ws(data@) {
                assert(references(g) =~= Seq::<nat>::empty());
            } else {
                let cl = child_lists(g.boxes);
                assert(cl.len() == 1);
                assert(cl.drop_last() =~= Seq::<Seq<nat>>::empty());
                assert(flat(cl.drop_last()) =~= Seq::<nat>::empty());
                assert(cl.last() =~= Seq::<nat>::empty());
                assert(flat(cl) =~= Seq::<nat>::empty());
                assert(references(g) =~= seq![next]);
                assert forall|x: nat| #![trigger occ(references(g), x)]
                    occ(references(g), x) <= 1 && (occ(references(g), x) > 0 ==> next <= x < next
                        + g.boxes.len()) by {
                    lemma_occ_single(next, x);
                }
            }
        },
        DomNode::Other { .. } => {
            assert(references(g) =~= Seq::<nat>::empty());
        },
        DomNode::Element { addr, local_name, children } => {
            let computed = convert::style_of(styles, addr);
            if css::spec_non_rendered_tag(css::ascii_lower_seq(local_name@))
                || convert::is_display_none(computed) {
                assert(references(g) =~= Seq::<nat>::empty());
            } else {
                let own = convert::own_inherited(computed, addr, inh);
                assert(decreases_to!(node => children));
                lemma_gen_list_referenced_once(children@, styles, own, next);
                let kids = convert::gen_list(children@, styles, own, next);
                if !convert::is_display_contents(computed) {
                    let me = next + kids.boxes.len();
                    let ch = if convert::is_positioned(computed) {
                        kids.in_flow + kids.absolute
                    } else {
                        kids.in_flow
                    };
                    let fk = flat(child_lists(kids.boxes));
                    lemma_child_lists_push(kids.boxes, BoxSpec::Element { style: computed, children: ch });
                    assert(flat(child_lists(g.boxes)) == fk + ch);
                    assert forall|x: nat| #![trigger occ(references(g), x)]
                        occ(references(g), x) == occ(references(kids), x) + if x == me {
                            1nat
                        } else {
                            0nat
                        } by {
                        lemma_occ_single(me, x);
                        lemma_occ_concat(fk, kids.in_flow, x);
                        lemma_occ_concat(fk + kids.in_flow, kids.absolute, x);
                        lemma_occ_concat(kids.in_flow, kids.absolute, x);
                        lemma_occ_concat(fk, ch, x);
                        lemma_occ_concat(fk + ch, g.in_flow, x);
                        lemma_occ_concat(fk + ch + g.in_flow, g.absolute, x);
                        lemma_occ_concat(fk, kids.in_flow + kids.absolute, x);
                        if g.in_flow.len() == 0 {
                            assert(g.in_flow =~= Seq::<nat>::empty());
                        }
                        if g.absolute.len() == 0 {
                            assert(g.absolute =~= Seq::<nat>::empty());
                        }
                        assert(occ(Seq::<nat>::empty(), x) == 0);
                    }
                    assert forall|x: nat| #![trigger occ(references(g), x)]
                        occ(references(g), x) <= 1 && (occ(references(g), x) > 0 ==> next <= x
                            < next + g.boxes.len()) by {
                        assert(occ(references(kids), x) <= 1);
                    }
                }
            }
        },
    }
}

/// Generation of a list of siblings references each of its boxes at most
/// once.
pub proof fn lemma_gen_list_referenced_once(
    nodes: Seq<DomNode>,
    styles: Map<usize, css::ElementStyle>,
    inh: InheritedView,
    next: nat,
)
    ensures
        referenced_once(convert::gen_list(nodes, styles, inh, next), next),
    decreases nodes,
{
    let g = convert::gen_list(nodes, styles, inh, next);
    if nodes.len() == 0 {
        assert(references(g) =~= Seq::<nat>::empty());
    } else {
        let pre = convert::gen_list(nodes.drop_last(), styles, inh, next);
        let mid = next + pre.boxes.len();
        let last = convert::gen_node(nodes.last(), styles, inh, mid);
        lemma_gen_list_referenced_once(nodes.drop_last(), styles, inh, next);
        lemma_gen_node_referenced_once(nodes.last(), styles, inh, mid);
        assert forall|x: nat| #![trigger occ(references(g), x)]
            occ(references(g), x) <= 1 && (occ(references(g), x) > 0 ==> next <= x < next
                + g.boxes.len()) by {
            lemma_references_concat(pre, last, x);
            assert(occ(references(pre), x) <= 1);
            assert(occ(references(last), x) <= 1);
        }
    }
}

/// In a generated box tree no box is shared: a box is listed at most once
/// among the children of at most one box, and the root box is nobody's
/// child.
pub proof fn lemma_box_parents_unique(
    t: LayoutTree,
    root: DomNode,
    styles: Map<usize, css::ElementStyle>,
)
    requires
        t.well_formed(),
        convert::tree_generated(t, root, styles),
    ensures
        forall|p1: int, j1: int, p2: int, j2: int|
            0 <= p1 < t.children_view().len() && 0 <= j1 < t.children_view()[p1].len() && 0 <= p2
                < t.children_view().len() && 0 <= j2 < t.children_view()[p2].len() && (p1 != p2
                || j1 != j2) ==> #[trigger] t.children_view()[p1][j1]
                != #[trigger] t.children_view()[p2][j2],
        t.root_view() matches Some(r) ==> forall|p: int, j: int|
            0 <= p < t.children_view().len() && 0 <= j < t.children_view()[p].len()
                ==> #[trigger] t.children_view()[p][j] != r,
{
    match convert::spec_find_root(root) {
        None => {},
        Some(el) => {
            let g = convert::gen_node(el, styles, convert::initial_inherited(), 0);
            lemma_gen_node_referenced_once(el, styles, convert::initial_inherited(), 0);
            let n = t.children_view().len();
            let ss = Seq::new(n, |k: int| convert::nats(t.children_view()[k]));
            let cl = child_lists(g.boxes);
            let f = flat(cl);
            assert(n == g.boxes.len());
            if g.in_flow.len() > 0 {
                let r = g.in_flow[0];
                lemma_occ_at(g.in_flow, 0);
                lemma_occ_concat(f, g.in_flow, r);
                lemma_occ_concat(f + g.in_flow, g.absolute, r);
                assert(occ(references(g), r) > 0);
                assert(r < n);
            }
            // ss differs from the generated child lists only in the root's
            // list, which also holds the unplaced absolute boxes.
            assert forall|k: int| 0 <= k < n implies #[trigger] ss[k] == convert::final_children(
                g,
                k as nat,
            ) by {
                assert(convert::nats(t.children_view()[k]) == convert::final_children(g, k as nat));
            }
            assert forall|x: nat| #![trigger occ(flat(ss), x)]
                occ(flat(ss), x) + (if g.in_flow.len() > 0 {
                    occ(g.in_flow, x)
                } else {
                    0
                }) <= occ(references(g), x) by {
                lemma_occ_concat(f, g.in_flow, x);
                lemma_occ_concat(f + g.in_flow, g.absolute, x);
                if g.in_flow.len() > 0 {
                    let r = g.in_flow[0] as int;
                    assert(ss =~= cl.update(r, cl[r] + g.absolute));
                    lemma_flat_extend_one(cl, r, g.absolute, x);
                } else {
                    assert(ss =~= cl);
                }
            }
            assert forall|p1: int, j1: int, p2: int, j2: int|
                0 <= p1 < n && 0 <= j1 < t.children_view()[p1].len() && 0 <= p2 < n && 0 <= j2
                    < t.children_view()[p2].len() && (p1 != p2 || j1 != j2) implies #[trigger] t.children_view()[p1][j1]
                != #[trigger] t.children_view()[p2][j2] by {
                if t.children_view()[p1][j1] == t.children_view()[p2][j2] {
                    assert(ss[p1][j1] == ss[p2][j2]);
                    lemma_flat_twice(ss, p1, j1, p2, j2);
                    let x = ss[p1][j1];
                    assert(occ(flat(ss), x) <= occ(references(g), x));
                }
            }
            if g.in_flow.len() > 0 {
                let r = g.in_flow[0];
                assert(occ(g.in_flow, r) >= 1);
                assert forall|p: int, j: int|
                    0 <= p < n && 0 <= j < t.children_view()[p].len()
                        implies #[trigger] t.children_view()[p][j] != t.root_view()->0 by {
                    if t.children_view()[p][j] == t.root_view()->0 {
                        assert(ss[p][j] == r);
                        lemma_flat_at(ss, p, j);
                        assert(occ(flat(ss), r) + occ(g.in_flow, r) <= occ(references(g), r));
                    }
                }
            }
        },
    }
}

} // verus!
