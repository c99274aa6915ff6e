//! Which document nodes a generated box tree records: nothing inside an
//! element that is `display: none` or has a non-rendered tag, and every
//! rendered node reached from the root element.

use vstd::prelude::*;

use crate::convert;
use crate::convert::InheritedView;
use crate::css;
use crate::dom::DomNode;
use crate::tree::LayoutTree;

verus! {

/// The addresses of the element and text nodes of a subtree.
pub open spec fn subtree_addrs(node: DomNode) -> Set<usize>
    decreases node,
{
    match node {
        DomNode::Element { addr, children, .. } => {
            proof {
                assert(decreases_to!(node => children));
            }
            set![addr].union(list_addrs(children@))
        },
        DomNode::Text { addr, .. } => set![addr],
        DomNode::Other { children } => {
            proof {
                assert(decreases_to!(node => children));
            }
            list_addrs(children@)
        },
    }
}

/// The addresses of the element and text nodes of a list of subtrees.
pub open spec fn list_addrs(nodes: Seq<DomNode>) -> Set<usize>
    decreases nodes,
{
    if nodes.len() == 0 {
        Set::empty()
    } else {
        list_addrs(nodes.drop_last()).union(subtree_addrs(nodes.last()))
    }
}

/// No address occurs twice in the subtree.
pub open spec fn distinct_addrs(node: DomNode) -> bool
    decreases node,
{
    match node {
        DomNode::Element { addr, children, .. } => {
            proof {
                assert(decreases_to!(node => children));
            }
            !list_addrs(children@).contains(addr) && list_distinct(children@)
        },
        DomNode::Text { .. } => true,
        DomNode::Other { children } => {
            proof {
                assert(decreases_to!(node => children));
            }
            list_distinct(children@)
        },
    }
}

/// No address occurs twice in the list of subtrees.
pub open spec fn list_distinct(nodes: Seq<DomNode>) -> bool
    decreases nodes,
{
    if nodes.len() == 0 {
        true
    } else {
        &&& list_distinct(nodes.drop_last())
        &&& distinct_addrs(nodes.last())
        &&& list_addrs(nodes.drop_last()).disjoint(subtree_addrs(nodes.last()))
    }
}

/// `e` is `node` or one of its descendants.
pub open spec fn within(e: DomNode, node: DomNode) -> bool
    decreases node,
{
    e == node || match node {
        DomNode::Element { children, .. } => {
            proof {
                assert(decreases_to!(node => children));
            }
            list_within(e, children@)
        },
        DomNode::Text { .. } => false,
        DomNode::Other { children } => {
            proof {
                assert(decreases_to!(node => children));
            }
            list_within(e, children@)
        },
    }
}

/// `e` lies in one of the subtrees of `nodes`.
pub open spec fn list_within(e: DomNode, nodes: Seq<DomNode>) -> bool
    decreases nodes,
{
    nodes.len() > 0 && (list_within(e, nodes.drop_last()) || within(e, nodes.last()))
}

/// An element that generates nothing, whatever it inherits: its tag is a
/// non-rendered one, or its computed `display` is `none`.
pub open spec fn excluded(e: DomNode, styles: Map<usize, css::ElementStyle>) -> bool {
    e matches DomNode::Element { addr, local_name, .. } && (css::spec_non_rendered_tag(
        css::ascii_lower_seq(local_name@),
    ) || convert::is_display_none(convert::style_of(styles, addr)))
}

proof fn lemma_within_addrs(e: DomNode, node: DomNode)
    requires
        within(e, node),
    ensures
        subtree_addrs(e).subset_of(subtree_addrs(node)),
    decreases node,
{
    if e != node {
        match node {
            DomNode::Element { children, .. } => {
                assert(decreases_to!(node => children));
                lemma_list_within_addrs(e, children@);
            },
            DomNode::Other { children } => {
                assert(decreases_to!(node => children));
                lemma_list_within_addrs(e, children@);
            },
            DomNode::Text { .. } => {},
        }
    }
}

proof fn lemma_list_within_addrs(e: DomNode, nodes: Seq<DomNode>)
    requires
        list_within(e, nodes),
    ensures
        subtree_addrs(e).subset_of(list_addrs(nodes)),
    decreases nodes,
{
    if list_within(e, nodes.drop_last()) {
        lemma_list_within_addrs(e, nodes.drop_last());
    } else {
        lemma_within_addrs(e, nodes.last());
    }
}

/// Generation records only addresses of the subtree it generates.
proof fn lemma_node_entries_within(
    node: DomNode,
    styles: Map<usize, css::ElementStyle>,
    inh: InheritedView,
    next: nat,
)
    ensures
        forall|k: int|
            0 <= k < convert::gen_node(node, styles, inh, next).entries.len() ==> subtree_addrs(
                node,
            ).contains(#[trigger] convert::gen_node(node, styles, inh, next).entries[k].0),
    decreases node,
{
    let g = convert::gen_node(node, styles, inh, next);
    match node {
        DomNode::Element { addr, local_name, children } => {
            let computed = convert::style_of(styles, addr);
            if !(css::spec_non_rendered_tag(css::ascii_lower_seq(local_name@))
                || convert::is_display_none(computed)) {
                let own = convert::own_inherited(computed, addr, inh);
                assert(decreases_to!(node => children));
                lemma_list_entries_within(children@, styles, own, next);
                let kids = convert::gen_list(children@, styles, own, next);
                assert forall|k: int| 0 <= k < g.entries.len() implies subtree_addrs(node).contains(
                    #[trigger] g.entries[k].0,
                ) by {
                    if k < kids.entries.len() {
                        assert(g.entries[k] == kids.entries[k]);
                    }
                }
            }
        },
        _ => {},
    }
}

proof fn lemma_list_entries_within(
    nodes: Seq<DomNode>,
    styles: Map<usize, css::ElementStyle>,
    inh: InheritedView,
    next: nat,
)
    ensures
        forall|k: int|
            0 <= k < convert::gen_list(nodes, styles, inh, next).entries.len() ==> list_addrs(
                nodes,
            ).contains(#[trigger] convert::gen_list(nodes, styles, inh, next).entries[k].0),
    decreases nodes,
{
    if nodes.len() > 0 {
        let g = convert::gen_list(nodes, styles, inh, next);
        let pre = convert::gen_list(nodes.drop_last(), styles, inh, next);
        let mid = next + pre.boxes.len();
        let last = convert::gen_node(nodes.last(), styles, inh, mid);
        lemma_list_entries_within(nodes.drop_last(), styles, inh, next);
        lemma_node_entries_within(nodes.last(), styles, inh, mid);
        assert forall|k: int| 0 <= k < g.entries.len() implies list_addrs(nodes).contains(
            #[trigger] g.entries[k].0,
        ) by {
            if k < pre.entries.len() {
                assert(g.entries[k] == pre.entries[k]);
            } else {
                assert(g.entries[k] == last.entries[k - pre.entries.len()]);
            }
        }
    }
}

/// Generation of `node` records no address of an excluded element inside
/// it, nor of that element's descendants.
proof fn lemma_node_excluded_unrecorded(
    node: DomNode,
    e: DomNode,
    styles: Map<usize, css::ElementStyle>,
    inh: InheritedView,
    next: nat,
)
    requires
        distinct_addrs(node),
        within(e, node),
        excluded(e, styles),
    ensures
        forall|k: int|
            0 <= k < convert::gen_node(node, styles, inh, next).entries.len() ==> !subtree_addrs(
                e,
            ).contains(#[trigger] convert::gen_node(node, styles, inh, next).entries[k].0),
    decreases node,
{
    let g = convert::gen_node(node, styles, inh, next);
    if e == node {
        assert(g.entries.len() == 0);
    } else {
        match node {
            DomNode::Element { addr, local_name, children } => {
                let computed = convert::style_of(styles, addr);
                if !(css::spec_non_rendered_tag(css::ascii_lower_seq(local_name@))
                    || convert::is_display_none(computed)) {
                    let own = convert::own_inherited(computed, addr, inh);
                    assert(decreases_to!(node => children));
                    lemma_list_excluded_unrecorded(children@, e, styles, own, next);
                    lemma_list_within_addrs(e, children@);
                    let kids = convert::gen_list(children@, styles, own, next);
                    assert forall|k: int| 0 <= k < g.entries.len() implies !subtree_addrs(
                        e,
                    ).contains(#[trigger] g.entries[k].0) by {
                        if k < kids.entries.len() {
                            assert(g.entries[k] == kids.entries[k]);
                        } else {
                            assert(g.entries[k].0 == addr);
                        }
                    }
                }
            },
            DomNode::Other { .. } => {},
            DomNode::Text { .. } => {},
        }
    }
}

proof fn lemma_list_excluded_unrecorded(
    nodes: Seq<DomNode>,
    e: DomNode,
    styles: Map<usize, css::ElementStyle>,
    inh: InheritedView,
    next: nat,
)
    requires
        list_distinct(nodes),
        list_within(e, nodes),
        excluded(e, styles),
    ensures
        forall|k: int|
            0 <= k < convert::gen_list(nodes, styles, inh, next).entries.len() ==> !subtree_addrs(
                e,
            ).contains(#[trigger] convert::gen_list(nodes, styles, inh, next).entries[k].0),
    decreases nodes,
{
    let g = convert::gen_list(nodes, styles, inh, next);
    let pre = convert::gen_list(nodes.drop_last(), styles, inh, next);
    let mid = next + pre.boxes.len();
    let last = convert::gen_node(nodes.last(), styles, inh, mid);
    if list_within(e, nodes.drop_last()) {
        lemma_list_excluded_unrecorded(nodes.drop_last(), e, styles, inh, next);
        lemma_node_entries_within(nodes.last(), styles, inh, mid);
        lemma_list_within_addrs(e, nodes.drop_last());
    } else {
        lemma_node_excluded_unrecorded(nodes.last(), e, styles, inh, mid);
        lemma_list_entries_within(nodes.drop_last(), styles, inh, next);
        lemma_within_addrs(e, nodes.last());
    }
    assert forall|k: int| 0 <= k < g.entries.len() implies !subtree_addrs(e).contains(
        #[trigger] g.entries[k].0,
    ) by {
        if k < pre.entries.len() {
            assert(g.entries[k] == pre.entries[k]);
        } else {
            assert(g.entries[k] == last.entries[k - pre.entries.len()]);
        }
    }
}

proof fn lemma_apply_entries_keys(m: Map<usize, usize>, e: Seq<(usize, nat)>, a: usize)
    requires
        convert::apply_entries(m, e).contains_key(a),
    ensures
        m.contains_key(a) || exists|k: int| 0 <= k < e.len() && #[trigger] e[k].0 == a,
    decreases e.len(),
{
    if e.len() > 0 && e.last().0 != a {
        lemma_apply_entries_keys(m, e.drop_last(), a);
        if !m.contains_key(a) {
            let k = choose|k: int| 0 <= k < e.len() - 1 && #[trigger] e.drop_last()[k].0 == a;
            assert(e[k].0 == a);
        }
    } else if e.len() > 0 {
        assert(e[e.len() - 1].0 == a);
    }
}

/// Inside the root element, an element that is `display: none` or has a
/// non-rendered tag gets no box, and neither does anything inside it: when
/// the nodes there have distinct addresses, none of the addresses of its
/// subtree is in the node map.
pub proof fn lemma_excluded_subtree_unmapped(
    t: LayoutTree,
    root: DomNode,
    styles: Map<usize, css::ElementStyle>,
    e: DomNode,
)
    requires
        convert::tree_generated(t, root, styles),
        convert::spec_find_root(root) matches Some(el) && distinct_addrs(el) && within(e, el),
        excluded(e, styles),
    ensures
        forall|a: usize| #[trigger] subtree_addrs(e).contains(a) ==> !t.map_view().contains_key(a),
{
    let el = convert::spec_find_root(root)->0;
    let g = convert::gen_node(el, styles, convert::initial_inherited(), 0);
    lemma_node_excluded_unrecorded(el, e, styles, convert::initial_inherited(), 0);
    assert forall|a: usize| #[trigger] subtree_addrs(e).contains(a) implies !t.map_view().contains_key(
        a,
    ) by {
        if t.map_view().contains_key(a) {
            lemma_apply_entries_keys(Map::empty(), g.entries, a);
            let k = choose|k: int| 0 <= k < g.entries.len() && #[trigger] g.entries[k].0 == a;
            assert(!subtree_addrs(e).contains(g.entries[k].0));
        }
    }
}

/// `e` is `node`, or is reached from it through elements that are neither
/// `display: none` nor of a non-rendered tag.
pub open spec fn reaches(e: DomNode, node: DomNode, styles: Map<usize, css::ElementStyle>) -> bool
    decreases node,
{
    e == node || match node {
        DomNode::Element { children, .. } => {
            proof {
                assert(decreases_to!(node => children));
            }
            !excluded(node, styles) && list_reaches(e, children@, styles)
        },
        _ => false,
    }
}

/// `e` is reached from one of `nodes` (see [`reaches`]).
pub open spec fn list_reaches(
    e: DomNode,
    nodes: Seq<DomNode>,
    styles: Map<usize, css::ElementStyle>,
) -> bool
    decreases nodes,
{
    nodes.len() > 0 && (list_reaches(e, nodes.drop_last(), styles) || reaches(
        e,
        nodes.last(),
        styles,
    ))
}

/// A node that gets a box of its own when generated: a text node that is
/// not all ASCII white space, or an element that is neither excluded nor
/// `display: contents`.
pub open spec fn boxed(e: DomNode, styles: Map<usize, css::ElementStyle>) -> bool {
    match e {
        DomNode::Text { data, .. } => !css::all_ascii_ws(data@),
        DomNode::Element { addr, .. } => !excluded(e, styles) && !convert::is_display_contents(
            convert::style_of(styles, addr),
        ),
        DomNode::Other { .. } => false,
    }
}

/// The address of an element or text node.
pub open spec fn node_addr(e: DomNode) -> usize {
    match e {
        DomNode::Element { addr, .. } => addr,
        DomNode::Text { addr, .. } => addr,
        DomNode::Other { .. } => 0,
    }
}

proof fn lemma_node_reached_recorded(
    node: DomNode,
    e: DomNode,
    styles: Map<usize, css::ElementStyle>,
    inh: InheritedView,
    next: nat,
)
    requires
        reaches(e, node, styles),
        boxed(e, styles),
    ensures
        exists|k: int|
            0 <= k < convert::gen_node(node, styles, inh, next).entries.len()
                && #[trigger] convert::gen_node(node, styles, inh, next).entries[k].0 == node_addr(e),
    decreases node,
{
    let g = convert::gen_node(node, styles, inh, next);
    match node {
        DomNode::Element { addr, local_name, children } => {
            let computed = convert::style_of(styles, addr);
            let own = convert::own_inherited(computed, addr, inh);
            let kids = convert::gen_list(children@, styles, own, next);
            if e == node {
                assert(g.entries[g.entries.len() - 1].0 == node_addr(e));
            } else {
                assert(decreases_to!(node => children));
                lemma_list_reached_recorded(children@, e, styles, own, next);
                let k = choose|k: int| 0 <= k < kids.entries.len() && #[trigger] kids.entries[k].0 == node_addr(e);
                assert(g.entries[k] == kids.entries[k]);
            }
        },
        DomNode::Text { .. } => {
            assert(g.entries[0].0 == node_addr(e));
        },
        DomNode::Other { .. } => {},
    }
}

proof fn lemma_list_reached_recorded(
    nodes: Seq<DomNode>,
    e: DomNode,
    styles: Map<usize, css::ElementStyle>,
    inh: InheritedView,
    next: nat,
)
    requires
        list_reaches(e, nodes, styles),
        boxed(e, styles),
    ensures
        exists|k: int|
            0 <= k < convert::gen_list(nodes, styles, inh, next).entries.len()
                && #[trigger] convert::gen_list(nodes, styles, inh, next).entries[k].0 == node_addr(e),
    decreases nodes,
{
    let g = convert::gen_list(nodes, styles, inh, next);
    let pre = convert::gen_list(nodes.drop_last(), styles, inh, next);
    let mid = next + pre.boxes.len();
    let last = convert::gen_node(nodes.last(), styles, inh, mid);
    if list_reaches(e, nodes.drop_last(), styles) {
        lemma_list_reached_recorded(nodes.drop_last(), e, styles, inh, next);
        let k = choose|k: int| 0 <= k < pre.entries.len() && #[trigger] pre.entries[k].0 == node_addr(e);
        assert(g.entries[k] == pre.entries[k]);
    } else {
        lemma_node_reached_recorded(nodes.last(), e, styles, inh, mid);
        let k = choose|k: int| 0 <= k < last.entries.len() && #[trigger] last.entries[k].0 == node_addr(e);
        assert(g.entries[pre.entries.len() + k] == last.entries[k]);
    }
}

proof fn lemma_apply_entries_has_key(m: Map<usize, usize>, e: Seq<(usize, nat)>, k: int)
    requires
        0 <= k < e.len(),
    ensures
        convert::apply_entries(m, e).contains_key(e[k].0),
    decreases e.len(),
{
    if k < e.len() - 1 {
        lemma_apply_entries_has_key(m, e.drop_last(), k);
    }
}

/// Inside the root element, every non-blank text node and every element
/// that is neither `display: none`, `display: contents` nor of a
/// non-rendered tag gets a box recorded under its address, provided no
/// element on the way down from the root element is `display: none` or of
/// a non-rendered tag.
pub proof fn lemma_reached_node_mapped(
    t: LayoutTree,
    root: DomNode,
    styles: Map<usize, css::ElementStyle>,
    e: DomNode,
)
    requires
        convert::tree_generated(t, root, styles),
        convert::spec_find_root(root) matches Some(el) && reaches(e, el, styles),
        boxed(e, styles),
    ensures
        t.map_view().contains_key(node_addr(e)),
{
    let el = convert::spec_find_root(root)->0;
    let g = convert::gen_node(el, styles, convert::initial_inherited(), 0);
    lemma_node_reached_recorded(el, e, styles, convert::initial_inherited(), 0);
    let k = choose|k: int| 0 <= k < g.entries.len() && #[trigger] g.entries[k].0 == node_addr(e);
    lemma_apply_entries_has_key(Map::empty(), g.entries, k);
}

} // verus!
