//! Box tree generation: document tree + computed styles → layout box tree
//! (CSS Display Level 3 §2, CSS Positioned Layout Level 3 §3).

use vstd::prelude::*;

use std::collections::HashMap;

use crate::css;
use crate::dom::DomNode;
use crate::style_map;
use crate::text;
use crate::tree::{BoxContent, LayoutTree, LineHeight, TextContext};

verus! {

/// Computed style of each element, by node address.
pub type StyleMap = HashMap<usize, css::ElementStyle>;

/// The inherited text properties that a subtree's text boxes receive.
pub struct InheritedView {
    pub font_size: u32,
    pub font_family: Seq<char>,
    pub font_weight: u16,
    pub line_height: LineHeight,
    pub text_transform: Option<Seq<char>>,
}

/// A box as generation describes it. An element box records the computed
/// style it is mapped from and its children; a text box its text and
/// font properties.
pub enum BoxSpec {
    Element { style: Option<css::ElementStyle>, children: Seq<nat> },
    Text {
        text: Seq<char>,
        font_size: u32,
        font_family: Seq<char>,
        font_weight: u16,
        line_height: LineHeight,
    },
}

/// What generating a subtree yields when its boxes are numbered from some
/// index on: the boxes in creation order, the (address, box) records in
/// insertion order, the in-flow boxes for the parent, and the absolutely
/// positioned boxes still looking for a containing block.
pub struct Gen {
    pub boxes: Seq<BoxSpec>,
    pub entries: Seq<(usize, nat)>,
    pub in_flow: Seq<nat>,
    pub absolute: Seq<nat>,
}

pub open spec fn empty_gen() -> Gen {
    Gen { boxes: Seq::empty(), entries: Seq::empty(), in_flow: Seq::empty(), absolute: Seq::empty() }
}

pub open spec fn concat_gen(a: Gen, b: Gen) -> Gen {
    Gen {
        boxes: a.boxes + b.boxes,
        entries: a.entries + b.entries,
        in_flow: a.in_flow + b.in_flow,
        absolute: a.absolute + b.absolute,
    }
}

/// The text properties at the root: initial font size, family and weight,
/// `normal` line height, no transform.
pub open spec fn initial_inherited() -> InheritedView {
    InheritedView {
        font_size: text::DEFAULT_FONT_SIZE,
        font_family: text::DEFAULT_FONT_FAMILY@,
        font_weight: text::DEFAULT_FONT_WEIGHT,
        line_height: LineHeight::Initial,
        text_transform: None,
    }
}

/// The text properties an element passes to its subtree: its own font
/// size, family, weight and `text-transform` where its style sets them,
/// else the inherited ones; the line height of its own style (at its own
/// font size) when it has a style, else the inherited one.
pub open spec fn own_inherited(
    computed: Option<css::ElementStyle>,
    addr: usize,
    inh: InheritedView,
) -> InheritedView {
    match computed {
        None => inh,
        Some(cs) => {
            let fs = match text::spec_font_size(cs) {
                Some(x) => x,
                None => inh.font_size,
            };
            InheritedView {
                font_size: fs,
                font_family: match text::spec_font_family(cs) {
                    Some(f) => f,
                    None => inh.font_family,
                },
                font_weight: match text::spec_font_weight(cs) {
                    Some(w) => w,
                    None => inh.font_weight,
                },
                line_height: LineHeight::FromStyle { element: addr, font_size: fs },
                text_transform: match css::prop_keyword(cs, "text-transform"@) {
                    Some(k) => Some(k),
                    None => inh.text_transform,
                },
            }
        },
    }
}

/// The computed style of the element at `addr`, if any.
pub open spec fn style_of(styles: Map<usize, css::ElementStyle>, addr: usize) -> Option<
    css::ElementStyle,
> {
    if styles.contains_key(addr) {
        Some(styles[addr])
    } else {
        None
    }
}

/// `display: none` (ASCII case-insensitive).
pub open spec fn is_display_none(computed: Option<css::ElementStyle>) -> bool {
    style_map::opt_keyword(computed, "display"@) matches Some(k) && css::eq_ignore_ascii_case(
        k,
        "none"@,
    )
}

/// `display: contents`.
pub open spec fn is_display_contents(computed: Option<css::ElementStyle>) -> bool {
    style_map::opt_keyword(computed, "display"@) matches Some(k) && css::eq_ignore_ascii_case(
        k,
        "contents"@,
    )
}

/// `position: absolute` or `position: fixed`: out of flow.
pub open spec fn is_out_of_flow(computed: Option<css::ElementStyle>) -> bool {
    style_map::opt_keyword(computed, "position"@) matches Some(k) && (css::eq_ignore_ascii_case(
        k,
        "absolute"@,
    ) || css::eq_ignore_ascii_case(k, "fixed"@))
}

/// Positioned (`absolute`, `fixed` or `relative`): a containing block for
/// absolutely positioned descendants.
pub open spec fn is_positioned(computed: Option<css::ElementStyle>) -> bool {
    is_out_of_flow(computed) || (style_map::opt_keyword(computed, "position"@) matches Some(k)
        && css::eq_ignore_ascii_case(k, "relative"@))
}

/// Box generation for one node, boxes numbered from `next`:
/// - a text node that is all ASCII white space, and any node that is
///   neither element nor text, gives nothing;
/// - other text gives one leaf with the (transformed) text and inherited
///   font properties;
/// - an element with a non-rendered tag or `display: none` gives nothing
///   (its whole subtree is skipped);
/// - a `display: contents` element gives what its children give;
/// - any other element gives its children's boxes, then its own box, whose
///   children are its children's in-flow boxes, followed by the absolute
///   ones when it is positioned; an out-of-flow element passes its box up
///   as absolute, a relative one as in-flow, a static one passes its own
///   box in flow and its descendants' absolute boxes up.
pub open spec fn gen_node(
    node: DomNode,
    styles: Map<usize, css::ElementStyle>,
    inh: InheritedView,
    next: nat,
) -> Gen
    decreases node,
{
    match node {
        DomNode::Text { addr, data } => {
            if css::all_ascii_ws(data@) {
                empty_gen()
            } else {
                Gen {
                    boxes: seq![
                        BoxSpec::Text {
                            text: text::text_transformed(data@, inh.text_transform),
                            font_size: inh.font_size,
                            font_family: inh.font_family,
                            font_weight: inh.font_weight,
                            line_height: inh.line_height,
                        },
                    ],
                    entries: seq![(addr, next)],
                    in_flow: seq![next],
                    absolute: Seq::empty(),
                }
            }
        },
        DomNode::Other { .. } => empty_gen(),
        DomNode::Element { addr, local_name, children } => {
            let computed = style_of(styles, addr);
            if css::spec_non_rendered_tag(css::ascii_lower_seq(local_name@)) || is_display_none(
                computed,
            ) {
                empty_gen()
            } else {
                let own = own_inherited(computed, addr, inh);
                proof {
                    assert(decreases_to!(node => children));
                }
                let kids = gen_list(children@, styles, own, next);
                if is_display_contents(computed) {
                    kids
                } else {
                    let me = next + kids.boxes.len();
                    let ch = if is_positioned(computed) {
                        kids.in_flow + kids.absolute
                    } else {
                        kids.in_flow
                    };
                    Gen {
                        boxes: kids.boxes.push(BoxSpec::Element { style: computed, children: ch }),
                        entries: kids.entries.push((addr, me)),
                        in_flow: if is_out_of_flow(computed) {
                            Seq::empty()
                        } else {
                            seq![me]
                        },
                        absolute: if is_out_of_flow(computed) {
                            seq![me]
                        } else if is_positioned(computed) {
                            Seq::empty()
                        } else {
                            kids.absolute
                        },
                    }
                }
            }
        },
    }
}

/// Box generation for a sequence of sibling nodes, in order, numbering on.
pub open spec fn gen_list(
    nodes: Seq<DomNode>,
    styles: Map<usize, css::ElementStyle>,
    inh: InheritedView,
    next: nat,
) -> Gen
    decreases nodes,
{
    if nodes.len() == 0 {
        empty_gen()
    } else {
        let pre = gen_list(nodes.drop_last(), styles, inh, next);
        let last = gen_node(nodes.last(), styles, inh, next + pre.boxes.len());
        concat_gen(pre, last)
    }
}

} // verus!

verus! {

/// Box indices as natural numbers.
pub open spec fn nats(s: Seq<usize>) -> Seq<nat> {
    s.map_values(|x: usize| x as nat)
}

/// The map after recording the entries in order (a later record for the
/// same address replaces an earlier one).
pub open spec fn apply_entries(m: Map<usize, usize>, e: Seq<(usize, nat)>) -> Map<usize, usize>
    decreases e.len(),
{
    if e.len() == 0 {
        m
    } else {
        apply_entries(m, e.drop_last()).insert(e.last().0, e.last().1 as usize)
    }
}

/// The children that generation gives a box.
pub open spec fn spec_children(b: BoxSpec) -> Seq<nat> {
    match b {
        BoxSpec::Element { children, .. } => children,
        BoxSpec::Text { .. } => Seq::empty(),
    }
}

/// A box content is what generation describes: an element box's style is
/// the mapping of the recorded computed style; a text box holds the text
/// and font properties.
pub open spec fn content_realizes(c: BoxContent, b: BoxSpec) -> bool {
    match b {
        BoxSpec::Element { style, .. } => match c {
            BoxContent::Element(s) => style_map::style_maps(s, style),
            BoxContent::Text(_) => false,
        },
        BoxSpec::Text { text, font_size, font_family, font_weight, line_height } => match c {
            BoxContent::Text(t) => {
                &&& t.text@ == text
                &&& t.font_size == font_size
                &&& t.font_family@ == font_family
                &&& t.font_weight == font_weight
                &&& t.line_height == line_height
            },
            BoxContent::Element(_) => false,
        },
    }
}

/// The boxes of `t` from index `base` on are exactly the boxes of `g`.
pub open spec fn realizes_from(t: LayoutTree, base: nat, g: Gen) -> bool {
    &&& t.contents_view().len() == base + g.boxes.len()
    &&& t.children_view().len() == t.contents_view().len()
    &&& forall|k: int|
        0 <= k < g.boxes.len() ==> content_realizes(
            #[trigger] t.contents_view()[base + k],
            g.boxes[k],
        ) && nats(t.children_view()[base + k]) == spec_children(g.boxes[k])
}

/// The boxes below index `n` are the same in both trees.
pub open spec fn same_below(a: LayoutTree, b: LayoutTree, n: nat) -> bool {
    &&& a.contents_view().len() >= n
    &&& b.contents_view().len() >= n
    &&& a.children_view().len() >= n
    &&& b.children_view().len() >= n
    &&& forall|k: int| #![trigger b.contents_view()[k]] 0 <= k < n ==> a.contents_view()[k] == b.contents_view()[k]
    &&& forall|k: int| #![trigger b.children_view()[k]] 0 <= k < n ==> a.children_view()[k] == b.children_view()[k]
}

/// `after` is `before` with the boxes of `g` added after its own, the
/// records of `g` applied to its map, and `in_flow` / `absolute` the
/// indices `g` hands up.
pub open spec fn generation_done(
    before: LayoutTree,
    after: LayoutTree,
    in_flow: Seq<usize>,
    absolute: Seq<usize>,
    g: Gen,
) -> bool {
    &&& realizes_from(after, before.contents_view().len(), g)
    &&& same_below(before, after, before.contents_view().len())
    &&& after.map_view() == apply_entries(before.map_view(), g.entries)
    &&& after.root_view() == before.root_view()
    &&& nats(in_flow) == g.in_flow
    &&& nats(absolute) == g.absolute
    &&& forall|j: int|
        0 <= j < in_flow.len() ==> before.contents_view().len() <= #[trigger] in_flow[j]
            < after.contents_view().len()
    &&& forall|j: int|
        0 <= j < absolute.len() ==> before.contents_view().len() <= #[trigger] absolute[j]
            < after.contents_view().len()
}

pub proof fn lemma_apply_entries_concat(m: Map<usize, usize>, a: Seq<(usize, nat)>, b: Seq<(usize, nat)>)
    ensures
        apply_entries(m, a + b) == apply_entries(apply_entries(m, a), b),
    decreases b.len(),
{
    if b.len() == 0 {
        assert(a + b =~= a);
    } else {
        assert((a + b).drop_last() =~= a + b.drop_last());
        lemma_apply_entries_concat(m, a, b.drop_last());
    }
}

proof fn lemma_gen_list_step(
    s: Seq<DomNode>,
    i: int,
    styles: Map<usize, css::ElementStyle>,
    inh: InheritedView,
    next: nat,
)
    requires
        0 <= i < s.len(),
    ensures
        gen_list(s.take(i + 1), styles, inh, next) == concat_gen(
            gen_list(s.take(i), styles, inh, next),
            gen_node(s[i], styles, inh, next + gen_list(s.take(i), styles, inh, next).boxes.len()),
        ),
{
    assert(s.take(i + 1).drop_last() =~= s.take(i));
    assert(s.take(i + 1).last() == s[i]);
}

proof fn lemma_child_decreases(node: DomNode, i: int)
    requires
        node matches DomNode::Element { children, .. } && 0 <= i < children@.len(),
    ensures
        node matches DomNode::Element { children, .. } && decreases_to!(node => children@[i]),
{
    match node {
        DomNode::Element { children, .. } => {
            assert(decreases_to!(node => children));
            assert(decreases_to!(children => children@));
            assert(decreases_to!(children@ => children@[i]));
        },
        _ => {},
    }
}

/// Inherited text properties handed down while generating boxes.
struct InheritedText {
    font_size: u32,
    font_family: String,
    font_weight: u16,
    line_height: LineHeight,
    text_transform: Option<String>,
}

impl InheritedText {
    closed spec fn as_view(&self) -> InheritedView {
        InheritedView {
            font_size: self.font_size,
            font_family: self.font_family@,
            font_weight: self.font_weight,
            line_height: self.line_height,
            text_transform: match &self.text_transform {
                Some(t) => Some(t@),
                None => None,
            },
        }
    }
}

/// Boxes that generation of a subtree hands to its parent.
struct Built {
    in_flow: Vec<usize>,
    absolute: Vec<usize>,
}

fn empty_built() -> (b: Built)
    ensures
        b.in_flow@.len() == 0,
        b.absolute@.len() == 0,
{
    Built { in_flow: Vec::new(), absolute: Vec::new() }
}

fn style_for(styles: &StyleMap, addr: usize) -> (r: Option<&css::ElementStyle>)
    ensures
        match r {
            Some(c) => Some(*c),
            None => None,
        } == style_of(styles@, addr),
{
    styles.get(&addr)
}

fn own_inherited_text(computed: Option<&css::ElementStyle>, addr: usize, inh: &InheritedText) -> (r:
    InheritedText)
    ensures
        r.as_view() == own_inherited(
            match computed {
                Some(c) => Some(*c),
                None => None,
            },
            addr,
            inh.as_view(),
        ),
{
    match computed {
        None => InheritedText {
            font_size: inh.font_size,
            font_family: inh.font_family.clone(),
            font_weight: inh.font_weight,
            line_height: inh.line_height,
            text_transform: match &inh.text_transform {
                Some(t) => Some(t.clone()),
                None => None,
            },
        },
        Some(cs) => {
            let font_size = match text::resolve_font_size(cs) {
                Some(x) => x,
                None => inh.font_size,
            };
            let font_family = match text::resolve_font_family(cs) {
                Some(f) => f,
                None => inh.font_family.clone(),
            };
            let font_weight = match text::resolve_font_weight(cs) {
                Some(w) => w,
                None => inh.font_weight,
            };
            let text_transform = match cs.get_keyword("text-transform") {
                Some(k) => Some(k.clone()),
                None => match &inh.text_transform {
                    Some(t) => Some(t.clone()),
                    None => None,
                },
            };
            InheritedText {
                font_size,
                font_family,
                font_weight,
                line_height: LineHeight::FromStyle { element: addr, font_size },
                text_transform,
            }
        },
    }
}

} // verus!

verus! {

fn build_text_leaf(
    tree: &mut LayoutTree,
    node: &DomNode,
    addr: usize,
    data: &String,
    inherited: &InheritedText,
    Ghost(styles): Ghost<Map<usize, css::ElementStyle>>,
) -> (built: Built)
    requires
        *node == (DomNode::Text { addr, data: *data }),
    ensures
        generation_done(
            *old(tree),
            *final(tree),
            built.in_flow@,
            built.absolute@,
            gen_node(*node, styles, inherited.as_view(), old(tree).contents_view().len()),
        ),
{
    tree.check_well_formed();
    if css::is_all_ascii_whitespace(data.as_str()) {
        let b = empty_built();
        assert(nats(b.in_flow@) =~= Seq::empty());
        assert(nats(b.absolute@) =~= Seq::empty());
        return b;
    }
    let transformed = text::apply_text_transform(
        data.as_str(),
        match &inherited.text_transform {
            Some(k) => Some(k.as_str()),
            None => None,
        },
    );
    let ctx = TextContext {
        text: transformed,
        font_size: inherited.font_size,
        font_family: inherited.font_family.clone(),
        font_weight: inherited.font_weight,
        line_height: inherited.line_height,
    };
    let leaf = tree.push_box(BoxContent::Text(ctx), Vec::new());
    tree.map_node(addr, leaf);
    let mut in_flow: Vec<usize> = Vec::new();
    in_flow.push(leaf);
    let b = Built { in_flow, absolute: Vec::new() };
    tree.check_well_formed();
    proof {
        let n = old(tree).contents_view().len();
        let g = gen_node(*node, styles, inherited.as_view(), n);
        assert(nats(b.in_flow@) =~= g.in_flow);
        assert(nats(b.absolute@) =~= g.absolute);
        assert(g.entries.drop_last() =~= Seq::empty());
        assert(apply_entries(old(tree).map_view(), g.entries.drop_last()) == old(tree).map_view());
        assert(nats(tree.children_view()[n as int]) =~= Seq::empty());
    }
    b
}

/// Generates the boxes of one node's subtree into `tree` (see [`gen_node`]).
#[verifier::rlimit(80)]
#[verifier::spinoff_prover]
fn build_node_recursive(
    tree: &mut LayoutTree,
    node: &DomNode,
    styles: &StyleMap,
    inherited: &InheritedText,
) -> (built: Built)
    ensures
        generation_done(
            *old(tree),
            *final(tree),
            built.in_flow@,
            built.absolute@,
            gen_node(*node, styles@, inherited.as_view(), old(tree).contents_view().len()),
        ),
    decreases node,
{
    tree.check_well_formed();
    match node {
        DomNode::Text { addr, data } => build_text_leaf(tree, node, *addr, data, inherited, Ghost(styles@)),
        DomNode::Other { .. } => {
            let b = empty_built();
            assert(nats(b.in_flow@) =~= Seq::empty());
            assert(nats(b.absolute@) =~= Seq::empty());
            b
        },
        DomNode::Element { addr, local_name, children } => {
            let computed = style_for(styles, *addr);
            let tag = css::ascii_lowercase(local_name.as_str());
            if css::is_non_rendered_tag(tag.as_str()) {
                let b = empty_built();
                assert(nats(b.in_flow@) =~= Seq::empty());
                assert(nats(b.absolute@) =~= Seq::empty());
                return b;
            }
            let display_kw = style_map::keyword_opt(computed, "display");
            let mut is_none = false;
            let mut is_contents = false;
            match display_kw {
                Some(k) => {
                    is_none = css::kw_eq(k.as_str(), "none");
                    is_contents = css::kw_eq(k.as_str(), "contents");
                },
                None => {},
            }
            if is_none {
                let b = empty_built();
                assert(nats(b.in_flow@) =~= Seq::empty());
                assert(nats(b.absolute@) =~= Seq::empty());
                return b;
            }
            let own = own_inherited_text(computed, *addr, inherited);
            let ghost start = tree.contents_view().len();
            let ghost map0 = tree.map_view();
            let ghost tree0 = *tree;
            let mut in_flow_children: Vec<usize> = Vec::new();
            let mut absolute_desc: Vec<usize> = Vec::new();
            let mut i: usize = 0;
            proof {
                assert(children@.take(0) =~= Seq::<DomNode>::empty());
                assert(nats(in_flow_children@) =~= Seq::empty());
                assert(nats(absolute_desc@) =~= Seq::empty());
            }
            while i < children.len()
                invariant
                    i <= children@.len(),
                    *node == (DomNode::Element {
                        addr: *addr,
                        local_name: *local_name,
                        children: *children,
                    }),
                    start == old(tree).contents_view().len(),
                    tree0 == *old(tree),
                    map0 == old(tree).map_view(),
                    ({
                        let g = gen_list(children@.take(i as int), styles@, own.as_view(), start);
                        &&& realizes_from(*tree, start, g)
                        &&& same_below(tree0, *tree, start)
                        &&& tree.map_view() == apply_entries(map0, g.entries)
                        &&& tree.root_view() == tree0.root_view()
                        &&& nats(in_flow_children@) == g.in_flow
                        &&& nats(absolute_desc@) == g.absolute
                    }),
                    forall|j: int|
                        0 <= j < in_flow_children@.len() ==> start <= #[trigger] in_flow_children@[j]
                            < tree.contents_view().len(),
                    forall|j: int|
                        0 <= j < absolute_desc@.len() ==> start <= #[trigger] absolute_desc@[j]
                            < tree.contents_view().len(),
                decreases children.len() - i,
            {
                let ghost before = *tree;
                let ghost g0 = gen_list(children@.take(i as int), styles@, own.as_view(), start);
                proof {
                    lemma_child_decreases(*node, i as int);
                }
                let mut b = build_node_recursive(tree, &children[i], styles, &own);
                let ghost gi_node = gen_node(children@[i as int], styles@, own.as_view(), before.contents_view().len());
                in_flow_children.append(&mut b.in_flow);
                absolute_desc.append(&mut b.absolute);
                proof {
                    lemma_gen_list_step(children@, i as int, styles@, own.as_view(), start);
                    let g1 = gen_list(children@.take(i + 1), styles@, own.as_view(), start);
                    assert(g1 == concat_gen(g0, gi_node));
                    lemma_apply_entries_concat(map0, g0.entries, gi_node.entries);
                    assert(nats(in_flow_children@) =~= g1.in_flow);
                    assert(nats(absolute_desc@) =~= g1.absolute);
                    assert forall|k: int| 0 <= k < g1.boxes.len() implies content_realizes(
                        #[trigger] tree.contents_view()[start + k],
                        g1.boxes[k],
                    ) && nats(tree.children_view()[start + k]) == spec_children(g1.boxes[k]) by {
                        if k < g0.boxes.len() {
                            assert(before.contents_view()[start + k] == tree.contents_view()[start + k]);
                        } else {
                            let kk = k - g0.boxes.len();
                            assert(tree.contents_view()[before.contents_view().len() + kk]
                                == tree.contents_view()[start + k]);
                        }
                    }
                }
                i = i + 1;
            }
            proof {
                assert(children@.take(children@.len() as int) =~= children@);
            }
            if is_contents {
                return Built { in_flow: in_flow_children, absolute: absolute_desc };
            }
            let style = style_map::map_style(computed);
            let position_kw = style_map::keyword_opt(computed, "position");
            let mut is_absolute = false;
            let mut is_relative = false;
            match position_kw {
                Some(k) => {
                    is_absolute = css::kw_eq(k.as_str(), "absolute") || css::kw_eq(k.as_str(), "fixed");
                    is_relative = css::kw_eq(k.as_str(), "relative");
                },
                None => {},
            }
            let ghost kids = gen_list(children@, styles@, own.as_view(), start);
            let ghost tree1 = *tree;
            if is_absolute || is_relative {
                let mut ch = in_flow_children;
                let mut abs = absolute_desc;
                ch.append(&mut abs);
                let me = tree.push_box(BoxContent::Element(style), ch);
                tree.map_node(*addr, me);
                let mut one: Vec<usize> = Vec::new();
                one.push(me);
                let b = if is_absolute {
                    Built { in_flow: Vec::new(), absolute: one }
                } else {
                    Built { in_flow: one, absolute: Vec::new() }
                };
                tree.check_well_formed();
                proof {
                    let g = gen_node(*node, styles@, inherited.as_view(), start);
                    assert(nats(tree.children_view()[me as int]) =~= kids.in_flow + kids.absolute);
                    assert(nats(b.in_flow@) =~= g.in_flow);
                    assert(nats(b.absolute@) =~= g.absolute);
                    assert(g.entries.drop_last() =~= kids.entries);
                    assert forall|k: int| 0 <= k < g.boxes.len() implies content_realizes(
                        #[trigger] tree.contents_view()[start + k],
                        g.boxes[k],
                    ) && nats(tree.children_view()[start + k]) == spec_children(g.boxes[k]) by {
                        if k < kids.boxes.len() {
                            assert(tree1.contents_view()[start + k] == tree.contents_view()[start + k]);
                        }
                    }
                }
                b
            } else {
                let me = tree.push_box(BoxContent::Element(style), in_flow_children);
                tree.map_node(*addr, me);
                let mut one: Vec<usize> = Vec::new();
                one.push(me);
                let b = Built { in_flow: one, absolute: absolute_desc };
                tree.check_well_formed();
                proof {
                    let g = gen_node(*node, styles@, inherited.as_view(), start);
                    assert(nats(b.in_flow@) =~= g.in_flow);
                    assert(g.entries.drop_last() =~= kids.entries);
                    assert forall|k: int| 0 <= k < g.boxes.len() implies content_realizes(
                        #[trigger] tree.contents_view()[start + k],
                        g.boxes[k],
                    ) && nats(tree.children_view()[start + k]) == spec_children(g.boxes[k]) by {
                        if k < kids.boxes.len() {
                            assert(tree1.contents_view()[start + k] == tree.contents_view()[start + k]);
                        }
                    }
                }
                b
            }
        },
    }
}

} // verus!

verus! {

/// The root element of a document tree: the node itself when it is an
/// element, else the first root element found among its children, in order
/// (this skips document and doctype nodes).
pub open spec fn spec_find_root(node: DomNode) -> Option<DomNode>
    decreases node,
{
    match node {
        DomNode::Element { .. } => Some(node),
        DomNode::Text { .. } => None,
        DomNode::Other { children } => {
            proof {
                assert(decreases_to!(node => children));
            }
            find_root_in(children@)
        },
    }
}

/// The first root element found among `nodes`, in order.
pub open spec fn find_root_in(nodes: Seq<DomNode>) -> Option<DomNode>
    decreases nodes,
{
    if nodes.len() == 0 {
        None
    } else {
        match spec_find_root(nodes[0]) {
            Some(r) => Some(r),
            None => find_root_in(nodes.drop_first()),
        }
    }
}

proof fn lemma_find_child_decreases(node: DomNode, i: int)
    requires
        node matches DomNode::Other { children } && 0 <= i < children@.len(),
    ensures
        node matches DomNode::Other { children } && decreases_to!(node => children@[i]),
{
    match node {
        DomNode::Other { children } => {
            assert(decreases_to!(node => children));
            assert(decreases_to!(children => children@));
            assert(decreases_to!(children@ => children@[i]));
        },
        _ => {},
    }
}

/// Finds the root element of a document tree (see [`spec_find_root`]).
fn find_root_element(node: &DomNode) -> (r: Option<&DomNode>)
    ensures
        match r {
            Some(x) => spec_find_root(*node) == Some(*x),
            None => spec_find_root(*node) is None,
        },
    decreases node,
{
    match node {
        DomNode::Element { .. } => Some(node),
        DomNode::Text { .. } => None,
        DomNode::Other { children } => {
            let mut i: usize = 0;
            assert(children@.subrange(0, children@.len() as int) =~= children@);
            while i < children.len()
                invariant
                    i <= children@.len(),
                    *node == (DomNode::Other { children: *children }),
                    find_root_in(children@) == find_root_in(
                        children@.subrange(i as int, children@.len() as int),
                    ),
                decreases children.len() - i,
            {
                proof {
                    lemma_find_child_decreases(*node, i as int);
                    let rest = children@.subrange(i as int, children@.len() as int);
                    assert(rest[0] == children@[i as int]);
                    assert(rest.drop_first() =~= children@.subrange(i + 1, children@.len() as int));
                }
                match find_root_element(&children[i]) {
                    Some(found) => {
                        return Some(found);
                    },
                    None => {},
                }
                i = i + 1;
            }
            None
        },
    }
}

/// The children that box `k` ends up with: those generation gives it, and
/// for the root box (the first in-flow box), also the absolute boxes that
/// found no positioned ancestor.
pub open spec fn final_children(g: Gen, k: nat) -> Seq<nat> {
    if g.in_flow.len() > 0 && k == g.in_flow[0] {
        spec_children(g.boxes[k as int]) + g.absolute
    } else {
        spec_children(g.boxes[k as int])
    }
}

/// `t` is the box tree of the document `root` under `styles`: empty when
/// there is no root element; else the boxes generated from the root
/// element with the initial text properties, numbered from 0, with
/// the node map from the generation records, the first in-flow box as
/// root, and the unplaced absolute boxes appended to the root's children.
pub open spec fn tree_generated(t: LayoutTree, root: DomNode, styles: Map<usize, css::ElementStyle>) -> bool {
    match spec_find_root(root) {
        None => {
            &&& t.contents_view().len() == 0
            &&& t.map_view() == Map::<usize, usize>::empty()
            &&& t.root_view() is None
        },
        Some(el) => tree_holds(t, gen_node(el, styles, initial_inherited(), 0)),
    }
}

/// `t` holds the boxes of the generation `g` of the root element (see
/// [`tree_generated`]).
pub open spec fn tree_holds(t: LayoutTree, g: Gen) -> bool {
    &&& t.contents_view().len() == g.boxes.len()
    &&& t.children_view().len() == g.boxes.len()
    &&& t.root_view() == if g.in_flow.len() > 0 {
        Some(g.in_flow[0] as usize)
    } else {
        None
    }
    &&& t.map_view() == apply_entries(Map::empty(), g.entries)
    &&& forall|k: int|
        0 <= k < g.boxes.len() ==> content_realizes(#[trigger] t.contents_view()[k], g.boxes[k])
    &&& forall|k: int|
        0 <= k < g.boxes.len() ==> nats(#[trigger] t.children_view()[k]) == final_children(g, k as nat)
}

/// Builds the layout box tree of a document tree.
///
/// Starting from the root element (document and doctype nodes are skipped),
/// each element that is rendered gets a box mapped from its computed style,
/// each non-blank text node a text leaf; `display: none` subtrees and
/// non-rendered tags get nothing; `display: contents` elements pass their
/// children's boxes to their parent; absolutely positioned boxes are placed
/// in their nearest positioned ancestor, or in the root box.
pub fn build_layout_tree(root: &DomNode, styles: &StyleMap) -> (tree: LayoutTree)
    ensures
        tree.well_formed(),
        tree_generated(tree, *root, styles@),
{
    let mut tree = LayoutTree::new();
    match find_root_element(root) {
        Some(root_el) => {
            let initial = InheritedText {
                font_size: text::DEFAULT_FONT_SIZE,
                font_family: text::DEFAULT_FONT_FAMILY.to_owned(),
                font_weight: text::DEFAULT_FONT_WEIGHT,
                line_height: LineHeight::Initial,
                text_transform: None,
            };
            let ghost t0 = tree;
            let built = build_node_recursive(&mut tree, root_el, styles, &initial);
            let ghost g = gen_node(*root_el, styles@, initial_inherited(), 0);
            assert(initial.as_view() == initial_inherited());
            assert(apply_entries(Map::empty(), g.entries) == apply_entries(t0.map_view(), g.entries));
            let r = if built.in_flow.len() > 0 {
                Some(built.in_flow[0])
            } else {
                None
            };
            tree.set_root(r);
            let ghost t1 = tree;
            match r {
                Some(rid) => {
                    tree.append_children(rid, &built.absolute);
                },
                None => {},
            }
            proof {
                assert forall|k: int| 0 <= k < g.boxes.len() implies content_realizes(
                    #[trigger] tree.contents_view()[k],
                    g.boxes[k],
                ) by {
                    assert(t1.contents_view()[0 + k] == tree.contents_view()[k]);
                }
                assert forall|k: int| 0 <= k < g.boxes.len() implies nats(
                    #[trigger] tree.children_view()[k],
                ) == final_children(g, k as nat) by {
                    assert(t1.contents_view()[0 + k] == tree.contents_view()[k]);
                    assert(nats(t1.children_view()[0 + k]) == spec_children(g.boxes[k]));
                    if g.in_flow.len() > 0 && k == g.in_flow[0] {
                        assert(nats(tree.children_view()[k]) =~= nats(t1.children_view()[k]) + nats(built.absolute@));
                    }
                }
                assert(spec_find_root(*root) == Some(*root_el));
                assert(tree_holds(tree, g));
            }
        },
        None => {
            assert(tree_generated(tree, *root, styles@));
        },
    }
    tree.check_well_formed();
    tree
}

} // verus!

verus! {

/// An element whose computed `display` is `none` generates no box, no
/// node-map record and nothing for its parent: its whole subtree is
/// excluded from the box tree.
pub proof fn lemma_display_none_excludes_subtree(
    node: DomNode,
    styles: Map<usize, css::ElementStyle>,
    inh: InheritedView,
    next: nat,
)
    requires
        node matches DomNode::Element { addr, .. } && is_display_none(style_of(styles, addr)),
    ensures
        gen_node(node, styles, inh, next) == empty_gen(),
{
}

/// An element whose lower-cased tag is a non-rendered one (head, title,
/// script, style, meta, link, base, template) generates nothing.
pub proof fn lemma_non_rendered_tag_excluded(
    node: DomNode,
    styles: Map<usize, css::ElementStyle>,
    inh: InheritedView,
    next: nat,
)
    requires
        node matches DomNode::Element { local_name, .. } && css::spec_non_rendered_tag(
            css::ascii_lower_seq(local_name@),
        ),
    ensures
        gen_node(node, styles, inh, next) == empty_gen(),
{
}

/// A text node generates nothing when it is all ASCII white space, and
/// otherwise exactly one in-flow leaf, recorded under its address, holding
/// its transformed text and the inherited font properties.
pub proof fn lemma_text_node_leaf(
    node: DomNode,
    styles: Map<usize, css::ElementStyle>,
    inh: InheritedView,
    next: nat,
)
    requires
        node is Text,
    ensures
        ({
            let g = gen_node(node, styles, inh, next);
            match node {
                DomNode::Text { addr, data } => if css::all_ascii_ws(data@) {
                    g == empty_gen()
                } else {
                    &&& g.boxes.len() == 1
                    &&& g.boxes[0] == (BoxSpec::Text {
                        text: text::text_transformed(data@, inh.text_transform),
                        font_size: inh.font_size,
                        font_family: inh.font_family,
                        font_weight: inh.font_weight,
                        line_height: inh.line_height,
                    })
                    &&& g.entries == seq![(addr, next)]
                    &&& g.in_flow == seq![next]
                    &&& g.absolute.len() == 0
                },
                _ => true,
            }
        }),
{
}

/// A `display: contents` element (that is rendered) generates exactly what
/// its children generate, with the text properties it passes on: it has no
/// box of its own, and its children's in-flow boxes go to its parent.
pub proof fn lemma_display_contents_splices_children(
    node: DomNode,
    styles: Map<usize, css::ElementStyle>,
    inh: InheritedView,
    next: nat,
)
    requires
        node matches DomNode::Element { addr, local_name, .. } && is_display_contents(
            style_of(styles, addr),
        ) && !css::spec_non_rendered_tag(css::ascii_lower_seq(local_name@)),
    ensures
        node matches DomNode::Element { addr, children, .. } && gen_node(node, styles, inh, next)
            == gen_list(
            children@,
            styles,
            own_inherited(style_of(styles, addr), addr, inh),
            next,
        ),
{
    let cs = style_of(styles, node->Element_addr);
    assert(!is_display_none(cs)) by {
        let k = style_map::opt_keyword(cs, "display"@)->0;
        reveal_strlit("none");
        reveal_strlit("contents");
        assert(css::eq_ignore_ascii_case(k, "contents"@));
        if css::eq_ignore_ascii_case(k, "none"@) {
            assert(k.len() == 8 && k.len() == 4);
        }
    }
}

/// A rendered element that is neither `display: none` nor `contents` gets
/// one box, created after all boxes of its subtree and recorded under its
/// address. The box's children are the in-flow boxes of its children
/// (in document order), followed, when the element is positioned, by the
/// absolute boxes of its subtree. An out-of-flow element hands its box up
/// as absolute; a relative one hands it up in flow; a static one hands up
/// its box in flow and its subtree's absolute boxes.
pub proof fn lemma_element_box(
    node: DomNode,
    styles: Map<usize, css::ElementStyle>,
    inh: InheritedView,
    next: nat,
)
    requires
        node matches DomNode::Element { addr, local_name, .. } && !is_display_none(
            style_of(styles, addr),
        ) && !is_display_contents(style_of(styles, addr)) && !css::spec_non_rendered_tag(
            css::ascii_lower_seq(local_name@),
        ),
    ensures
        node matches DomNode::Element { addr, children, .. } && ({
            let cs = style_of(styles, addr);
            let kids = gen_list(children@, styles, own_inherited(cs, addr, inh), next);
            let g = gen_node(node, styles, inh, next);
            let me = next + kids.boxes.len();
            &&& g.boxes.len() == kids.boxes.len() + 1
            &&& g.boxes.last() == (BoxSpec::Element {
                style: cs,
                children: if is_positioned(cs) {
                    kids.in_flow + kids.absolute
                } else {
                    kids.in_flow
                },
            })
            &&& g.entries.last() == (addr, me)
            &&& is_out_of_flow(cs) ==> g.in_flow.len() == 0 && g.absolute == seq![me]
            &&& !is_out_of_flow(cs) ==> g.in_flow == seq![me]
            &&& (is_positioned(cs) && !is_out_of_flow(cs)) ==> g.absolute.len() == 0
            &&& !is_positioned(cs) ==> g.absolute == kids.absolute
        }),
{
}

/// Containing blocks: a rendered element whose computed `position` is
/// missing, `static`, or any keyword other than `absolute`, `fixed` and
/// `relative` is not a containing block: its box's children are exactly its
/// children's in-flow boxes, its box goes to its parent in flow, and every
/// absolute box of its subtree is handed up to its parent. An `absolute`,
/// `fixed` or `relative` element takes the absolute boxes of its subtree as
/// children after its in-flow ones and hands none of them up; an `absolute`
/// or `fixed` box itself goes up as absolute, a `relative` one in flow.
pub proof fn lemma_containing_blocks(
    node: DomNode,
    styles: Map<usize, css::ElementStyle>,
    inh: InheritedView,
    next: nat,
)
    requires
        node matches DomNode::Element { addr, local_name, .. } && !is_display_none(
            style_of(styles, addr),
        ) && !is_display_contents(style_of(styles, addr)) && !css::spec_non_rendered_tag(
            css::ascii_lower_seq(local_name@),
        ),
    ensures
        node matches DomNode::Element { addr, children, .. } && ({
            let cs = style_of(styles, addr);
            let pos = style_map::opt_keyword(cs, "position"@);
            let kids = gen_list(children@, styles, own_inherited(cs, addr, inh), next);
            let g = gen_node(node, styles, inh, next);
            let me = next + kids.boxes.len();
            let out_of_flow = pos matches Some(k) && (css::eq_ignore_ascii_case(k, "absolute"@)
                || css::eq_ignore_ascii_case(k, "fixed"@));
            let relative = pos matches Some(k) && css::eq_ignore_ascii_case(k, "relative"@);
            &&& !out_of_flow && !relative ==> g.boxes.last() == (BoxSpec::Element {
                style: cs,
                children: kids.in_flow,
            }) && g.in_flow == seq![me] && g.absolute == kids.absolute
            &&& out_of_flow || relative ==> g.boxes.last() == (BoxSpec::Element {
                style: cs,
                children: kids.in_flow + kids.absolute,
            })
            &&& out_of_flow ==> g.in_flow.len() == 0 && g.absolute == seq![me]
            &&& relative ==> g.in_flow == seq![me] && g.absolute.len() == 0
        }),
{
    reveal_strlit("absolute");
    reveal_strlit("fixed");
    reveal_strlit("relative");
    let cs = style_of(styles, node->Element_addr);
    let pos = style_map::opt_keyword(cs, "position"@);
    if pos matches Some(k) && css::eq_ignore_ascii_case(k, "relative"@) {
        let k = pos->0;
        assert(css::ascii_lower(k[0]) == 'r');
    }
}

} // verus!
