//! Properties of generated box trees beyond the element/box counts.

use std::collections::HashMap;

use muskitty_layout::convert::{build_layout_tree, StyleMap};
use muskitty_layout::css::{CssNumber, CssToken, CssValue, ElementStyle};
use muskitty_layout::dom::DomNode;
use muskitty_layout::style_map::{DisplayMode, PositionMode};
use muskitty_layout::tree::{BoxContent, LayoutTree, LineHeight};
use muskitty_layout::text::DEFAULT_FONT_SIZE;

fn element(addr: usize, tag: &str, children: Vec<DomNode>) -> DomNode {
    DomNode::element(addr, tag, children)
}

fn kw_style(props: &[(&str, &str)]) -> ElementStyle {
    let mut cs = ElementStyle::new();
    for (name, value) in props {
        cs.set(name, CssValue::from_keyword(value));
    }
    cs
}

fn px(v: f64) -> CssValue {
    CssValue::from_tokens(vec![CssToken::Dimension(
        CssNumber {
            value: v.to_bits(),
            single: (v as f32).to_bits(),
            fraction: ((v as f32) / 100.0).to_bits(),
        },
        "px".to_string(),
    )])
}

fn box_of(tree: &LayoutTree, addr: usize) -> usize {
    *tree.node_map().get(&addr).expect("node has a box")
}

fn text_of(tree: &LayoutTree, addr: usize) -> (String, u32, String, u16, LineHeight) {
    match tree.content(box_of(tree, addr)) {
        BoxContent::Text(t) => (t.text.clone(), t.font_size, t.font_family.clone(), t.font_weight, t.line_height),
        BoxContent::Element(_) => panic!("expected a text box"),
    }
}

#[test]
fn document_root_is_skipped_to_first_element() {
    let doc = DomNode::other(vec![DomNode::other(vec![]), element(5, "html", vec![element(6, "body", vec![])])]);
    let styles: StyleMap = HashMap::new();
    let tree = build_layout_tree(&doc, &styles);
    assert_eq!(tree.root(), Some(box_of(&tree, 5)));
    assert!(tree.has_child(5, 6));
    assert_eq!(tree.node_count(), 2);
}

#[test]
fn blank_text_is_skipped() {
    let root = element(1, "div", vec![DomNode::text(2, " \n\t "), DomNode::text(3, "x")]);
    let styles: StyleMap = HashMap::new();
    let tree = build_layout_tree(&root, &styles);
    assert!(!tree.contains_node(2));
    assert!(tree.contains_node(3));
    assert!(tree.has_child(1, 3));
}

#[test]
fn children_keep_document_order() {
    let root = element(1, "div", vec![element(2, "a", vec![]), DomNode::text(3, "t"), element(4, "b", vec![])]);
    let styles: StyleMap = HashMap::new();
    let tree = build_layout_tree(&root, &styles);
    let kids = tree.children_of(box_of(&tree, 1)).clone();
    assert_eq!(kids, vec![box_of(&tree, 2), box_of(&tree, 3), box_of(&tree, 4)]);
}

#[test]
fn text_inherits_font_properties() {
    // div[font-size:24px; font-family:mono; font-weight:bold] > p > "hi"
    let mut div_style = kw_style(&[("font-family", "mono"), ("font-weight", "bold")]);
    div_style.set("font-size", px(24.0));
    let root = element(1, "div", vec![element(2, "p", vec![DomNode::text(3, "hi")]), DomNode::text(4, "x")]);
    let mut styles: StyleMap = HashMap::new();
    styles.insert(1, div_style);
    let tree = build_layout_tree(&root, &styles);
    let (text, size, family, weight, line) = text_of(&tree, 3);
    assert_eq!(text, "hi");
    assert_eq!(size, 24.0f32.to_bits());
    assert_eq!(family, "mono");
    assert_eq!(weight, 700);
    assert_eq!(line, LineHeight::FromStyle { element: 1, font_size: 24.0f32.to_bits() });
}

#[test]
fn text_without_styled_ancestor_uses_initial_properties() {
    let root = element(1, "div", vec![DomNode::text(2, "hi")]);
    let styles: StyleMap = HashMap::new();
    let tree = build_layout_tree(&root, &styles);
    let (_, size, family, weight, line) = text_of(&tree, 2);
    assert_eq!(size, DEFAULT_FONT_SIZE);
    assert_eq!(f32::from_bits(size), 16.0);
    assert_eq!(family, "serif");
    assert_eq!(weight, 400);
    assert_eq!(line, LineHeight::Initial);
}

#[test]
fn text_transform_is_applied_to_leaf_text() {
    let root = element(1, "div", vec![DomNode::text(2, "hello world")]);
    let mut styles: StyleMap = HashMap::new();
    styles.insert(1, kw_style(&[("text-transform", "uppercase")]));
    let tree = build_layout_tree(&root, &styles);
    assert_eq!(text_of(&tree, 2).0, "HELLO WORLD");

    let mut styles: StyleMap = HashMap::new();
    styles.insert(1, kw_style(&[("text-transform", "capitalize")]));
    let tree = build_layout_tree(&root, &styles);
    assert_eq!(text_of(&tree, 2).0, "Hello World");

    let mut styles: StyleMap = HashMap::new();
    styles.insert(1, kw_style(&[("text-transform", "none")]));
    let tree = build_layout_tree(&root, &styles);
    assert_eq!(text_of(&tree, 2).0, "hello world");
}

#[test]
fn absolute_box_goes_to_nearest_positioned_ancestor() {
    // div > div[relative] > div(static) > div[absolute]
    let root = element(
        1,
        "div",
        vec![element(2, "div", vec![element(3, "div", vec![element(4, "div", vec![])])])],
    );
    let mut styles: StyleMap = HashMap::new();
    styles.insert(2, kw_style(&[("position", "relative")]));
    styles.insert(4, kw_style(&[("position", "absolute")]));
    let tree = build_layout_tree(&root, &styles);
    assert!(tree.has_child(2, 4), "the absolute box is placed in the relative ancestor");
    assert!(!tree.has_child(3, 4), "not in its static parent");
    assert!(tree.has_child(2, 3));
    match tree.content(box_of(&tree, 4)) {
        BoxContent::Element(s) => assert_eq!(s.position, PositionMode::Absolute),
        BoxContent::Text(_) => panic!("element box expected"),
    }
}

#[test]
fn absolute_without_positioned_ancestor_goes_to_root() {
    // html > body > div[fixed]
    let root = element(1, "html", vec![element(2, "body", vec![element(3, "div", vec![])])]);
    let mut styles: StyleMap = HashMap::new();
    styles.insert(3, kw_style(&[("position", "fixed")]));
    let tree = build_layout_tree(&root, &styles);
    assert!(tree.has_child(1, 3));
    assert!(!tree.has_child(2, 3));
    assert_eq!(tree.children_of(box_of(&tree, 2)).len(), 0);
}

#[test]
fn element_box_style_comes_from_its_computed_style() {
    let root = element(1, "div", vec![element(2, "span", vec![])]);
    let mut styles: StyleMap = HashMap::new();
    styles.insert(2, kw_style(&[("display", "flex")]));
    let tree = build_layout_tree(&root, &styles);
    match tree.content(box_of(&tree, 2)) {
        BoxContent::Element(s) => assert_eq!(s.display, DisplayMode::Flex),
        BoxContent::Text(_) => panic!("element box expected"),
    }
    match tree.content(box_of(&tree, 1)) {
        BoxContent::Element(s) => assert_eq!(s.display, DisplayMode::Block),
        BoxContent::Text(_) => panic!("element box expected"),
    }
}

#[test]
fn placement_order_lists_each_reachable_box_after_its_parent() {
    let root = element(
        1,
        "div",
        vec![
            element(2, "div", vec![element(3, "p", vec![DomNode::text(4, "a")])]),
            element(5, "div", vec![]),
        ],
    );
    let styles: StyleMap = HashMap::new();
    let tree = build_layout_tree(&root, &styles);
    let order = tree.placement_order();
    assert_eq!(order.len(), 5);
    assert_eq!(order[0], (box_of(&tree, 1), None));
    let mut seen = std::collections::HashSet::new();
    for (j, (b, parent)) in order.iter().enumerate() {
        assert!(seen.insert(*b), "each box once");
        if j > 0 {
            let p = parent.expect("a parent entry");
            assert!(p < j);
            assert!(tree.children_of(order[p].0).contains(b));
        }
    }
}

#[test]
fn placement_order_of_empty_tree_is_empty() {
    let doc = DomNode::other(vec![]);
    let styles: StyleMap = HashMap::new();
    let tree = build_layout_tree(&doc, &styles);
    assert!(tree.placement_order().is_empty());
    assert_eq!(tree.box_count(), 0);
}

#[test]
fn no_box_has_two_parents_and_root_has_none() {
    // html > [div(relative) > [p > span(absolute), span(fixed)], section(contents) > [a, b(absolute)]]
    let root = element(
        1,
        "html",
        vec![
            element(
                2,
                "div",
                vec![element(3, "p", vec![element(4, "span", vec![])]), element(5, "span", vec![])],
            ),
            element(6, "section", vec![element(7, "a", vec![]), element(8, "b", vec![])]),
        ],
    );
    let mut styles: StyleMap = HashMap::new();
    styles.insert(2, kw_style(&[("position", "relative")]));
    styles.insert(4, kw_style(&[("position", "absolute")]));
    styles.insert(5, kw_style(&[("position", "fixed")]));
    styles.insert(6, kw_style(&[("display", "contents")]));
    styles.insert(8, kw_style(&[("position", "absolute")]));
    let tree = build_layout_tree(&root, &styles);
    let root_box = tree.root().expect("html has a box");
    let mut parents = vec![0usize; tree.box_count()];
    for p in 0..tree.box_count() {
        for &c in tree.children_of(p) {
            parents[c] += 1;
        }
    }
    assert_eq!(parents[root_box], 0);
    assert!(parents.iter().all(|&n| n <= 1));
    // every box except the root has exactly one parent here
    assert_eq!(parents.iter().filter(|&&n| n == 1).count(), tree.box_count() - 1);
    assert!(tree.has_child(2, 4));
    assert!(tree.has_child(2, 5));
    assert!(tree.has_child(1, 8));
    assert!(tree.has_child(1, 7));
}

#[test]
fn excluded_subtrees_unmapped_and_reached_nodes_mapped() {
    // html > [head > title > "t", body > [div(none) > p > "x", section(contents) > [em > "y", " "], script]]
    let root = element(
        1,
        "HTML",
        vec![
            element(2, "head", vec![element(3, "title", vec![DomNode::text(4, "t")])]),
            element(
                5,
                "body",
                vec![
                    element(6, "div", vec![element(7, "p", vec![DomNode::text(8, "x")])]),
                    element(9, "section", vec![element(10, "em", vec![DomNode::text(11, "y")]), DomNode::text(12, " ")]),
                    element(13, "SCRIPT", vec![]),
                ],
            ),
        ],
    );
    let mut styles: StyleMap = HashMap::new();
    styles.insert(6, kw_style(&[("display", "NONE")]));
    styles.insert(9, kw_style(&[("display", "contents")]));
    let tree = build_layout_tree(&root, &styles);
    for addr in [2, 3, 4, 6, 7, 8, 13] {
        assert!(!tree.contains_node(addr), "node {addr} must have no box");
    }
    for addr in [1, 5, 10, 11] {
        assert!(tree.contains_node(addr), "node {addr} must have a box");
    }
    assert!(!tree.contains_node(9));
    assert!(!tree.contains_node(12));
    assert_eq!(tree.node_count(), 4);
    assert!(tree.has_child(5, 10));
}
