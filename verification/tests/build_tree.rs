//! Document tree → layout box tree.
//!
//! Node addresses are small distinct integers standing for DOM node identities.

use std::collections::HashMap;

use muskitty_layout::convert::{build_layout_tree, StyleMap};
use muskitty_layout::css::{CssValue, ElementStyle};
use muskitty_layout::dom::DomNode;

fn element(addr: usize, tag: &str, children: Vec<DomNode>) -> DomNode {
    DomNode::element(addr, tag, children)
}

fn display(keyword: &str) -> ElementStyle {
    let mut cs = ElementStyle::new();
    cs.set("display", CssValue::from_keyword(keyword));
    cs
}

#[test]
fn single_element_builds_one_node() {
    let root = element(1, "div", vec![]);
    let styles: StyleMap = HashMap::new();
    let tree = build_layout_tree(&root, &styles);
    assert!(tree.has_root(), "the root box is created");
    assert_eq!(tree.node_count(), 1, "one element maps to one box");
}

#[test]
fn nested_elements_build_tree() {
    // div > p > span
    let root = element(1, "div", vec![element(2, "p", vec![element(3, "span", vec![])])]);
    let styles: StyleMap = HashMap::new();
    let tree = build_layout_tree(&root, &styles);
    assert_eq!(tree.node_count(), 3, "three nested elements give three boxes");
    assert!(tree.contains_node(1));
    assert!(tree.contains_node(2));
    assert!(tree.contains_node(3));
}

#[test]
fn text_node_creates_leaf() {
    // div > "hello"
    let root = element(1, "div", vec![DomNode::text(2, "hello")]);
    let styles: StyleMap = HashMap::new();
    let tree = build_layout_tree(&root, &styles);
    assert_eq!(tree.node_count(), 2, "div + text give two boxes");
    assert!(tree.contains_node(2), "the text node gets a leaf");
}

#[test]
fn build_tree_display_none_excluded() {
    // div > p[display:none]
    let root = element(1, "div", vec![element(2, "p", vec![])]);
    let mut styles: StyleMap = HashMap::new();
    styles.insert(2, display("none"));
    let tree = build_layout_tree(&root, &styles);
    assert_eq!(tree.node_count(), 1, "the display:none p is excluded");
    assert!(!tree.contains_node(2), "p has no box");
}

#[test]
fn display_none_excludes_entire_subtree() {
    // div > p[display:none] > span + em
    let root = element(
        1,
        "div",
        vec![element(2, "p", vec![element(3, "span", vec![]), element(4, "em", vec![])])],
    );
    let mut styles: StyleMap = HashMap::new();
    styles.insert(2, display("none"));
    let tree = build_layout_tree(&root, &styles);
    assert_eq!(tree.node_count(), 1, "the whole display:none subtree is excluded");
    assert!(!tree.contains_node(3));
    assert!(!tree.contains_node(4));
}

#[test]
fn empty_dom_produces_empty_tree() {
    let doc = DomNode::other(vec![]);
    let styles: StyleMap = HashMap::new();
    let tree = build_layout_tree(&doc, &styles);
    assert!(!tree.has_root(), "a document node alone has no root box");
    assert_eq!(tree.node_count(), 0);
}

#[test]
fn display_contents_element_produces_no_box_but_children_do() {
    // div > p[display:contents] > span
    let root = element(1, "div", vec![element(2, "p", vec![element(3, "span", vec![])])]);
    let mut styles: StyleMap = HashMap::new();
    styles.insert(2, display("contents"));
    let tree = build_layout_tree(&root, &styles);
    assert!(!tree.contains_node(2), "a display:contents element has no box");
    assert!(tree.contains_node(1));
    assert!(tree.contains_node(3));
    assert!(
        tree.has_child(1, 3),
        "the children of display:contents are spliced into the grandparent"
    );
}

#[test]
fn non_rendered_tags_produce_no_boxes() {
    // html > head > (title, script)
    let root = element(
        1,
        "html",
        vec![element(2, "head", vec![element(3, "title", vec![]), element(4, "script", vec![])])],
    );
    let styles: StyleMap = HashMap::new();
    let tree = build_layout_tree(&root, &styles);
    assert_eq!(tree.node_count(), 1, "only html gets a box");
    assert!(tree.contains_node(1));
    assert!(!tree.contains_node(2));
    assert!(!tree.contains_node(3));
    assert!(!tree.contains_node(4));
}

#[test]
fn contents_element_skips_its_own_display_but_descendants_render() {
    // div > p[contents] > div
    let root = element(1, "div", vec![element(2, "p", vec![element(3, "div", vec![])])]);
    let mut styles: StyleMap = HashMap::new();
    styles.insert(2, display("contents"));
    let tree = build_layout_tree(&root, &styles);
    assert!(!tree.contains_node(2));
    assert!(tree.contains_node(3), "descendants of contents still get boxes");
    assert!(tree.has_child(1, 3), "they are spliced into the grandparent's children");
}
