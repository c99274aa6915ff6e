//! Keywords, computed values and the text properties read from them.

use muskitty_layout::css::{ascii_lowercase, CssNumber, CssToken, CssValue, ElementStyle};
use muskitty_layout::text::{
    family_from_css, is_whitespace, resolve_font_family, resolve_font_size, resolve_font_weight, trim,
    weight_from_number, FontFamily, GenericFamily,
};
use muskitty_layout::{is_non_rendered_tag, kw_eq};

fn number(v: f64) -> CssNumber {
    CssNumber {
        value: v.to_bits(),
        single: (v as f32).to_bits(),
        fraction: ((v as f32) / 100.0).to_bits(),
    }
}

fn style(name: &str, tokens: Vec<CssToken>) -> ElementStyle {
    let mut cs = ElementStyle::new();
    cs.set(name, CssValue::from_tokens(tokens));
    cs
}

#[test]
fn kw_eq_ignores_ascii_case_only() {
    assert!(kw_eq("FLEX", "flex"));
    assert!(kw_eq("Border-Box", "border-box"));
    assert!(!kw_eq("flexx", "flex"));
    assert!(!kw_eq("flex", "grid"));
    assert!(kw_eq("", ""));
    // Non-ASCII letters are not case-folded.
    assert!(!kw_eq("É", "é"));
}

#[test]
fn non_rendered_tags_are_exactly_the_listed_ones() {
    for tag in ["head", "title", "script", "style", "meta", "link", "base", "template"] {
        assert!(is_non_rendered_tag(tag), "{tag} produces no box");
    }
    for tag in ["div", "body", "html", "span", "HEAD", "headers"] {
        assert!(!is_non_rendered_tag(tag), "{tag} is rendered");
    }
}

#[test]
fn ascii_lowercase_maps_only_ascii_letters() {
    assert_eq!(ascii_lowercase("HeAD"), "head");
    assert_eq!(ascii_lowercase("ÀB-1"), "Àb-1");
}

#[test]
fn style_read_after_write() {
    let mut cs = ElementStyle::new();
    assert!(cs.get("width").is_none());
    cs.set("width", CssValue::from_keyword("auto"));
    cs.set("height", CssValue::from_keyword("min-content"));
    cs.set("width", CssValue::from_keyword("max-content"));
    assert_eq!(cs.get_keyword("width").map(|s| s.as_str()), Some("max-content"));
    assert_eq!(cs.get_keyword("height").map(|s| s.as_str()), Some("min-content"));
    assert_eq!(cs.properties.len(), 2, "setting a property again replaces it");
}

#[test]
fn keyword_is_first_identifier() {
    let v = CssValue::from_tokens(vec![
        CssToken::Number(number(3.0)),
        CssToken::Ident("first".to_string()),
        CssToken::Ident("second".to_string()),
    ]);
    assert_eq!(v.keyword().map(|s| s.as_str()), Some("first"));
    let none = CssValue::from_tokens(vec![CssToken::Other]);
    assert!(none.keyword().is_none());
}

#[test]
fn font_size_is_first_px_dimension() {
    let cs = style(
        "font-size",
        vec![
            CssToken::Dimension(number(2.0), "em".to_string()),
            CssToken::Dimension(number(24.0), "PX".to_string()),
        ],
    );
    assert_eq!(resolve_font_size(&cs), Some(24.0f32.to_bits()));
    let no_px = style("font-size", vec![CssToken::Ident("medium".to_string())]);
    assert_eq!(resolve_font_size(&no_px), None);
    assert_eq!(resolve_font_size(&ElementStyle::new()), None);
}

#[test]
fn font_family_is_first_name() {
    let cs = style(
        "font-family",
        vec![CssToken::Other, CssToken::Str("Noto Sans".to_string()), CssToken::Ident("serif".to_string())],
    );
    assert_eq!(resolve_font_family(&cs).as_deref(), Some("Noto Sans"));
    assert_eq!(resolve_font_family(&ElementStyle::new()), None);
}

#[test]
fn font_weight_keywords_and_numbers() {
    let bold = style("font-weight", vec![CssToken::Ident("BOLD".to_string())]);
    assert_eq!(resolve_font_weight(&bold), Some(700));
    let normal = style("font-weight", vec![CssToken::Ident("normal".to_string())]);
    assert_eq!(resolve_font_weight(&normal), Some(400));
    let lighter = style("font-weight", vec![CssToken::Ident("lighter".to_string())]);
    assert_eq!(resolve_font_weight(&lighter), Some(400));
    let n = style("font-weight", vec![CssToken::Number(number(600.0))]);
    assert_eq!(resolve_font_weight(&n), Some(600));
    assert_eq!(resolve_font_weight(&ElementStyle::new()), None);
}

#[test]
fn number_weights_clamp_and_truncate() {
    let w = |v: f64| weight_from_number(v.to_bits());
    assert_eq!(w(450.9), 450);
    assert_eq!(w(1.0), 1);
    assert_eq!(w(1000.0), 1000);
    assert_eq!(w(999.99), 999);
    assert_eq!(w(1500.0), 1000);
    assert_eq!(w(f64::INFINITY), 1000);
    assert_eq!(w(0.5), 1);
    assert_eq!(w(-3.0), 1);
    assert_eq!(w(-0.0), 1);
    assert_eq!(w(f64::NEG_INFINITY), 1);
    assert_eq!(w(f64::NAN), 0);
    for v in [1.0, 1.5, 17.25, 399.999, 400.0, 512.5, 777.0, 1000.0, 3.0e5, -7.0, 1e-300] {
        assert_eq!(w(v), v.clamp(1.0, 1000.0) as u16, "weight of {v}");
    }
}

#[test]
fn trim_removes_unicode_white_space() {
    assert_eq!(trim("  a b \t"), "a b");
    assert_eq!(trim("\u{3000}x\u{a0}"), "x");
    assert_eq!(trim("   "), "");
    assert_eq!(trim(""), "");
}

#[test]
fn generic_families_by_name() {
    let g = |s: &str| match family_from_css(s) {
        FontFamily::Generic(g) => Some(g),
        FontFamily::Named(_) => None,
    };
    assert_eq!(g("serif"), Some(GenericFamily::Serif));
    assert_eq!(g(" Sans-Serif "), Some(GenericFamily::SansSerif));
    assert_eq!(g("MONOSPACE"), Some(GenericFamily::Monospace));
    assert_eq!(g("cursive"), Some(GenericFamily::Cursive));
    assert_eq!(g("fantasy"), Some(GenericFamily::Fantasy));
    match family_from_css("  Noto Sans CJK ") {
        FontFamily::Named(n) => assert_eq!(n, "Noto Sans CJK"),
        FontFamily::Generic(_) => panic!("a named family stays named"),
    }
}

#[test]
fn white_space_matches_char_is_whitespace() {
    for code in 0u32..0x11_0000 {
        if let Some(c) = char::from_u32(code) {
            assert_eq!(is_whitespace(c), c.is_whitespace(), "U+{code:04X}");
        }
    }
}

#[test]
fn kw_eq_is_symmetric_and_folds_only_ascii_letters() {
    for (a, b) in [("Flex", "flex"), ("flex", "FLEX"), ("É", "é"), ("a-1", "A-1"), ("a_1", "A-1"), ("ab", "abc")] {
        assert_eq!(kw_eq(a, b), kw_eq(b, a), "{a} / {b}");
    }
    assert!(!kw_eq("É", "é"));
    assert!(kw_eq("a-1", "A-1"));
    assert!(!kw_eq("a_1", "A-1"));
}
