//! Computed style → layout style mapping.

use muskitty_layout::css::{CssNumber, CssToken, CssValue, ElementStyle};
use muskitty_layout::style_map::{
    border_width, map_grid_template, map_style, BoxSizingMode, ContentAlign, Dim, DisplayMode,
    Edges, FlexDirectionMode, FlexWrapMode, ItemAlign, LenPct, Track,
};

fn number(v: f64) -> CssNumber {
    CssNumber {
        value: v.to_bits(),
        single: (v as f32).to_bits(),
        fraction: ((v as f32) / 100.0).to_bits(),
    }
}

fn px_token(v: f64) -> CssToken {
    CssToken::Dimension(number(v), "px".to_string())
}

fn pct_token(v: f64) -> CssToken {
    CssToken::Percentage(number(v))
}

fn px(v: f64) -> CssValue {
    CssValue::from_tokens(vec![px_token(v)])
}

fn pct(v: f64) -> CssValue {
    CssValue::from_tokens(vec![pct_token(v)])
}

fn num(v: f64) -> CssValue {
    CssValue::from_tokens(vec![CssToken::Number(number(v))])
}

fn kw(s: &str) -> CssValue {
    CssValue::from_keyword(s)
}

fn calc(inner: Vec<CssToken>) -> CssValue {
    CssValue::from_tokens(vec![CssToken::Function("calc".to_string(), inner)])
}

fn length(v: f32) -> Dim {
    Dim::Length(v.to_bits())
}

fn percent(v: f32) -> Dim {
    Dim::Percent(v.to_bits())
}

fn lp_length(v: f32) -> LenPct {
    LenPct::Length(v.to_bits())
}

fn lp_percent(v: f32) -> LenPct {
    LenPct::Percent(v.to_bits())
}

fn with(props: &[(&str, CssValue)]) -> ElementStyle {
    let mut cs = ElementStyle::new();
    for (name, value) in props {
        cs.set(name, clone_value(value));
    }
    cs
}

fn clone_value(v: &CssValue) -> CssValue {
    CssValue::from_tokens(v.tokens.iter().map(clone_token).collect())
}

fn clone_token(t: &CssToken) -> CssToken {
    match t {
        CssToken::Ident(s) => CssToken::Ident(s.clone()),
        CssToken::Str(s) => CssToken::Str(s.clone()),
        CssToken::Number(n) => CssToken::Number(*n),
        CssToken::Percentage(n) => CssToken::Percentage(*n),
        CssToken::Dimension(n, u) => CssToken::Dimension(*n, u.clone()),
        CssToken::Function(name, args) => {
            CssToken::Function(name.clone(), args.iter().map(clone_token).collect())
        }
        CssToken::Other => CssToken::Other,
    }
}

fn one(name: &str, value: CssValue) -> ElementStyle {
    let mut cs = ElementStyle::new();
    cs.set(name, value);
    cs
}

// —— display ——

#[test]
fn style_map_display_block_maps_to_block() {
    let style = map_style(Some(&one("display", kw("block"))));
    assert_eq!(style.display, DisplayMode::Block);
}

#[test]
fn style_map_display_flex_maps_to_flex() {
    let style = map_style(Some(&one("display", kw("flex"))));
    assert_eq!(style.display, DisplayMode::Flex);
}

#[test]
fn style_map_display_grid_maps_to_grid() {
    let style = map_style(Some(&one("display", kw("grid"))));
    assert_eq!(style.display, DisplayMode::Grid);
}

#[test]
fn style_map_display_none_maps_to_none() {
    let style = map_style(Some(&one("display", kw("none"))));
    assert_eq!(style.display, DisplayMode::Hidden);
}

#[test]
fn style_map_display_inline_flex_maps_to_flex() {
    let style = map_style(Some(&one("display", kw("inline-flex"))));
    assert_eq!(style.display, DisplayMode::Flex);
}

#[test]
fn style_map_display_inline_grid_maps_to_grid() {
    let style = map_style(Some(&one("display", kw("inline-grid"))));
    assert_eq!(style.display, DisplayMode::Grid);
}

#[test]
fn style_map_display_inline_maps_to_block() {
    let style = map_style(Some(&one("display", kw("inline"))));
    assert_eq!(style.display, DisplayMode::Block);
}

#[test]
fn style_map_display_inline_block_maps_to_block() {
    let style = map_style(Some(&one("display", kw("inline-block"))));
    assert_eq!(style.display, DisplayMode::Block);
}

#[test]
fn style_map_no_display_defaults_to_block() {
    let cs = ElementStyle::new();
    let style = map_style(Some(&cs));
    assert_eq!(style.display, DisplayMode::Block);
}

#[test]
fn style_map_no_computed_style_defaults_to_block() {
    let style = map_style(None);
    assert_eq!(style.display, DisplayMode::Block);
}

#[test]
fn keywords_match_case_insensitively() {
    let cs = with(&[
        ("display", kw("FLEX")),
        ("box-sizing", kw("BORDER-BOX")),
        ("flex-direction", kw("COLUMN")),
        ("flex-wrap", kw("WRAP")),
        ("justify-content", kw("CENTER")),
        ("align-items", kw("STRETCH")),
    ]);
    let style = map_style(Some(&cs));
    assert_eq!(style.display, DisplayMode::Flex);
    assert_eq!(style.box_sizing, BoxSizingMode::BorderBox);
    assert_eq!(style.flex_direction, FlexDirectionMode::Column);
    assert_eq!(style.flex_wrap, FlexWrapMode::Wrap);
    assert_eq!(style.justify_content, Some(ContentAlign::Center));
    assert_eq!(style.align_items, Some(ItemAlign::Stretch));
}

// —— width / height ——

#[test]
fn style_map_width_px_maps_to_length() {
    let style = map_style(Some(&one("width", px(200.0))));
    assert_eq!(style.size.width, length(200.0));
}

#[test]
fn style_map_width_auto_maps_to_auto() {
    let style = map_style(Some(&one("width", kw("auto"))));
    assert_eq!(style.size.width, Dim::Auto, "width: auto maps to automatic");
}

#[test]
fn style_map_width_percentage_maps_to_percent() {
    let style = map_style(Some(&one("width", pct(50.0))));
    assert_eq!(style.size.width, percent(0.5));
}

#[test]
fn style_map_height_px_maps_to_length() {
    let style = map_style(Some(&one("height", px(100.0))));
    assert_eq!(style.size.height, length(100.0));
}

#[test]
fn style_map_min_max_width_mapped() {
    let cs = with(&[("min-width", px(50.0)), ("max-width", px(300.0))]);
    let style = map_style(Some(&cs));
    assert_eq!(style.min_size.width, length(50.0));
    assert_eq!(style.max_size.width, length(300.0));
}

#[test]
fn width_zero_number_maps_to_length_0() {
    let style = map_style(Some(&one("width", num(0.0))));
    assert_eq!(style.size.width, length(0.0));
}

#[test]
fn min_width_zero_maps_to_length_0() {
    let style = map_style(Some(&one("min-width", num(0.0))));
    assert_eq!(style.min_size.width, length(0.0));
}

#[test]
fn flex_basis_zero_maps_to_length_0() {
    let style = map_style(Some(&one("flex-basis", num(0.0))));
    assert_eq!(style.flex_basis, length(0.0));
}

#[test]
fn width_calc_percentage_resolves() {
    let style = map_style(Some(&one("width", calc(vec![pct_token(50.0)]))));
    assert_eq!(style.size.width, percent(0.5));
}

#[test]
fn width_calc_px_resolves() {
    let style = map_style(Some(&one("width", calc(vec![px_token(20.0)]))));
    assert_eq!(style.size.width, length(20.0));
}

#[test]
fn padding_calc_px_resolves() {
    let style = map_style(Some(&one("padding-top", calc(vec![px_token(12.0)]))));
    assert_eq!(style.padding.top, lp_length(12.0));
}

// —— margin ——

#[test]
fn style_map_margin_px_maps_correctly() {
    let cs = with(&[
        ("margin-top", px(10.0)),
        ("margin-right", px(20.0)),
        ("margin-bottom", px(30.0)),
        ("margin-left", px(40.0)),
    ]);
    let style = map_style(Some(&cs));
    assert_eq!(style.margin.top, length(10.0));
    assert_eq!(style.margin.right, length(20.0));
    assert_eq!(style.margin.bottom, length(30.0));
    assert_eq!(style.margin.left, length(40.0));
}

#[test]
fn style_map_margin_auto_maps_correctly() {
    let style = map_style(Some(&one("margin-left", kw("auto"))));
    assert_eq!(style.margin.left, Dim::Auto, "margin-left: auto maps to automatic");
}

#[test]
fn style_map_margin_percentage_maps_correctly() {
    let style = map_style(Some(&one("margin-top", pct(10.0))));
    assert_eq!(style.margin.top, percent(0.1));
}

// —— padding ——

#[test]
fn style_map_padding_px_maps_correctly() {
    let cs = with(&[("padding-top", px(5.0)), ("padding-left", px(15.0))]);
    let style = map_style(Some(&cs));
    assert_eq!(style.padding.top, lp_length(5.0));
    assert_eq!(style.padding.left, lp_length(15.0));
}

#[test]
fn style_map_padding_defaults_to_zero() {
    let cs = ElementStyle::new();
    let style = map_style(Some(&cs));
    assert_eq!(style.padding.top, lp_length(0.0));
}

// —— box-sizing ——

#[test]
fn style_map_box_sizing_content_box() {
    let style = map_style(Some(&one("box-sizing", kw("content-box"))));
    assert_eq!(style.box_sizing, BoxSizingMode::ContentBox);
}

#[test]
fn style_map_box_sizing_border_box() {
    let style = map_style(Some(&one("box-sizing", kw("border-box"))));
    assert_eq!(style.box_sizing, BoxSizingMode::BorderBox);
}

#[test]
fn style_map_box_sizing_defaults_to_content_box() {
    let cs = ElementStyle::new();
    let style = map_style(Some(&cs));
    assert_eq!(
        style.box_sizing,
        BoxSizingMode::ContentBox,
        "box-sizing starts as content-box"
    );
}

#[test]
fn style_map_box_sizing_unknown_value_falls_back_to_content_box() {
    let style = map_style(Some(&one("box-sizing", kw("invalid-value"))));
    assert_eq!(
        style.box_sizing,
        BoxSizingMode::ContentBox,
        "an unknown box-sizing falls back to content-box"
    );
}

// —— flexbox ——

#[test]
fn style_map_flex_direction_row() {
    let style = map_style(Some(&one("flex-direction", kw("row"))));
    assert_eq!(style.flex_direction, FlexDirectionMode::Row);
}

#[test]
fn style_map_flex_direction_column() {
    let style = map_style(Some(&one("flex-direction", kw("column"))));
    assert_eq!(style.flex_direction, FlexDirectionMode::Column);
}

#[test]
fn style_map_flex_direction_row_reverse() {
    let style = map_style(Some(&one("flex-direction", kw("row-reverse"))));
    assert_eq!(style.flex_direction, FlexDirectionMode::RowReverse);
}

#[test]
fn style_map_flex_wrap_wrap() {
    let style = map_style(Some(&one("flex-wrap", kw("wrap"))));
    assert_eq!(style.flex_wrap, FlexWrapMode::Wrap);
}

#[test]
fn style_map_flex_wrap_nowrap() {
    let style = map_style(Some(&one("flex-wrap", kw("nowrap"))));
    assert_eq!(style.flex_wrap, FlexWrapMode::NoWrap);
}

#[test]
fn style_map_justify_content_center() {
    let style = map_style(Some(&one("justify-content", kw("center"))));
    assert_eq!(style.justify_content, Some(ContentAlign::Center));
}

#[test]
fn style_map_justify_content_space_between() {
    let style = map_style(Some(&one("justify-content", kw("space-between"))));
    assert_eq!(style.justify_content, Some(ContentAlign::SpaceBetween));
}

#[test]
fn justify_content_end_maps_to_flex_end() {
    let style = map_style(Some(&one("justify-content", kw("end"))));
    assert_eq!(style.justify_content, Some(ContentAlign::FlexEnd));
}

#[test]
fn justify_content_right_maps_to_flex_end() {
    let style = map_style(Some(&one("justify-content", kw("right"))));
    assert_eq!(style.justify_content, Some(ContentAlign::FlexEnd));
}

#[test]
fn justify_content_start_maps_to_flex_start() {
    let style = map_style(Some(&one("justify-content", kw("start"))));
    assert_eq!(style.justify_content, Some(ContentAlign::FlexStart));
}

#[test]
fn justify_content_normal_falls_back_to_default() {
    let style = map_style(Some(&one("justify-content", kw("normal"))));
    assert_eq!(style.justify_content, None);
}

#[test]
fn style_map_align_items_center() {
    let style = map_style(Some(&one("align-items", kw("center"))));
    assert_eq!(style.align_items, Some(ItemAlign::Center));
}

#[test]
fn style_map_align_items_stretch() {
    let style = map_style(Some(&one("align-items", kw("stretch"))));
    assert_eq!(style.align_items, Some(ItemAlign::Stretch));
}

#[test]
fn align_items_normal_falls_back_to_stretch() {
    let style = map_style(Some(&one("align-items", kw("normal"))));
    assert_eq!(
        style.align_items, None,
        "align-items: normal leaves the engine default (stretch)"
    );
}

#[test]
fn style_map_align_self_auto_falls_back_to_none() {
    let style = map_style(Some(&one("align-self", kw("auto"))));
    assert_eq!(style.align_self, None, "align-self: auto defers to align-items");
}

#[test]
fn style_map_align_self_center() {
    let style = map_style(Some(&one("align-self", kw("center"))));
    assert_eq!(style.align_self, Some(ItemAlign::Center));
}

#[test]
fn align_content_space_between_maps() {
    let style = map_style(Some(&one("align-content", kw("space-between"))));
    assert_eq!(style.align_content, Some(ContentAlign::SpaceBetween));
}

#[test]
fn align_content_stretch_maps() {
    let style = map_style(Some(&one("align-content", kw("stretch"))));
    assert_eq!(style.align_content, Some(ContentAlign::Stretch));
}

#[test]
fn align_content_normal_falls_back_to_none() {
    let style = map_style(Some(&one("align-content", kw("normal"))));
    assert_eq!(style.align_content, None);
}

// —— flex-grow / flex-shrink / flex-basis ——

#[test]
fn style_map_flex_grow_number() {
    let style = map_style(Some(&one("flex-grow", num(2.0))));
    assert_eq!(f32::from_bits(style.flex_grow), 2.0);
}

#[test]
fn style_map_flex_shrink_number() {
    let style = map_style(Some(&one("flex-shrink", num(0.5))));
    assert_eq!(f32::from_bits(style.flex_shrink), 0.5);
}

#[test]
fn style_map_flex_grow_negative_value_rejected() {
    let style = map_style(Some(&one("flex-grow", num(-1.0))));
    assert_eq!(
        f32::from_bits(style.flex_grow),
        0.0,
        "a negative flex-grow is rejected, keeping 0.0"
    );
}

#[test]
fn style_map_flex_shrink_negative_value_rejected() {
    let style = map_style(Some(&one("flex-shrink", num(-0.5))));
    assert_eq!(
        f32::from_bits(style.flex_shrink),
        1.0,
        "a negative flex-shrink is rejected, keeping 1.0"
    );
}

#[test]
fn style_map_flex_basis_px() {
    let style = map_style(Some(&one("flex-basis", px(150.0))));
    assert_eq!(style.flex_basis, length(150.0));
}

#[test]
fn style_map_flex_basis_auto() {
    let style = map_style(Some(&one("flex-basis", kw("auto"))));
    assert_eq!(style.flex_basis, Dim::Auto, "flex-basis: auto maps to automatic");
}

// —— gap ——

#[test]
fn style_map_row_gap_and_column_gap_independent() {
    let cs = with(&[("row-gap", px(5.0)), ("column-gap", px(15.0))]);
    let style = map_style(Some(&cs));
    assert_eq!(style.gap.height, lp_length(5.0));
    assert_eq!(style.gap.width, lp_length(15.0));
}

#[test]
fn row_gap_and_column_gap_percentages_map() {
    let cs = with(&[("row-gap", pct(5.0)), ("column-gap", pct(20.0))]);
    let style = map_style(Some(&cs));
    assert_eq!(style.gap.height, lp_percent(0.05));
    assert_eq!(style.gap.width, lp_percent(0.20));
}

#[test]
fn grid_percentage_track_is_a_fraction() {
    let cv = pct(50.0);
    assert_eq!(map_grid_template(&cv), vec![Track::Percent(0.5f32.to_bits())]);
}

#[test]
fn grid_tracks_keep_token_order_and_drop_others() {
    let cv = CssValue::from_tokens(vec![
        CssToken::Dimension(number(1.0), "fr".to_string()),
        CssToken::Other,
        px_token(100.0),
        pct_token(25.0),
        CssToken::Ident("AUTO".to_string()),
        CssToken::Dimension(number(2.0), "em".to_string()),
    ]);
    assert_eq!(
        map_grid_template(&cv),
        vec![
            Track::Fr(1.0f32.to_bits()),
            Track::Length(100.0f32.to_bits()),
            Track::Percent(0.25f32.to_bits()),
            Track::Auto,
        ]
    );
}

fn all_sides(width: CssValue, style: &str) -> ElementStyle {
    let mut cs = ElementStyle::new();
    for side in ["top", "right", "bottom", "left"] {
        cs.set(&format!("border-{side}-style"), kw(style));
        cs.set(&format!("border-{side}-width"), clone_value(&width));
    }
    cs
}

fn edges(v: f32) -> Edges<u32> {
    Edges { top: v.to_bits(), right: v.to_bits(), bottom: v.to_bits(), left: v.to_bits() }
}

#[test]
fn solid_border_maps_its_width() {
    let style = map_style(Some(&all_sides(px(10.0), "solid")));
    assert_eq!(style.border, edges(10.0));
}

#[test]
fn border_style_none_or_hidden_takes_no_space() {
    assert_eq!(map_style(Some(&all_sides(px(10.0), "none"))).border, edges(0.0));
    assert_eq!(map_style(Some(&all_sides(px(10.0), "Hidden"))).border, edges(0.0));
}

#[test]
fn border_without_style_or_computed_style_is_zero() {
    assert_eq!(map_style(Some(&with(&[("border-top-width", px(4.0))]))).border, edges(0.0));
    assert_eq!(map_style(None).border, edges(0.0));
}

#[test]
fn directional_border_maps_only_its_side() {
    let cs = with(&[
        ("border-left-style", kw("solid")),
        ("border-left-width", px(20.0)),
        ("border-top-style", kw("dashed")),
        ("border-top-width", px(10.0)),
    ]);
    let style = map_style(Some(&cs));
    assert_eq!(
        style.border,
        Edges { top: 10.0f32.to_bits(), right: 0, bottom: 0, left: 20.0f32.to_bits() }
    );
}

#[test]
fn border_width_keywords_and_initial_width() {
    let solid = kw("solid");
    assert_eq!(border_width(Some(&solid), Some(&kw("thin"))), 1.0f32.to_bits());
    assert_eq!(border_width(Some(&solid), Some(&kw("MEDIUM"))), 3.0f32.to_bits());
    assert_eq!(border_width(Some(&solid), Some(&kw("thick"))), 5.0f32.to_bits());
    assert_eq!(border_width(Some(&solid), None), 3.0f32.to_bits());
    assert_eq!(border_width(Some(&solid), Some(&num(0.0))), 0.0f32.to_bits());
    assert_eq!(border_width(Some(&solid), Some(&kw("wide"))), 0);
    assert_eq!(border_width(None, Some(&px(7.0))), 0);
}

fn px_pair(a: f64, b: f64) -> CssValue {
    CssValue::from_tokens(vec![px_token(a), CssToken::Other, px_token(b)])
}

#[test]
fn gap_px_sets_both_axes() {
    let style = map_style(Some(&with(&[("gap", px(10.0))])));
    assert_eq!(style.gap.width, lp_length(10.0));
    assert_eq!(style.gap.height, lp_length(10.0));
}

#[test]
fn gap_shorthand_two_values_split_correctly() {
    // gap: 10px 20px → row-gap 10px (height), column-gap 20px (width)
    let style = map_style(Some(&with(&[("gap", px_pair(10.0, 20.0))])));
    assert_eq!(style.gap.height, lp_length(10.0));
    assert_eq!(style.gap.width, lp_length(20.0));
}

#[test]
fn gap_shorthand_single_value_sets_both() {
    let style = map_style(Some(&with(&[("gap", px(15.0))])));
    assert_eq!(style.gap.height, lp_length(15.0));
    assert_eq!(style.gap.width, lp_length(15.0));
}

#[test]
fn gap_longhands_take_precedence_over_shorthand() {
    let cs = with(&[("gap", px_pair(10.0, 20.0)), ("column-gap", pct(5.0))]);
    let style = map_style(Some(&cs));
    assert_eq!(style.gap.width, lp_percent(0.05));
    assert_eq!(style.gap.height, lp_length(10.0));
}

#[test]
fn gap_shorthand_percentages_and_unparsable_values() {
    let cs = with(&[("gap", CssValue::from_tokens(vec![pct_token(10.0), CssToken::Other, num(0.0).tokens.into_iter().next().unwrap()]))]);
    let style = map_style(Some(&cs));
    assert_eq!(style.gap.height, lp_percent(0.1));
    assert_eq!(style.gap.width, lp_length(0.0));
    let none = map_style(Some(&with(&[("gap", kw("normal"))])));
    assert_eq!(none.gap.height, lp_length(0.0));
    assert_eq!(none.gap.width, lp_length(0.0));
}
