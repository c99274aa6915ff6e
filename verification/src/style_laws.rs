//! What the style mapping does, stated from the keywords and values a
//! computed style holds.

use vstd::prelude::*;

use crate::convert;
use crate::css;
use crate::text;
use crate::css::{CssToken, CssValue, ElementStyle};
use crate::style_map;
use crate::style_map::{
    BoxStyle, BoxSizingMode, ContentAlign, Dim, DisplayMode, FlexDirectionMode, FlexWrapMode,
    ItemAlign, LenPct, PositionMode, Track,
};

verus! {

/// `k` is the keyword `kw`, ignoring ASCII case.
pub open spec fn is_kw(k: Seq<char>, kw: Seq<char>) -> bool {
    css::eq_ignore_ascii_case(k, kw)
}

/// The `flex-direction` keywords map to four distinct directions; any other
/// keyword is `row`.
pub proof fn lemma_flex_direction_keywords(k: Seq<char>)
    ensures
        is_kw(k, "row"@) ==> style_map::spec_flex_direction(k) == FlexDirectionMode::Row,
        is_kw(k, "row-reverse"@) ==> style_map::spec_flex_direction(k)
            == FlexDirectionMode::RowReverse,
        is_kw(k, "column"@) ==> style_map::spec_flex_direction(k) == FlexDirectionMode::Column,
        is_kw(k, "column-reverse"@) ==> style_map::spec_flex_direction(k)
            == FlexDirectionMode::ColumnReverse,
        !is_kw(k, "row-reverse"@) && !is_kw(k, "column"@) && !is_kw(k, "column-reverse"@)
            ==> style_map::spec_flex_direction(k) == FlexDirectionMode::Row,
{
    reveal_strlit("row");
    reveal_strlit("row-reverse");
    reveal_strlit("column");
    reveal_strlit("column-reverse");
}

/// `align-items` / `align-self` keywords: the start keywords go to the
/// start edge, the end keywords to the end edge; `normal` and unknown
/// keywords give no value.
pub proof fn lemma_align_items_keywords(k: Seq<char>)
    ensures
        is_kw(k, "stretch"@) ==> style_map::spec_align_items(k) == Some(ItemAlign::Stretch),
        is_kw(k, "flex-start"@) || is_kw(k, "start"@) ==> style_map::spec_align_items(k) == Some(
            ItemAlign::FlexStart,
        ),
        is_kw(k, "center"@) ==> style_map::spec_align_items(k) == Some(ItemAlign::Center),
        is_kw(k, "flex-end"@) || is_kw(k, "end"@) ==> style_map::spec_align_items(k) == Some(
            ItemAlign::FlexEnd,
        ),
        is_kw(k, "baseline"@) ==> style_map::spec_align_items(k) == Some(ItemAlign::Baseline),
        is_kw(k, "normal"@) ==> style_map::spec_align_items(k) is None,
{
    reveal_strlit("stretch");
    reveal_strlit("flex-start");
    reveal_strlit("start");
    reveal_strlit("center");
    reveal_strlit("flex-end");
    reveal_strlit("end");
    reveal_strlit("baseline");
    reveal_strlit("normal");
    if is_kw(k, "baseline"@) {
        assert(css::ascii_lower(k[0]) == 'b');
    }
    if is_kw(k, "normal"@) {
        assert(css::ascii_lower(k[0]) == 'n');
    }
}

/// `display` keywords: `flex`/`inline-flex` lay out as flex containers,
/// `grid`/`inline-grid` as grids, `none` is hidden, anything else a block.
pub proof fn lemma_display_keywords(k: Seq<char>)
    ensures
        is_kw(k, "flex"@) || is_kw(k, "inline-flex"@) ==> style_map::spec_display(k)
            == DisplayMode::Flex,
        is_kw(k, "grid"@) || is_kw(k, "inline-grid"@) ==> style_map::spec_display(k)
            == DisplayMode::Grid,
        is_kw(k, "none"@) ==> style_map::spec_display(k) == DisplayMode::Hidden,
        !is_kw(k, "flex"@) && !is_kw(k, "inline-flex"@) && !is_kw(k, "grid"@) && !is_kw(
            k,
            "inline-grid"@,
        ) && !is_kw(k, "none"@) ==> style_map::spec_display(k) == DisplayMode::Block,
{
    reveal_strlit("flex");
    reveal_strlit("inline-flex");
    reveal_strlit("grid");
    reveal_strlit("inline-grid");
    reveal_strlit("none");
    if is_kw(k, "grid"@) || is_kw(k, "none"@) {
        assert(css::ascii_lower(k[0]) != 'f');
    }
    if is_kw(k, "inline-grid"@) {
        assert(css::ascii_lower(k[7]) != 'f');
    }
}

/// `position` keywords: `absolute` and `fixed` take the box out of flow;
/// `relative`, `static` and anything else keep it in flow.
pub proof fn lemma_position_keywords(k: Seq<char>)
    ensures
        is_kw(k, "absolute"@) || is_kw(k, "fixed"@) ==> style_map::spec_position(k)
            == PositionMode::Absolute,
        is_kw(k, "relative"@) || is_kw(k, "static"@) ==> style_map::spec_position(k)
            == PositionMode::Relative,
{
    reveal_strlit("absolute");
    reveal_strlit("fixed");
    reveal_strlit("relative");
    reveal_strlit("static");
    if is_kw(k, "relative"@) {
        assert(css::ascii_lower(k[0]) != 'a');
    }
}

/// `box-sizing`: `border-box` and `content-box` are told apart; anything
/// else is `content-box`, the initial value.
pub proof fn lemma_box_sizing_keywords(k: Seq<char>)
    ensures
        is_kw(k, "border-box"@) ==> style_map::spec_box_sizing(k) == BoxSizingMode::BorderBox,
        !is_kw(k, "border-box"@) ==> style_map::spec_box_sizing(k) == BoxSizingMode::ContentBox,
{
}

/// `flex-wrap`: `wrap` and `wrap-reverse` are told apart; `nowrap` and
/// anything else do not wrap.
pub proof fn lemma_flex_wrap_keywords(k: Seq<char>)
    ensures
        is_kw(k, "wrap"@) ==> style_map::spec_flex_wrap(k) == FlexWrapMode::Wrap,
        is_kw(k, "wrap-reverse"@) ==> style_map::spec_flex_wrap(k) == FlexWrapMode::WrapReverse,
        !is_kw(k, "wrap"@) && !is_kw(k, "wrap-reverse"@) ==> style_map::spec_flex_wrap(k)
            == FlexWrapMode::NoWrap,
{
    reveal_strlit("wrap");
    reveal_strlit("wrap-reverse");
}

/// `justify-content`: the start keywords (`flex-start`, `start`, `left`)
/// go to the start edge, the end keywords (`flex-end`, `end`, `right`) to
/// the end edge, and the distributions are told apart; `normal` gives no
/// value.
pub proof fn lemma_justify_content_keywords(k: Seq<char>)
    ensures
        is_kw(k, "flex-start"@) || is_kw(k, "start"@) || is_kw(k, "left"@)
            ==> style_map::spec_justify_content(k) == Some(ContentAlign::FlexStart),
        is_kw(k, "center"@) ==> style_map::spec_justify_content(k) == Some(ContentAlign::Center),
        is_kw(k, "flex-end"@) || is_kw(k, "end"@) || is_kw(k, "right"@)
            ==> style_map::spec_justify_content(k) == Some(ContentAlign::FlexEnd),
        is_kw(k, "space-between"@) ==> style_map::spec_justify_content(k) == Some(
            ContentAlign::SpaceBetween,
        ),
        is_kw(k, "space-around"@) ==> style_map::spec_justify_content(k) == Some(
            ContentAlign::SpaceAround,
        ),
        is_kw(k, "space-evenly"@) ==> style_map::spec_justify_content(k) == Some(
            ContentAlign::SpaceEvenly,
        ),
        is_kw(k, "normal"@) || is_kw(k, "stretch"@) ==> style_map::spec_justify_content(k) is None,
{
    reveal_strlit("flex-start");
    reveal_strlit("start");
    reveal_strlit("left");
    reveal_strlit("center");
    reveal_strlit("flex-end");
    reveal_strlit("end");
    reveal_strlit("right");
    reveal_strlit("space-between");
    reveal_strlit("space-around");
    reveal_strlit("space-evenly");
    reveal_strlit("normal");
    reveal_strlit("stretch");
    if is_kw(k, "right"@) {
        assert(css::ascii_lower(k[0]) == 'r');
    }
    if is_kw(k, "space-evenly"@) {
        assert(css::ascii_lower(k[6]) == 'e');
    }
    if is_kw(k, "normal"@) {
        assert(css::ascii_lower(k[0]) == 'n');
    }
}

/// `align-content`: as `justify-content` without `left`/`right`, plus
/// `stretch`; `normal` gives no value.
pub proof fn lemma_align_content_keywords(k: Seq<char>)
    ensures
        is_kw(k, "stretch"@) ==> style_map::spec_align_content(k) == Some(ContentAlign::Stretch),
        is_kw(k, "flex-start"@) || is_kw(k, "start"@) ==> style_map::spec_align_content(k) == Some(
            ContentAlign::FlexStart,
        ),
        is_kw(k, "center"@) ==> style_map::spec_align_content(k) == Some(ContentAlign::Center),
        is_kw(k, "flex-end"@) || is_kw(k, "end"@) ==> style_map::spec_align_content(k) == Some(
            ContentAlign::FlexEnd,
        ),
        is_kw(k, "space-between"@) ==> style_map::spec_align_content(k) == Some(
            ContentAlign::SpaceBetween,
        ),
        is_kw(k, "space-around"@) ==> style_map::spec_align_content(k) == Some(
            ContentAlign::SpaceAround,
        ),
        is_kw(k, "space-evenly"@) ==> style_map::spec_align_content(k) == Some(
            ContentAlign::SpaceEvenly,
        ),
        is_kw(k, "normal"@) ==> style_map::spec_align_content(k) is None,
{
    reveal_strlit("stretch");
    reveal_strlit("flex-start");
    reveal_strlit("start");
    reveal_strlit("center");
    reveal_strlit("flex-end");
    reveal_strlit("end");
    reveal_strlit("space-between");
    reveal_strlit("space-around");
    reveal_strlit("space-evenly");
    reveal_strlit("normal");
    if is_kw(k, "space-evenly"@) {
        assert(css::ascii_lower(k[6]) == 'e');
    }
    if is_kw(k, "normal"@) {
        assert(css::ascii_lower(k[0]) == 'n');
    }
}

/// `v` holds exactly one `px` length: its single-precision bits.
pub open spec fn single_px(v: Option<CssValue>) -> Option<u32> {
    match v {
        Some(v) => if v.tokens@.len() == 1 {
            match v.tokens@[0] {
                CssToken::Dimension(n, u) => if is_kw(u@, "px"@) {
                    Some(n.single)
                } else {
                    None
                },
                _ => None,
            }
        } else {
            None
        },
        None => None,
    }
}

/// `v` holds exactly one percentage: the bits of its factor (`0.5` for `50%`).
pub open spec fn single_percent(v: Option<CssValue>) -> Option<u32> {
    match v {
        Some(v) => if v.tokens@.len() == 1 {
            match v.tokens@[0] {
                CssToken::Percentage(n) => Some(n.fraction),
                _ => None,
            }
        } else {
            None
        },
        None => None,
    }
}

/// `v` is present and its keyword is `kw`.
pub open spec fn has_kw(v: Option<CssValue>, kw: Seq<char>) -> bool {
    v matches Some(x) && css::spec_keyword(x) matches Some(k) && is_kw(k, kw)
}

/// `d` is what a size property with value `v` means: missing, `auto` or
/// `none` is the automatic size (no limit for `max-*`); one `px` length or
/// one percentage is that length or fraction.
pub open spec fn size_read(d: Dim, v: Option<CssValue>) -> bool {
    &&& v is None ==> d == Dim::Auto
    &&& has_kw(v, "auto"@) || has_kw(v, "none"@) ==> d == Dim::Auto
    &&& single_px(v) matches Some(b) ==> d == Dim::Length(b)
    &&& single_percent(v) matches Some(f) ==> d == Dim::Percent(f)
}

/// `d` is what an inset or margin property with value `v` means: missing is
/// zero, `auto` is automatic, one `px` length or one percentage is that
/// length or fraction.
pub open spec fn offset_read(d: Dim, v: Option<CssValue>) -> bool {
    &&& v is None ==> d == Dim::Length(0u32)
    &&& has_kw(v, "auto"@) ==> d == Dim::Auto
    &&& single_px(v) matches Some(b) ==> d == Dim::Length(b)
    &&& single_percent(v) matches Some(f) ==> d == Dim::Percent(f)
}

/// `d` is what a padding property with value `v` means: missing is zero,
/// one `px` length or one percentage is that length or fraction.
pub open spec fn padding_read(d: LenPct, v: Option<CssValue>) -> bool {
    &&& v is None ==> d == LenPct::Length(0u32)
    &&& single_px(v) matches Some(b) ==> d == LenPct::Length(b)
    &&& single_percent(v) matches Some(f) ==> d == LenPct::Percent(f)
}

/// A border style that draws a border: present, with a keyword other than
/// `none` and `hidden`.
pub open spec fn draws(style: Option<CssValue>) -> bool {
    style matches Some(x) && css::spec_keyword(x) matches Some(k) && !is_kw(k, "none"@) && !is_kw(
        k,
        "hidden"@,
    )
}

/// `w` is the used width of a border side with style `style` and width
/// `width`: zero unless the style draws, else one `px` length is that length.
pub open spec fn border_read(w: u32, style: Option<CssValue>, width: Option<CssValue>) -> bool {
    &&& !draws(style) ==> w == 0
    &&& draws(style) ==> (single_px(width) matches Some(b) ==> w == b)
}

proof fn lemma_single_token_values(v: Option<CssValue>)
    ensures
        size_read(style_map::spec_opt_dimension(v), v),
        offset_read(style_map::spec_length_percentage_auto(v), v),
        padding_read(style_map::spec_length_percentage(v), v),
        forall|style: Option<CssValue>| #[trigger] border_read(style_map::spec_border_width(style, v), style, v),
{
    reveal_strlit("px");
    reveal_strlit("auto");
    reveal_strlit("none");
    match v {
        Some(x) => {
            if x.tokens@.len() == 1 {
                let t = x.tokens@;
                assert(css::keyword_from(t, 1) is None);
                assert(style_map::px_from(t, 1) is None);
                assert(style_map::percent_from(t, 1) is None);
                match t[0] {
                    CssToken::Dimension(n, u) => {
                        assert(css::spec_keyword(x) is None);
                    },
                    CssToken::Percentage(n) => {
                        assert(css::spec_keyword(x) is None);
                        assert(style_map::px_from(t, 0) is None);
                    },
                    _ => {},
                }
            }
            if has_kw(v, "auto"@) || has_kw(v, "none"@) {
                assert(style_map::is_auto_or_none(css::spec_keyword(x)->0));
            }
            assert forall|style: Option<CssValue>| #[trigger] border_read(style_map::spec_border_width(style, v), style, v) by {
                reveal_strlit("hidden");
            }
        },
        None => {},
    }
}

/// Each field of a mapped style is read from the property of the same name:
/// insets from `top`/`right`/`bottom`/`left`, sizes from `width`,
/// `height`, `min-*`, `max-*` and `flex-basis`, margins and paddings from
/// their sides, borders from their side's style and width, gaps from
/// `row-gap`/`column-gap` or else the `gap` shorthand, each keyword field
/// from its own property (with the initial value when the property has no
/// keyword), and missing flex factors are `0` (grow) and `1` (shrink).
pub proof fn lemma_style_reads_own_properties(r: BoxStyle, cs: ElementStyle)
    requires
        style_map::style_maps(r, Some(cs)),
    ensures
        offset_read(r.inset.top, css::spec_get(cs, "top"@)),
        offset_read(r.inset.right, css::spec_get(cs, "right"@)),
        offset_read(r.inset.bottom, css::spec_get(cs, "bottom"@)),
        offset_read(r.inset.left, css::spec_get(cs, "left"@)),
        size_read(r.size.width, css::spec_get(cs, "width"@)),
        size_read(r.size.height, css::spec_get(cs, "height"@)),
        size_read(r.min_size.width, css::spec_get(cs, "min-width"@)),
        size_read(r.min_size.height, css::spec_get(cs, "min-height"@)),
        size_read(r.max_size.width, css::spec_get(cs, "max-width"@)),
        size_read(r.max_size.height, css::spec_get(cs, "max-height"@)),
        size_read(r.flex_basis, css::spec_get(cs, "flex-basis"@)),
        offset_read(r.margin.top, css::spec_get(cs, "margin-top"@)),
        offset_read(r.margin.right, css::spec_get(cs, "margin-right"@)),
        offset_read(r.margin.bottom, css::spec_get(cs, "margin-bottom"@)),
        offset_read(r.margin.left, css::spec_get(cs, "margin-left"@)),
        padding_read(r.padding.top, css::spec_get(cs, "padding-top"@)),
        padding_read(r.padding.right, css::spec_get(cs, "padding-right"@)),
        padding_read(r.padding.bottom, css::spec_get(cs, "padding-bottom"@)),
        padding_read(r.padding.left, css::spec_get(cs, "padding-left"@)),
        border_read(r.border.top, css::spec_get(cs, "border-top-style"@), css::spec_get(cs, "border-top-width"@)),
        border_read(r.border.right, css::spec_get(cs, "border-right-style"@), css::spec_get(cs, "border-right-width"@)),
        border_read(r.border.bottom, css::spec_get(cs, "border-bottom-style"@), css::spec_get(cs, "border-bottom-width"@)),
        border_read(r.border.left, css::spec_get(cs, "border-left-style"@), css::spec_get(cs, "border-left-width"@)),
        css::spec_get(cs, "row-gap"@) is Some ==> padding_read(r.gap.height, css::spec_get(cs, "row-gap"@)),
        css::spec_get(cs, "column-gap"@) is Some ==> padding_read(r.gap.width, css::spec_get(cs, "column-gap"@)),
        css::spec_get(cs, "row-gap"@) is None && css::spec_get(cs, "column-gap"@) is None && css::spec_get(cs, "gap"@) is None
            ==> r.gap.height == LenPct::Length(0u32) && r.gap.width == LenPct::Length(0u32),
        css::spec_get(cs, "row-gap"@) is None && css::spec_get(cs, "column-gap"@) is None ==> (
            single_px(css::spec_get(cs, "gap"@)) matches Some(b) ==> r.gap.height == LenPct::Length(b)
                && r.gap.width == LenPct::Length(b)),
        css::spec_get(cs, "flex-grow"@) is None ==> r.flex_grow == 0u32,
        css::spec_get(cs, "flex-shrink"@) is None ==> r.flex_shrink == 0x3f80_0000u32,
        match css::prop_keyword(cs, "display"@) {
            Some(k) => r.display == style_map::spec_display(k),
            None => r.display == DisplayMode::Block,
        },
        match css::prop_keyword(cs, "position"@) {
            Some(k) => r.position == style_map::spec_position(k),
            None => r.position == PositionMode::Relative,
        },
        match css::prop_keyword(cs, "box-sizing"@) {
            Some(k) => r.box_sizing == style_map::spec_box_sizing(k),
            None => r.box_sizing == BoxSizingMode::ContentBox,
        },
        match css::prop_keyword(cs, "flex-direction"@) {
            Some(k) => r.flex_direction == style_map::spec_flex_direction(k),
            None => r.flex_direction == FlexDirectionMode::Row,
        },
        match css::prop_keyword(cs, "flex-wrap"@) {
            Some(k) => r.flex_wrap == style_map::spec_flex_wrap(k),
            None => r.flex_wrap == FlexWrapMode::NoWrap,
        },
        match css::prop_keyword(cs, "justify-content"@) {
            Some(k) => r.justify_content == style_map::spec_justify_content(k),
            None => r.justify_content is None,
        },
        match css::prop_keyword(cs, "align-content"@) {
            Some(k) => r.align_content == style_map::spec_align_content(k),
            None => r.align_content is None,
        },
        match css::prop_keyword(cs, "align-items"@) {
            Some(k) => r.align_items == style_map::spec_align_items(k),
            None => r.align_items is None,
        },
        match css::prop_keyword(cs, "align-self"@) {
            Some(k) => if is_kw(k, "auto"@) {
                r.align_self is None
            } else {
                r.align_self == style_map::spec_align_items(k)
            },
            None => r.align_self is None,
        },
{
    lemma_single_token_values(css::spec_get(cs, "top"@));
    lemma_single_token_values(css::spec_get(cs, "right"@));
    lemma_single_token_values(css::spec_get(cs, "bottom"@));
    lemma_single_token_values(css::spec_get(cs, "left"@));
    lemma_single_token_values(css::spec_get(cs, "width"@));
    lemma_single_token_values(css::spec_get(cs, "height"@));
    lemma_single_token_values(css::spec_get(cs, "min-width"@));
    lemma_single_token_values(css::spec_get(cs, "min-height"@));
    lemma_single_token_values(css::spec_get(cs, "max-width"@));
    lemma_single_token_values(css::spec_get(cs, "max-height"@));
    lemma_single_token_values(css::spec_get(cs, "flex-basis"@));
    lemma_single_token_values(css::spec_get(cs, "margin-top"@));
    lemma_single_token_values(css::spec_get(cs, "margin-right"@));
    lemma_single_token_values(css::spec_get(cs, "margin-bottom"@));
    lemma_single_token_values(css::spec_get(cs, "margin-left"@));
    lemma_single_token_values(css::spec_get(cs, "padding-top"@));
    lemma_single_token_values(css::spec_get(cs, "padding-right"@));
    lemma_single_token_values(css::spec_get(cs, "padding-bottom"@));
    lemma_single_token_values(css::spec_get(cs, "padding-left"@));
    lemma_single_token_values(css::spec_get(cs, "border-top-width"@));
    lemma_single_token_values(css::spec_get(cs, "border-right-width"@));
    lemma_single_token_values(css::spec_get(cs, "border-bottom-width"@));
    lemma_single_token_values(css::spec_get(cs, "border-left-width"@));
    lemma_single_token_values(css::spec_get(cs, "row-gap"@));
    lemma_single_token_values(css::spec_get(cs, "column-gap"@));
    let gap = css::spec_get(cs, "gap"@);
    if single_px(gap) is Some {
        reveal_strlit("px");
        let t = gap->0.tokens@;
        assert(style_map::first_gap(t, 1) is None);
        assert(style_map::first_gap(t, 0) == Some((LenPct::Length(single_px(gap)->0), 0int)));
    }
}

/// `v` holds exactly one identifier: its characters.
pub open spec fn single_ident(v: Option<CssValue>) -> Option<Seq<char>> {
    match v {
        Some(v) => if v.tokens@.len() == 1 {
            match v.tokens@[0] {
                CssToken::Ident(s) => Some(s@),
                _ => None,
            }
        } else {
            None
        },
        None => None,
    }
}

/// Font properties of a style: one `px` length is the font size; `bold`
/// is weight 700 and `normal` (or any other identifier) 400; a single name
/// is the family; a missing property gives nothing (it is inherited).
pub proof fn lemma_font_reads(cs: ElementStyle)
    ensures
        single_px(css::spec_get(cs, "font-size"@)) matches Some(b) ==> text::spec_font_size(cs)
            == Some(b),
        css::spec_get(cs, "font-size"@) is None ==> text::spec_font_size(cs) is None,
        single_ident(css::spec_get(cs, "font-weight"@)) matches Some(k) ==> text::spec_font_weight(
            cs,
        ) == if is_kw(k, "bold"@) {
            Some(700u16)
        } else {
            Some(400u16)
        },
        css::spec_get(cs, "font-weight"@) is None ==> text::spec_font_weight(cs) is None,
        single_ident(css::spec_get(cs, "font-family"@)) matches Some(f) ==> text::spec_font_family(
            cs,
        ) == Some(f),
        css::spec_get(cs, "font-family"@) is None ==> text::spec_font_family(cs) is None,
{
    reveal_strlit("px");
    match css::spec_get(cs, "font-size"@) {
        Some(v) => {
            if v.tokens@.len() == 1 {
                assert(text::font_size_from(v.tokens@, 1) is None);
            }
        },
        None => {},
    }
    match css::spec_get(cs, "font-weight"@) {
        Some(v) => {
            if v.tokens@.len() == 1 {
                assert(text::weight_from(v.tokens@, 1) is None);
            }
        },
        None => {},
    }
    match css::spec_get(cs, "font-family"@) {
        Some(v) => {
            if v.tokens@.len() == 1 {
                assert(text::family_from(v.tokens@, 1) is None);
            }
        },
        None => {},
    }
}

/// Inheritance of text properties: an element passes on its own font size,
/// family, weight and `text-transform` where its style sets them, and what
/// it inherited where it does not; its line height is the one its own style
/// gives at the font size it passes on. An element without a computed style
/// passes on what it inherited, unchanged.
pub proof fn lemma_text_properties_inherit(
    cs: ElementStyle,
    addr: usize,
    inh: convert::InheritedView,
)
    ensures
        convert::own_inherited(None, addr, inh) == inh,
        ({
            let own = convert::own_inherited(Some(cs), addr, inh);
            &&& css::spec_get(cs, "font-size"@) is None ==> own.font_size == inh.font_size
            &&& single_px(css::spec_get(cs, "font-size"@)) matches Some(b) ==> own.font_size == b
            &&& css::spec_get(cs, "font-family"@) is None ==> own.font_family == inh.font_family
            &&& single_ident(css::spec_get(cs, "font-family"@)) matches Some(f) ==> own.font_family
                == f
            &&& css::spec_get(cs, "font-weight"@) is None ==> own.font_weight == inh.font_weight
            &&& css::prop_keyword(cs, "text-transform"@) is None ==> own.text_transform
                == inh.text_transform
            &&& css::prop_keyword(cs, "text-transform"@) matches Some(k) ==> own.text_transform
                == Some(k)
            &&& own.line_height == (crate::tree::LineHeight::FromStyle {
                element: addr,
                font_size: own.font_size,
            })
        }),
{
    lemma_font_reads(cs);
}

/// Grid tracks of a one-component value: `Nfr` is a flexible track of `N`,
/// `Npx` a fixed track of `N` px, `N%` a track of the fraction `N/100` of
/// the container, `auto` an automatic track.
pub proof fn lemma_grid_single_track(v: CssValue)
    requires
        v.tokens@.len() == 1,
    ensures
        v.tokens@[0] matches CssToken::Percentage(n) ==> style_map::spec_grid_template(v) == seq![
            Track::Percent(n.fraction),
        ],
        v.tokens@[0] matches CssToken::Dimension(n, u) ==> (is_kw(u@, "fr"@)
            ==> style_map::spec_grid_template(v) == seq![Track::Fr(n.single)]),
        v.tokens@[0] matches CssToken::Dimension(n, u) ==> (is_kw(u@, "px"@)
            ==> style_map::spec_grid_template(v) == seq![Track::Length(n.single)]),
        v.tokens@[0] matches CssToken::Ident(s) ==> (is_kw(s@, "auto"@)
            ==> style_map::spec_grid_template(v) == seq![Track::Auto]),
{
    reveal_strlit("fr");
    reveal_strlit("px");
    assert(style_map::tracks_upto(v.tokens@, 0) =~= Seq::<Track>::empty());
    match v.tokens@[0] {
        CssToken::Dimension(n, u) => {
            if is_kw(u@, "px"@) {
                assert(css::ascii_lower(u@[0]) == 'p');
            }
        },
        _ => {},
    }
}

} // verus!
