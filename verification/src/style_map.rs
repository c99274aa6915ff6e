//! Computed style → layout style mapping (CSS Box Model Level 3, CSS
//! Flexbox Level 1, CSS Box Alignment Level 3, CSS Grid Layout Level 1).

use vstd::prelude::*;

use crate::css;
use crate::css::{kw_eq, CssNumber, CssToken, CssValue, ElementStyle};

verus! {

/// A double-precision bit pattern that compares equal to zero (`+0.0` or `-0.0`).
pub open spec fn is_zero_f64(bits: u64) -> bool {
    bits == 0 || bits == 0x8000_0000_0000_0000u64
}

/// A single-precision bit pattern whose value compares `>= 0.0`:
/// `-0.0`, or a sign-clear pattern that is not a NaN (`+inf` included).
pub open spec fn is_non_negative_f32(bits: u32) -> bool {
    bits == 0x8000_0000u32 || bits <= 0x7f80_0000u32
}

/// The first `px` length among `t[i..]`, looking inside functions such as
/// `calc(...)`; a bare zero counts as the length `0` (single-precision bits).
pub open spec fn px_from(t: Seq<CssToken>, i: int) -> Option<u32>
    decreases t, t.len() - i,
{
    if i < 0 || i >= t.len() {
        None
    } else {
        match t[i] {
            CssToken::Dimension(n, unit) => {
                if css::eq_ignore_ascii_case(unit@, "px"@) {
                    Some(n.single)
                } else {
                    px_from(t, i + 1)
                }
            },
            CssToken::Number(n) => {
                if is_zero_f64(n.value) {
                    Some(0u32)
                } else {
                    px_from(t, i + 1)
                }
            },
            CssToken::Function(_, args) => {
                proof {
                    assert(decreases_to!(t => t[i]));
                }
                match px_from(args@, 0) {
                    Some(x) => Some(x),
                    None => px_from(t, i + 1),
                }
            },
            _ => px_from(t, i + 1),
        }
    }
}

/// The first percentage among `t[i..]`, looking inside functions.
pub open spec fn percent_from(t: Seq<CssToken>, i: int) -> Option<CssNumber>
    decreases t, t.len() - i,
{
    if i < 0 || i >= t.len() {
        None
    } else {
        match t[i] {
            CssToken::Percentage(n) => Some(n),
            CssToken::Function(_, args) => {
                proof {
                    assert(decreases_to!(t => t[i]));
                }
                match percent_from(args@, 0) {
                    Some(x) => Some(x),
                    None => percent_from(t, i + 1),
                }
            },
            _ => percent_from(t, i + 1),
        }
    }
}

/// The first bare number among `t[i..]` (functions are not entered).
pub open spec fn number_from(t: Seq<CssToken>, i: int) -> Option<CssNumber>
    decreases t.len() - i,
{
    if i < 0 || i >= t.len() {
        None
    } else {
        match t[i] {
            CssToken::Number(n) => Some(n),
            _ => number_from(t, i + 1),
        }
    }
}

/// First `px` length of a component value list (single-precision bits).
pub fn extract_px(cvs: &Vec<CssToken>) -> (r: Option<u32>)
    ensures
        r == px_from(cvs@, 0),
    decreases cvs@,
{
    let mut i: usize = 0;
    while i < cvs.len()
        invariant
            i <= cvs@.len(),
            px_from(cvs@, 0) == px_from(cvs@, i as int),
        decreases cvs.len() - i,
    {
        match &cvs[i] {
            CssToken::Dimension(n, unit) => {
                if kw_eq(unit.as_str(), "px") {
                    return Some(n.single);
                }
            },
            CssToken::Number(n) => {
                if n.value == 0 || n.value == 0x8000_0000_0000_0000u64 {
                    return Some(0);
                }
            },
            CssToken::Function(_, args) => {
                proof {
                    assert(decreases_to!(cvs@ => cvs@[i as int]));
                }
                match extract_px(args) {
                    Some(x) => {
                        return Some(x);
                    },
                    None => {},
                }
            },
            _ => {},
        }
        i = i + 1;
    }
    None
}

/// First percentage of a component value list.
pub fn extract_percent(cvs: &Vec<CssToken>) -> (r: Option<CssNumber>)
    ensures
        r == percent_from(cvs@, 0),
    decreases cvs@,
{
    let mut i: usize = 0;
    while i < cvs.len()
        invariant
            i <= cvs@.len(),
            percent_from(cvs@, 0) == percent_from(cvs@, i as int),
        decreases cvs.len() - i,
    {
        match &cvs[i] {
            CssToken::Percentage(n) => {
                return Some(*n);
            },
            CssToken::Function(_, args) => {
                proof {
                    assert(decreases_to!(cvs@ => cvs@[i as int]));
                }
                match extract_percent(args) {
                    Some(x) => {
                        return Some(x);
                    },
                    None => {},
                }
            },
            _ => {},
        }
        i = i + 1;
    }
    None
}

/// First bare number of a value (used by `flex-grow` / `flex-shrink`).
pub fn extract_number_from_cv(cv: &CssValue) -> (r: Option<CssNumber>)
    ensures
        r == number_from(cv.tokens@, 0),
{
    let mut i: usize = 0;
    while i < cv.tokens.len()
        invariant
            i <= cv.tokens@.len(),
            number_from(cv.tokens@, 0) == number_from(cv.tokens@, i as int),
        decreases cv.tokens.len() - i,
    {
        match &cv.tokens[i] {
            CssToken::Number(n) => {
                return Some(*n);
            },
            _ => {},
        }
        i = i + 1;
    }
    None
}

} // verus!

verus! {

/// A size that may be automatic: `width`, `height`, their limits,
/// `flex-basis`, margins and insets. Lengths are single-precision bit
/// patterns of pixels; percentages are single-precision bit patterns of a
/// factor of the containing size (`0.5` for `50%`).
#[derive(Clone, Copy, Debug, PartialEq, Eq, Structural)]
pub enum Dim {
    Auto,
    Length(u32),
    Percent(u32),
}

/// A length or percentage (paddings and gaps), encoded as in [`Dim`].
#[derive(Clone, Copy, Debug, PartialEq, Eq, Structural)]
pub enum LenPct {
    Length(u32),
    Percent(u32),
}

/// One track of a grid template. `Fr` and `Length` hold single-precision
/// bit patterns; `Percent` holds, as in [`Dim`], the single-precision bit
/// pattern of the factor of the containing size (`0.5` for `50%`).
#[derive(Clone, Copy, Debug, PartialEq, Eq, Structural)]
pub enum Track {
    Fr(u32),
    Length(u32),
    Percent(u32),
    Auto,
}

/// The zero length (`+0.0`).
pub open spec fn zero_len() -> LenPct {
    LenPct::Length(0u32)
}

/// `auto` or `none` (ASCII case-insensitive).
pub open spec fn is_auto_or_none(k: Seq<char>) -> bool {
    css::eq_ignore_ascii_case(k, "auto"@) || css::eq_ignore_ascii_case(k, "none"@)
}

/// A value read as a size: `auto`/`none` → automatic; else its first
/// `px` length; else its first percentage as a factor; else automatic.
pub open spec fn spec_dimension(v: CssValue) -> Dim {
    if css::spec_keyword(v) matches Some(k) && is_auto_or_none(k) {
        Dim::Auto
    } else {
        match px_from(v.tokens@, 0) {
            Some(b) => Dim::Length(b),
            None => match percent_from(v.tokens@, 0) {
                Some(n) => Dim::Percent(n.fraction),
                None => Dim::Auto,
            },
        }
    }
}

/// An optional value read as a margin or inset: missing → zero;
/// `auto` → automatic; else its first `px` length, else its first
/// percentage as a factor, else zero.
pub open spec fn spec_length_percentage_auto(v: Option<CssValue>) -> Dim {
    match v {
        None => Dim::Length(0u32),
        Some(v) => {
            if css::spec_keyword(v) matches Some(k) && css::eq_ignore_ascii_case(k, "auto"@) {
                Dim::Auto
            } else {
                match px_from(v.tokens@, 0) {
                    Some(b) => Dim::Length(b),
                    None => match percent_from(v.tokens@, 0) {
                        Some(n) => Dim::Percent(n.fraction),
                        None => Dim::Length(0u32),
                    },
                }
            }
        },
    }
}

/// An optional value read as a padding or gap: its first `px` length, else
/// its first percentage as a factor, else (also when missing) zero.
pub open spec fn spec_length_percentage(v: Option<CssValue>) -> LenPct {
    match v {
        None => zero_len(),
        Some(v) => match px_from(v.tokens@, 0) {
            Some(b) => LenPct::Length(b),
            None => match percent_from(v.tokens@, 0) {
                Some(n) => LenPct::Percent(n.fraction),
                None => zero_len(),
            },
        },
    }
}

/// The track that one component value of a grid template gives, if any.
pub open spec fn spec_track(t: CssToken) -> Option<Track> {
    match t {
        CssToken::Dimension(n, unit) => {
            if css::eq_ignore_ascii_case(unit@, "fr"@) {
                Some(Track::Fr(n.single))
            } else if css::eq_ignore_ascii_case(unit@, "px"@) {
                Some(Track::Length(n.single))
            } else {
                None
            }
        },
        CssToken::Percentage(n) => Some(Track::Percent(n.fraction)),
        CssToken::Ident(s) => {
            if css::eq_ignore_ascii_case(s@, "auto"@) {
                Some(Track::Auto)
            } else {
                None
            }
        },
        _ => None,
    }
}

/// The tracks given by the first `n` component values, in order.
pub open spec fn tracks_upto(t: Seq<CssToken>, n: int) -> Seq<Track>
    decreases n,
{
    if n <= 0 || n > t.len() {
        Seq::empty()
    } else {
        match spec_track(t[n - 1]) {
            Some(tr) => tracks_upto(t, n - 1).push(tr),
            None => tracks_upto(t, n - 1),
        }
    }
}

/// The tracks of a grid template value.
pub open spec fn spec_grid_template(v: CssValue) -> Seq<Track> {
    tracks_upto(v.tokens@, v.tokens@.len() as int)
}

/// A value read as a size (`width`, `height`, their limits, `flex-basis`).
pub fn map_dimension(cv: &CssValue) -> (r: Dim)
    ensures
        r == spec_dimension(*cv),
{
    match cv.keyword() {
        Some(kw) => {
            if kw_eq(kw.as_str(), "auto") || kw_eq(kw.as_str(), "none") {
                return Dim::Auto;
            }
        },
        None => {},
    }
    match extract_px(&cv.tokens) {
        Some(px) => Dim::Length(px),
        None => match extract_percent(&cv.tokens) {
            Some(pct) => Dim::Percent(pct.fraction),
            None => Dim::Auto,
        },
    }
}

/// An optional value read as a margin or inset (CSS margins start at `0`).
pub fn map_length_percentage_auto(cv: Option<&CssValue>) -> (r: Dim)
    ensures
        r == spec_length_percentage_auto(
            match cv {
                Some(v) => Some(*v),
                None => None,
            },
        ),
{
    match cv {
        Some(cv) => {
            match cv.keyword() {
                Some(kw) => {
                    if kw_eq(kw.as_str(), "auto") {
                        return Dim::Auto;
                    }
                },
                None => {},
            }
            match extract_px(&cv.tokens) {
                Some(px) => Dim::Length(px),
                None => match extract_percent(&cv.tokens) {
                    Some(pct) => Dim::Percent(pct.fraction),
                    None => Dim::Length(0),
                },
            }
        },
        None => Dim::Length(0),
    }
}

/// An optional value read as a padding or gap.
pub fn map_length_percentage(cv: Option<&CssValue>) -> (r: LenPct)
    ensures
        r == spec_length_percentage(
            match cv {
                Some(v) => Some(*v),
                None => None,
            },
        ),
{
    match cv {
        Some(cv) => match extract_px(&cv.tokens) {
            Some(px) => LenPct::Length(px),
            None => match extract_percent(&cv.tokens) {
                Some(pct) => LenPct::Percent(pct.fraction),
                None => LenPct::Length(0),
            },
        },
        None => LenPct::Length(0),
    }
}

fn map_track(t: &CssToken) -> (r: Option<Track>)
    ensures
        r == spec_track(*t),
{
    match t {
        CssToken::Dimension(n, unit) => {
            if kw_eq(unit.as_str(), "fr") {
                Some(Track::Fr(n.single))
            } else if kw_eq(unit.as_str(), "px") {
                Some(Track::Length(n.single))
            } else {
                None
            }
        },
        CssToken::Percentage(n) => Some(Track::Percent(n.fraction)),
        CssToken::Ident(s) => {
            if kw_eq(s.as_str(), "auto") {
                Some(Track::Auto)
            } else {
                None
            }
        },
        _ => None,
    }
}

/// The tracks of `grid-template-columns` / `grid-template-rows`: `fr`,
/// `px`, percentage and `auto` single tracks, in order; other component
/// values are skipped.
pub fn map_grid_template(cv: &CssValue) -> (r: Vec<Track>)
    ensures
        r@ == spec_grid_template(*cv),
{
    let mut tracks: Vec<Track> = Vec::new();
    let mut i: usize = 0;
    while i < cv.tokens.len()
        invariant
            i <= cv.tokens@.len(),
            tracks@ == tracks_upto(cv.tokens@, i as int),
        decreases cv.tokens.len() - i,
    {
        match map_track(&cv.tokens[i]) {
            Some(t) => tracks.push(t),
            None => {},
        }
        i = i + 1;
    }
    tracks
}

} // verus!

verus! {

/// Outer display type of a box.
#[derive(Clone, Copy, Debug, PartialEq, Eq, Structural)]
pub enum DisplayMode {
    Block,
    Flex,
    Grid,
    /// `display: none`: the box takes no part in layout.
    Hidden,
}

/// Positioning scheme of a box.
#[derive(Clone, Copy, Debug, PartialEq, Eq, Structural)]
pub enum PositionMode {
    Relative,
    Absolute,
}

/// Which box the size properties describe.
#[derive(Clone, Copy, Debug, PartialEq, Eq, Structural)]
pub enum BoxSizingMode {
    BorderBox,
    ContentBox,
}

/// Main axis of a flex container.
#[derive(Clone, Copy, Debug, PartialEq, Eq, Structural)]
pub enum FlexDirectionMode {
    Row,
    Column,
    RowReverse,
    ColumnReverse,
}

/// Line wrapping of a flex container.
#[derive(Clone, Copy, Debug, PartialEq, Eq, Structural)]
pub enum FlexWrapMode {
    NoWrap,
    Wrap,
    WrapReverse,
}

/// Distribution of content along an axis (`justify-content`, `align-content`).
#[derive(Clone, Copy, Debug, PartialEq, Eq, Structural)]
pub enum ContentAlign {
    FlexStart,
    FlexEnd,
    Center,
    Stretch,
    SpaceBetween,
    SpaceAround,
    SpaceEvenly,
}

/// Cross-axis alignment of items (`align-items`, `align-self`).
#[derive(Clone, Copy, Debug, PartialEq, Eq, Structural)]
pub enum ItemAlign {
    FlexStart,
    FlexEnd,
    Center,
    Baseline,
    Stretch,
}

pub open spec fn spec_display(k: Seq<char>) -> DisplayMode {
    if css::eq_ignore_ascii_case(k, "flex"@) || css::eq_ignore_ascii_case(k, "inline-flex"@) {
        DisplayMode::Flex
    } else if css::eq_ignore_ascii_case(k, "grid"@) || css::eq_ignore_ascii_case(k, "inline-grid"@) {
        DisplayMode::Grid
    } else if css::eq_ignore_ascii_case(k, "none"@) {
        DisplayMode::Hidden
    } else {
        DisplayMode::Block
    }
}

pub open spec fn spec_position(k: Seq<char>) -> PositionMode {
    if css::eq_ignore_ascii_case(k, "absolute"@) || css::eq_ignore_ascii_case(k, "fixed"@) {
        PositionMode::Absolute
    } else {
        PositionMode::Relative
    }
}

pub open spec fn spec_box_sizing(k: Seq<char>) -> BoxSizingMode {
    if css::eq_ignore_ascii_case(k, "border-box"@) {
        BoxSizingMode::BorderBox
    } else {
        BoxSizingMode::ContentBox
    }
}

pub open spec fn spec_flex_direction(k: Seq<char>) -> FlexDirectionMode {
    if css::eq_ignore_ascii_case(k, "row-reverse"@) {
        FlexDirectionMode::RowReverse
    } else if css::eq_ignore_ascii_case(k, "column"@) {
        FlexDirectionMode::Column
    } else if css::eq_ignore_ascii_case(k, "column-reverse"@) {
        FlexDirectionMode::ColumnReverse
    } else {
        FlexDirectionMode::Row
    }
}

pub open spec fn spec_flex_wrap(k: Seq<char>) -> FlexWrapMode {
    if css::eq_ignore_ascii_case(k, "wrap"@) {
        FlexWrapMode::Wrap
    } else if css::eq_ignore_ascii_case(k, "wrap-reverse"@) {
        FlexWrapMode::WrapReverse
    } else {
        FlexWrapMode::NoWrap
    }
}

/// `justify-content`: `start`/`end` and `left`/`right` are the flex
/// edges; `normal` and unknown keywords give no value (the flex default).
pub open spec fn spec_justify_content(k: Seq<char>) -> Option<ContentAlign> {
    if css::eq_ignore_ascii_case(k, "flex-start"@) || css::eq_ignore_ascii_case(k, "start"@)
        || css::eq_ignore_ascii_case(k, "left"@) {
        Some(ContentAlign::FlexStart)
    } else if css::eq_ignore_ascii_case(k, "center"@) {
        Some(ContentAlign::Center)
    } else if css::eq_ignore_ascii_case(k, "flex-end"@) || css::eq_ignore_ascii_case(k, "end"@)
        || css::eq_ignore_ascii_case(k, "right"@) {
        Some(ContentAlign::FlexEnd)
    } else if css::eq_ignore_ascii_case(k, "space-between"@) {
        Some(ContentAlign::SpaceBetween)
    } else if css::eq_ignore_ascii_case(k, "space-around"@) {
        Some(ContentAlign::SpaceAround)
    } else if css::eq_ignore_ascii_case(k, "space-evenly"@) {
        Some(ContentAlign::SpaceEvenly)
    } else {
        None
    }
}

/// `align-content`: `normal` and unknown keywords give no value (stretch).
pub open spec fn spec_align_content(k: Seq<char>) -> Option<ContentAlign> {
    if css::eq_ignore_ascii_case(k, "stretch"@) {
        Some(ContentAlign::Stretch)
    } else if css::eq_ignore_ascii_case(k, "flex-start"@) || css::eq_ignore_ascii_case(k, "start"@) {
        Some(ContentAlign::FlexStart)
    } else if css::eq_ignore_ascii_case(k, "center"@) {
        Some(ContentAlign::Center)
    } else if css::eq_ignore_ascii_case(k, "flex-end"@) || css::eq_ignore_ascii_case(k, "end"@) {
        Some(ContentAlign::FlexEnd)
    } else if css::eq_ignore_ascii_case(k, "space-between"@) {
        Some(ContentAlign::SpaceBetween)
    } else if css::eq_ignore_ascii_case(k, "space-around"@) {
        Some(ContentAlign::SpaceAround)
    } else if css::eq_ignore_ascii_case(k, "space-evenly"@) {
        Some(ContentAlign::SpaceEvenly)
    } else {
        None
    }
}

/// `align-items` / `align-self`: `normal` and unknown keywords give no
/// value (stretch in flex layout).
pub open spec fn spec_align_items(k: Seq<char>) -> Option<ItemAlign> {
    if css::eq_ignore_ascii_case(k, "stretch"@) {
        Some(ItemAlign::Stretch)
    } else if css::eq_ignore_ascii_case(k, "flex-start"@) || css::eq_ignore_ascii_case(k, "start"@) {
        Some(ItemAlign::FlexStart)
    } else if css::eq_ignore_ascii_case(k, "center"@) {
        Some(ItemAlign::Center)
    } else if css::eq_ignore_ascii_case(k, "flex-end"@) || css::eq_ignore_ascii_case(k, "end"@) {
        Some(ItemAlign::FlexEnd)
    } else if css::eq_ignore_ascii_case(k, "baseline"@) {
        Some(ItemAlign::Baseline)
    } else {
        None
    }
}

/// `display` keyword → display type (`inline`, `inline-block`, `contents`,
/// `list-item` and unknown keywords lay out as blocks).
pub fn map_display(kw: &str) -> (r: DisplayMode)
    ensures
        r == spec_display(kw@),
{
    if kw_eq(kw, "flex") || kw_eq(kw, "inline-flex") {
        DisplayMode::Flex
    } else if kw_eq(kw, "grid") || kw_eq(kw, "inline-grid") {
        DisplayMode::Grid
    } else if kw_eq(kw, "none") {
        DisplayMode::Hidden
    } else {
        DisplayMode::Block
    }
}

/// `position` keyword → positioning (`fixed` is positioned as `absolute`;
/// `static`, `relative`, `sticky` and unknown keywords are relative).
pub fn map_position(kw: &str) -> (r: PositionMode)
    ensures
        r == spec_position(kw@),
{
    if kw_eq(kw, "absolute") || kw_eq(kw, "fixed") {
        PositionMode::Absolute
    } else {
        PositionMode::Relative
    }
}

/// `box-sizing` keyword; unknown keywords fall back to the initial `content-box`.
pub fn map_box_sizing(kw: &str) -> (r: BoxSizingMode)
    ensures
        r == spec_box_sizing(kw@),
{
    if kw_eq(kw, "border-box") {
        BoxSizingMode::BorderBox
    } else {
        BoxSizingMode::ContentBox
    }
}

/// `flex-direction` keyword; unknown keywords give `row`.
pub fn map_flex_direction(kw: &str) -> (r: FlexDirectionMode)
    ensures
        r == spec_flex_direction(kw@),
{
    if kw_eq(kw, "row-reverse") {
        FlexDirectionMode::RowReverse
    } else if kw_eq(kw, "column") {
        FlexDirectionMode::Column
    } else if kw_eq(kw, "column-reverse") {
        FlexDirectionMode::ColumnReverse
    } else {
        FlexDirectionMode::Row
    }
}

/// `flex-wrap` keyword; unknown keywords give `nowrap`.
pub fn map_flex_wrap(kw: &str) -> (r: FlexWrapMode)
    ensures
        r == spec_flex_wrap(kw@),
{
    if kw_eq(kw, "wrap") {
        FlexWrapMode::Wrap
    } else if kw_eq(kw, "wrap-reverse") {
        FlexWrapMode::WrapReverse
    } else {
        FlexWrapMode::NoWrap
    }
}

/// `justify-content` keyword → content distribution.
pub fn map_justify_content(kw: &str) -> (r: Option<ContentAlign>)
    ensures
        r == spec_justify_content(kw@),
{
    if kw_eq(kw, "flex-start") || kw_eq(kw, "start") || kw_eq(kw, "left") {
        Some(ContentAlign::FlexStart)
    } else if kw_eq(kw, "center") {
        Some(ContentAlign::Center)
    } else if kw_eq(kw, "flex-end") || kw_eq(kw, "end") || kw_eq(kw, "right") {
        Some(ContentAlign::FlexEnd)
    } else if kw_eq(kw, "space-between") {
        Some(ContentAlign::SpaceBetween)
    } else if kw_eq(kw, "space-around") {
        Some(ContentAlign::SpaceAround)
    } else if kw_eq(kw, "space-evenly") {
        Some(ContentAlign::SpaceEvenly)
    } else {
        None
    }
}

/// `align-content` keyword → line distribution of a multi-line container.
pub fn map_align_content(kw: &str) -> (r: Option<ContentAlign>)
    ensures
        r == spec_align_content(kw@),
{
    if kw_eq(kw, "stretch") {
        Some(ContentAlign::Stretch)
    } else if kw_eq(kw, "flex-start") || kw_eq(kw, "start") {
        Some(ContentAlign::FlexStart)
    } else if kw_eq(kw, "center") {
        Some(ContentAlign::Center)
    } else if kw_eq(kw, "flex-end") || kw_eq(kw, "end") {
        Some(ContentAlign::FlexEnd)
    } else if kw_eq(kw, "space-between") {
        Some(ContentAlign::SpaceBetween)
    } else if kw_eq(kw, "space-around") {
        Some(ContentAlign::SpaceAround)
    } else if kw_eq(kw, "space-evenly") {
        Some(ContentAlign::SpaceEvenly)
    } else {
        None
    }
}

/// `align-items` / `align-self` keyword → item alignment.
pub fn map_align_items(kw: &str) -> (r: Option<ItemAlign>)
    ensures
        r == spec_align_items(kw@),
{
    if kw_eq(kw, "stretch") {
        Some(ItemAlign::Stretch)
    } else if kw_eq(kw, "flex-start") || kw_eq(kw, "start") {
        Some(ItemAlign::FlexStart)
    } else if kw_eq(kw, "center") {
        Some(ItemAlign::Center)
    } else if kw_eq(kw, "flex-end") || kw_eq(kw, "end") {
        Some(ItemAlign::FlexEnd)
    } else if kw_eq(kw, "baseline") {
        Some(ItemAlign::Baseline)
    } else {
        None
    }
}

} // verus!

verus! {

/// Four edge values (margins, paddings, borders, insets).
#[derive(Clone, Copy, Debug, PartialEq, Eq)]
pub struct Edges<T> {
    pub top: T,
    pub right: T,
    pub bottom: T,
    pub left: T,
}

/// A value per axis.
#[derive(Clone, Copy, Debug, PartialEq, Eq)]
pub struct Axes<T> {
    pub width: T,
    pub height: T,
}

/// The layout style of an element box.
///
/// Numbers are single-precision bit patterns (see [`Dim`]); the fields not
/// listed here keep the layout engine's defaults.
#[derive(Debug)]
pub struct BoxStyle {
    pub display: DisplayMode,
    pub position: PositionMode,
    pub inset: Edges<Dim>,
    pub size: Axes<Dim>,
    pub min_size: Axes<Dim>,
    pub max_size: Axes<Dim>,
    pub margin: Edges<Dim>,
    pub padding: Edges<LenPct>,
    /// Used border widths in px (single-precision bits).
    pub border: Edges<u32>,
    pub box_sizing: BoxSizingMode,
    pub flex_direction: FlexDirectionMode,
    pub flex_wrap: FlexWrapMode,
    pub justify_content: Option<ContentAlign>,
    pub align_content: Option<ContentAlign>,
    pub align_items: Option<ItemAlign>,
    pub align_self: Option<ItemAlign>,
    /// `flex-grow` (single-precision bits; initial `0.0`).
    pub flex_grow: u32,
    /// `flex-shrink` (single-precision bits; initial `1.0`).
    pub flex_shrink: u32,
    pub flex_basis: Dim,
    /// `column-gap` (width) and `row-gap` (height); a missing longhand is
    /// taken from the `gap` shorthand.
    pub gap: Axes<LenPct>,
    pub grid_template_columns: Vec<Track>,
    pub grid_template_rows: Vec<Track>,
}

/// Single-precision `1.0`, the initial `flex-shrink`.
pub open spec fn one_f32() -> u32 {
    0x3f80_0000u32
}

/// The value that an optional style gives to `name`.
pub open spec fn opt_get(computed: Option<ElementStyle>, name: Seq<char>) -> Option<CssValue> {
    match computed {
        Some(cs) => css::spec_get(cs, name),
        None => None,
    }
}

/// The keyword that an optional style gives to `name`.
pub open spec fn opt_keyword(computed: Option<ElementStyle>, name: Seq<char>) -> Option<Seq<char>> {
    match computed {
        Some(cs) => css::prop_keyword(cs, name),
        None => None,
    }
}

/// A flex factor: the first number of the value when it is `>= 0`
/// (negative values are invalid), else the initial value.
pub open spec fn spec_flex_factor(v: Option<CssValue>, initial: u32) -> u32 {
    match v {
        Some(v) => match number_from(v.tokens@, 0) {
            Some(n) => if is_non_negative_f32(n.single) {
                n.single
            } else {
                initial
            },
            None => initial,
        },
        None => initial,
    }
}

/// An optional size value: missing → automatic.
pub open spec fn spec_opt_dimension(v: Option<CssValue>) -> Dim {
    match v {
        Some(v) => spec_dimension(v),
        None => Dim::Auto,
    }
}

/// A border style that draws a border: present, and neither `none` nor
/// `hidden` (the initial style is `none`).
pub open spec fn border_drawn(style: Option<CssValue>) -> bool {
    match style {
        Some(v) => match css::spec_keyword(v) {
            Some(k) => !css::eq_ignore_ascii_case(k, "none"@) && !css::eq_ignore_ascii_case(
                k,
                "hidden"@,
            ),
            None => false,
        },
        None => false,
    }
}

/// A computed border width in px (single-precision bits): its first `px`
/// length; else the keywords `thin`, `medium`, `thick` as 1, 3 and 5 px;
/// a missing width is the initial `medium`; any other value is zero.
pub open spec fn spec_line_width(width: Option<CssValue>) -> u32 {
    match width {
        None => 0x4040_0000u32,
        Some(v) => match px_from(v.tokens@, 0) {
            Some(b) => b,
            None => match css::spec_keyword(v) {
                Some(k) => if css::eq_ignore_ascii_case(k, "thin"@) {
                    0x3f80_0000u32
                } else if css::eq_ignore_ascii_case(k, "medium"@) {
                    0x4040_0000u32
                } else if css::eq_ignore_ascii_case(k, "thick"@) {
                    0x40a0_0000u32
                } else {
                    0u32
                },
                None => 0u32,
            },
        },
    }
}

/// The used width of one border side (CSS Backgrounds and Borders Level 3
/// §4.1): zero unless its style draws a border, else its computed width.
pub open spec fn spec_border_width(style: Option<CssValue>, width: Option<CssValue>) -> u32 {
    if border_drawn(style) {
        spec_line_width(width)
    } else {
        0u32
    }
}

/// The gap that one component value of the `gap` shorthand gives: a `px`
/// length, a bare zero, a percentage (as a factor), or a function such as
/// `calc(...)` read as a padding is.
pub open spec fn gap_item(t: CssToken) -> Option<LenPct> {
    match t {
        CssToken::Dimension(n, unit) => if css::eq_ignore_ascii_case(unit@, "px"@) {
            Some(LenPct::Length(n.single))
        } else {
            None
        },
        CssToken::Number(n) => if is_zero_f64(n.value) {
            Some(LenPct::Length(0u32))
        } else {
            None
        },
        CssToken::Percentage(n) => Some(LenPct::Percent(n.fraction)),
        CssToken::Function(_, args) => match px_from(args@, 0) {
            Some(b) => Some(LenPct::Length(b)),
            None => match percent_from(args@, 0) {
                Some(n) => Some(LenPct::Percent(n.fraction)),
                None => None,
            },
        },
        _ => None,
    }
}

/// The first gap among `t[i..]`, with its position.
pub open spec fn first_gap(t: Seq<CssToken>, i: int) -> Option<(LenPct, int)>
    decreases t.len() - i,
{
    if i < 0 || i >= t.len() {
        None
    } else {
        match gap_item(t[i]) {
            Some(g) => Some((g, i)),
            None => first_gap(t, i + 1),
        }
    }
}

/// The row gap of a `gap` shorthand: its first gap.
pub open spec fn shorthand_row_gap(v: CssValue) -> Option<LenPct> {
    match first_gap(v.tokens@, 0) {
        Some((g, _)) => Some(g),
        None => None,
    }
}

/// The column gap of a `gap` shorthand: its second gap, or the first when
/// it has only one.
pub open spec fn shorthand_column_gap(v: CssValue) -> Option<LenPct> {
    match first_gap(v.tokens@, 0) {
        Some((g, j)) => match first_gap(v.tokens@, j + 1) {
            Some((h, _)) => Some(h),
            None => Some(g),
        },
        None => None,
    }
}

/// One gap axis: the longhand when the style has it, else what the `gap`
/// shorthand gives that axis, else zero.
pub open spec fn spec_gap(longhand: Option<CssValue>, from_shorthand: Option<LenPct>) -> LenPct {
    match longhand {
        Some(v) => spec_length_percentage(Some(v)),
        None => match from_shorthand {
            Some(g) => g,
            None => zero_len(),
        },
    }
}

/// `r` is the layout style that the computed style `computed` maps to.
///
/// Without a computed style the box is a content-box block with the
/// engine's defaults (automatic insets). With one, each property is read
/// as its own function describes; missing keywords keep the defaults
/// (block, relative, content-box, row, nowrap, no alignment).
pub open spec fn style_maps(r: BoxStyle, computed: Option<ElementStyle>) -> bool {
    &&& r.display == match opt_keyword(computed, "display"@) {
        Some(k) => spec_display(k),
        None => DisplayMode::Block,
    }
    &&& r.position == match opt_keyword(computed, "position"@) {
        Some(k) => spec_position(k),
        None => PositionMode::Relative,
    }
    &&& r.inset == if computed is None {
        Edges { top: Dim::Auto, right: Dim::Auto, bottom: Dim::Auto, left: Dim::Auto }
    } else {
        Edges {
            top: spec_length_percentage_auto(opt_get(computed, "top"@)),
            right: spec_length_percentage_auto(opt_get(computed, "right"@)),
            bottom: spec_length_percentage_auto(opt_get(computed, "bottom"@)),
            left: spec_length_percentage_auto(opt_get(computed, "left"@)),
        }
    }
    &&& r.size == Axes {
        width: spec_opt_dimension(opt_get(computed, "width"@)),
        height: spec_opt_dimension(opt_get(computed, "height"@)),
    }
    &&& r.min_size == Axes {
        width: spec_opt_dimension(opt_get(computed, "min-width"@)),
        height: spec_opt_dimension(opt_get(computed, "min-height"@)),
    }
    &&& r.max_size == Axes {
        width: spec_opt_dimension(opt_get(computed, "max-width"@)),
        height: spec_opt_dimension(opt_get(computed, "max-height"@)),
    }
    &&& r.margin == Edges {
        top: spec_length_percentage_auto(opt_get(computed, "margin-top"@)),
        right: spec_length_percentage_auto(opt_get(computed, "margin-right"@)),
        bottom: spec_length_percentage_auto(opt_get(computed, "margin-bottom"@)),
        left: spec_length_percentage_auto(opt_get(computed, "margin-left"@)),
    }
    &&& r.padding == Edges {
        top: spec_length_percentage(opt_get(computed, "padding-top"@)),
        right: spec_length_percentage(opt_get(computed, "padding-right"@)),
        bottom: spec_length_percentage(opt_get(computed, "padding-bottom"@)),
        left: spec_length_percentage(opt_get(computed, "padding-left"@)),
    }
    &&& r.border == Edges {
        top: spec_border_width(opt_get(computed, "border-top-style"@), opt_get(computed, "border-top-width"@)),
        right: spec_border_width(opt_get(computed, "border-right-style"@), opt_get(computed, "border-right-width"@)),
        bottom: spec_border_width(opt_get(computed, "border-bottom-style"@), opt_get(computed, "border-bottom-width"@)),
        left: spec_border_width(opt_get(computed, "border-left-style"@), opt_get(computed, "border-left-width"@)),
    }
    &&& r.box_sizing == match opt_keyword(computed, "box-sizing"@) {
        Some(k) => spec_box_sizing(k),
        None => BoxSizingMode::ContentBox,
    }
    &&& r.flex_direction == match opt_keyword(computed, "flex-direction"@) {
        Some(k) => spec_flex_direction(k),
        None => FlexDirectionMode::Row,
    }
    &&& r.flex_wrap == match opt_keyword(computed, "flex-wrap"@) {
        Some(k) => spec_flex_wrap(k),
        None => FlexWrapMode::NoWrap,
    }
    &&& r.justify_content == match opt_keyword(computed, "justify-content"@) {
        Some(k) => spec_justify_content(k),
        None => None,
    }
    &&& r.align_content == match opt_keyword(computed, "align-content"@) {
        Some(k) => spec_align_content(k),
        None => None,
    }
    &&& r.align_items == match opt_keyword(computed, "align-items"@) {
        Some(k) => spec_align_items(k),
        None => None,
    }
    &&& r.align_self == match opt_keyword(computed, "align-self"@) {
        Some(k) => if css::eq_ignore_ascii_case(k, "auto"@) {
            None
        } else {
            spec_align_items(k)
        },
        None => None,
    }
    &&& r.flex_grow == spec_flex_factor(opt_get(computed, "flex-grow"@), 0u32)
    &&& r.flex_shrink == spec_flex_factor(opt_get(computed, "flex-shrink"@), one_f32())
    &&& r.flex_basis == spec_opt_dimension(opt_get(computed, "flex-basis"@))
    &&& r.gap == Axes {
        width: spec_gap(
            opt_get(computed, "column-gap"@),
            match opt_get(computed, "gap"@) {
                Some(v) => shorthand_column_gap(v),
                None => None,
            },
        ),
        height: spec_gap(
            opt_get(computed, "row-gap"@),
            match opt_get(computed, "gap"@) {
                Some(v) => shorthand_row_gap(v),
                None => None,
            },
        ),
    }
    &&& r.grid_template_columns@ == match opt_get(computed, "grid-template-columns"@) {
        Some(v) => spec_grid_template(v),
        None => Seq::empty(),
    }
    &&& r.grid_template_rows@ == match opt_get(computed, "grid-template-rows"@) {
        Some(v) => spec_grid_template(v),
        None => Seq::empty(),
    }
}

pub(crate) fn get_opt<'a>(computed: Option<&'a ElementStyle>, name: &str) -> (r: Option<&'a CssValue>)
    ensures
        match r {
            Some(v) => opt_get(
                match computed {
                    Some(c) => Some(*c),
                    None => None,
                },
                name@,
            ) == Some(*v),
            None => opt_get(
                match computed {
                    Some(c) => Some(*c),
                    None => None,
                },
                name@,
            ) is None,
        },
{
    match computed {
        Some(cs) => cs.get(name),
        None => None,
    }
}

pub(crate) fn keyword_opt<'a>(computed: Option<&'a ElementStyle>, name: &str) -> (r: Option<&'a String>)
    ensures
        match r {
            Some(k) => opt_keyword(
                match computed {
                    Some(c) => Some(*c),
                    None => None,
                },
                name@,
            ) == Some(k@),
            None => opt_keyword(
                match computed {
                    Some(c) => Some(*c),
                    None => None,
                },
                name@,
            ) is None,
        },
{
    match computed {
        Some(cs) => cs.get_keyword(name),
        None => None,
    }
}

fn opt_dimension(cv: Option<&CssValue>) -> (r: Dim)
    ensures
        r == spec_opt_dimension(
            match cv {
                Some(v) => Some(*v),
                None => None,
            },
        ),
{
    match cv {
        Some(v) => map_dimension(v),
        None => Dim::Auto,
    }
}

fn flex_factor(cv: Option<&CssValue>, initial: u32) -> (r: u32)
    ensures
        r == spec_flex_factor(
            match cv {
                Some(v) => Some(*v),
                None => None,
            },
            initial,
        ),
{
    match cv {
        Some(v) => match extract_number_from_cv(v) {
            Some(n) => {
                if n.single == 0x8000_0000u32 || n.single <= 0x7f80_0000u32 {
                    n.single
                } else {
                    initial
                }
            },
            None => initial,
        },
        None => initial,
    }
}

fn map_gap_item(t: &CssToken) -> (r: Option<LenPct>)
    ensures
        r == gap_item(*t),
{
    match t {
        CssToken::Dimension(n, unit) => {
            if kw_eq(unit.as_str(), "px") {
                Some(LenPct::Length(n.single))
            } else {
                None
            }
        },
        CssToken::Number(n) => {
            if n.value == 0 || n.value == 0x8000_0000_0000_0000u64 {
                Some(LenPct::Length(0))
            } else {
                None
            }
        },
        CssToken::Percentage(n) => Some(LenPct::Percent(n.fraction)),
        CssToken::Function(_, args) => match extract_px(args) {
            Some(b) => Some(LenPct::Length(b)),
            None => match extract_percent(args) {
                Some(n) => Some(LenPct::Percent(n.fraction)),
                None => None,
            },
        },
        _ => None,
    }
}

/// The first gap among `t[start..]`, with its position.
fn find_gap(t: &Vec<CssToken>, start: usize) -> (r: Option<(LenPct, usize)>)
    ensures
        match r {
            Some((g, j)) => j < t.len() && first_gap(t@, start as int) == Some((g, j as int)),
            None => first_gap(t@, start as int) is None,
        },
{
    let mut i: usize = start;
    while i < t.len()
        invariant
            start <= i || start > t@.len(),
            first_gap(t@, start as int) == first_gap(t@, i as int),
        decreases t.len() - i,
    {
        match map_gap_item(&t[i]) {
            Some(g) => {
                return Some((g, i));
            },
            None => {},
        }
        i = i + 1;
    }
    None
}

/// One gap axis of a style: the longhand `longhand` when present, else the
/// row (`column == false`) or column gap of the `gap` shorthand, else zero.
pub fn gap_axis(longhand: Option<&CssValue>, shorthand: Option<&CssValue>, column: bool) -> (r:
    LenPct)
    ensures
        r == spec_gap(
            match longhand {
                Some(v) => Some(*v),
                None => None,
            },
            match shorthand {
                Some(v) => if column {
                    shorthand_column_gap(*v)
                } else {
                    shorthand_row_gap(*v)
                },
                None => None,
            },
        ),
{
    match longhand {
        Some(_) => map_length_percentage(longhand),
        None => match shorthand {
            None => LenPct::Length(0),
            Some(v) => match find_gap(&v.tokens, 0) {
                None => LenPct::Length(0),
                Some((g, j)) => {
                    if !column {
                        g
                    } else {
                        match find_gap(&v.tokens, j + 1) {
                            Some((h, _)) => h,
                            None => g,
                        }
                    }
                },
            },
        },
    }
}

/// The used width of one border side, in px (single-precision bits).
pub fn border_width(style: Option<&CssValue>, width: Option<&CssValue>) -> (r: u32)
    ensures
        r == spec_border_width(
            match style {
                Some(v) => Some(*v),
                None => None,
            },
            match width {
                Some(v) => Some(*v),
                None => None,
            },
        ),
{
    let drawn = match style {
        Some(v) => match v.keyword() {
            Some(k) => !kw_eq(k.as_str(), "none") && !kw_eq(k.as_str(), "hidden"),
            None => false,
        },
        None => false,
    };
    if !drawn {
        return 0;
    }
    match width {
        None => 0x4040_0000u32,
        Some(v) => match extract_px(&v.tokens) {
            Some(b) => b,
            None => match v.keyword() {
                Some(k) => {
                    if kw_eq(k.as_str(), "thin") {
                        0x3f80_0000u32
                    } else if kw_eq(k.as_str(), "medium") {
                        0x4040_0000u32
                    } else if kw_eq(k.as_str(), "thick") {
                        0x40a0_0000u32
                    } else {
                        0u32
                    }
                },
                None => 0u32,
            },
        },
    }
}

/// Maps a computed style (or its absence) to the layout style of its box.
///
/// Without a computed style the result is a `content-box` block with the
/// engine's defaults; properties are read as [`style_maps`] states.
#[verifier::rlimit(50)]
pub fn map_style(computed: Option<&ElementStyle>) -> (r: BoxStyle)
    ensures
        style_maps(
            r,
            match computed {
                Some(c) => Some(*c),
                None => None,
            },
        ),
{
    let display = match keyword_opt(computed, "display") {
        Some(k) => map_display(k.as_str()),
        None => DisplayMode::Block,
    };
    let position = match keyword_opt(computed, "position") {
        Some(k) => map_position(k.as_str()),
        None => PositionMode::Relative,
    };
    let inset = match computed {
        None => Edges { top: Dim::Auto, right: Dim::Auto, bottom: Dim::Auto, left: Dim::Auto },
        Some(_) => Edges {
            top: map_length_percentage_auto(get_opt(computed, "top")),
            right: map_length_percentage_auto(get_opt(computed, "right")),
            bottom: map_length_percentage_auto(get_opt(computed, "bottom")),
            left: map_length_percentage_auto(get_opt(computed, "left")),
        },
    };
    let size = Axes {
        width: opt_dimension(get_opt(computed, "width")),
        height: opt_dimension(get_opt(computed, "height")),
    };
    let min_size = Axes {
        width: opt_dimension(get_opt(computed, "min-width")),
        height: opt_dimension(get_opt(computed, "min-height")),
    };
    let max_size = Axes {
        width: opt_dimension(get_opt(computed, "max-width")),
        height: opt_dimension(get_opt(computed, "max-height")),
    };
    let margin = Edges {
        top: map_length_percentage_auto(get_opt(computed, "margin-top")),
        right: map_length_percentage_auto(get_opt(computed, "margin-right")),
        bottom: map_length_percentage_auto(get_opt(computed, "margin-bottom")),
        left: map_length_percentage_auto(get_opt(computed, "margin-left")),
    };
    let padding = Edges {
        top: map_length_percentage(get_opt(computed, "padding-top")),
        right: map_length_percentage(get_opt(computed, "padding-right")),
        bottom: map_length_percentage(get_opt(computed, "padding-bottom")),
        left: map_length_percentage(get_opt(computed, "padding-left")),
    };
    let border = Edges {
        top: border_width(get_opt(computed, "border-top-style"), get_opt(computed, "border-top-width")),
        right: border_width(get_opt(computed, "border-right-style"), get_opt(computed, "border-right-width")),
        bottom: border_width(get_opt(computed, "border-bottom-style"), get_opt(computed, "border-bottom-width")),
        left: border_width(get_opt(computed, "border-left-style"), get_opt(computed, "border-left-width")),
    };
    let box_sizing = match keyword_opt(computed, "box-sizing") {
        Some(k) => map_box_sizing(k.as_str()),
        None => BoxSizingMode::ContentBox,
    };
    let flex_direction = match keyword_opt(computed, "flex-direction") {
        Some(k) => map_flex_direction(k.as_str()),
        None => FlexDirectionMode::Row,
    };
    let flex_wrap = match keyword_opt(computed, "flex-wrap") {
        Some(k) => map_flex_wrap(k.as_str()),
        None => FlexWrapMode::NoWrap,
    };
    let justify_content = match keyword_opt(computed, "justify-content") {
        Some(k) => map_justify_content(k.as_str()),
        None => None,
    };
    let align_content = match keyword_opt(computed, "align-content") {
        Some(k) => map_align_content(k.as_str()),
        None => None,
    };
    let align_items = match keyword_opt(computed, "align-items") {
        Some(k) => map_align_items(k.as_str()),
        None => None,
    };
    let align_self = match keyword_opt(computed, "align-self") {
        Some(k) => {
            if kw_eq(k.as_str(), "auto") {
                None
            } else {
                map_align_items(k.as_str())
            }
        },
        None => None,
    };
    let flex_grow = flex_factor(get_opt(computed, "flex-grow"), 0);
    let flex_shrink = flex_factor(get_opt(computed, "flex-shrink"), 0x3f80_0000u32);
    let flex_basis = opt_dimension(get_opt(computed, "flex-basis"));
    let gap = Axes {
        width: gap_axis(get_opt(computed, "column-gap"), get_opt(computed, "gap"), true),
        height: gap_axis(get_opt(computed, "row-gap"), get_opt(computed, "gap"), false),
    };
    let grid_template_columns = match get_opt(computed, "grid-template-columns") {
        Some(v) => map_grid_template(v),
        None => Vec::new(),
    };
    let grid_template_rows = match get_opt(computed, "grid-template-rows") {
        Some(v) => map_grid_template(v),
        None => Vec::new(),
    };
    BoxStyle {
        display,
        position,
        inset,
        size,
        min_size,
        max_size,
        margin,
        padding,
        border,
        box_sizing,
        flex_direction,
        flex_wrap,
        justify_content,
        align_content,
        align_items,
        align_self,
        flex_grow,
        flex_shrink,
        flex_basis,
        gap,
        grid_template_columns,
        grid_template_rows,
    }
}

} // verus!

verus! {

proof fn lemma_eq_ignore_case_same(a: Seq<char>, b: Seq<char>, l: Seq<char>)
    requires
        css::eq_ignore_ascii_case(a, b),
    ensures
        css::eq_ignore_ascii_case(a, l) == css::eq_ignore_ascii_case(b, l),
{
    if css::eq_ignore_ascii_case(a, l) {
        assert forall|i: int| 0 <= i < b.len() implies css::ascii_lower(#[trigger] b[i])
            == css::ascii_lower(l[i]) by {
            assert(css::ascii_lower(a[i]) == css::ascii_lower(b[i]));
        }
    }
    if css::eq_ignore_ascii_case(b, l) {
        assert forall|i: int| 0 <= i < a.len() implies css::ascii_lower(#[trigger] a[i])
            == css::ascii_lower(l[i]) by {
            assert(css::ascii_lower(a[i]) == css::ascii_lower(b[i]));
        }
    }
}

/// Keywords are matched ASCII case-insensitively: two keywords that differ
/// only in the case of ASCII letters map to the same display type,
/// positioning, box sizing, flex direction and wrapping, and alignments.
pub proof fn lemma_keywords_case_insensitive(a: Seq<char>, b: Seq<char>)
    requires
        css::eq_ignore_ascii_case(a, b),
    ensures
        spec_display(a) == spec_display(b),
        spec_position(a) == spec_position(b),
        spec_box_sizing(a) == spec_box_sizing(b),
        spec_flex_direction(a) == spec_flex_direction(b),
        spec_flex_wrap(a) == spec_flex_wrap(b),
        spec_justify_content(a) == spec_justify_content(b),
        spec_align_content(a) == spec_align_content(b),
        spec_align_items(a) == spec_align_items(b),
{
    assert forall|l: Seq<char>| #[trigger] css::eq_ignore_ascii_case(a, l) == css::eq_ignore_ascii_case(
        b,
        l,
    ) by {
        lemma_eq_ignore_case_same(a, b, l);
    }
}

/// A negative (or NaN) `flex-grow` / `flex-shrink` is invalid and leaves
/// the initial value in place; a non-negative one is taken as it is.
pub proof fn lemma_negative_flex_factor_rejected(v: CssValue, initial: u32)
    requires
        number_from(v.tokens@, 0) is Some,
    ensures
        ({
            let n = number_from(v.tokens@, 0)->0;
            &&& is_non_negative_f32(n.single) ==> spec_flex_factor(Some(v), initial) == n.single
            &&& !is_non_negative_f32(n.single) ==> spec_flex_factor(Some(v), initial) == initial
        }),
{
}

} // verus!
