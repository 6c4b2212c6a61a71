//! How an element of the document is converted, decided in three steps:
//! whether it is converted at all (and by which converter), whether it
//! becomes a group of the converted tree, and what its content becomes.
//!
//! Between the first two steps the caller converts the links of the element
//! (`clip-path`, `mask`, `filter`); what came of each, and a few plain facts
//! about the element, decide whether the element is dropped, gets a group
//! of its own, or has its content placed directly into its parent.
//!
//! The module also plans the path made of a shape, and two rewrites that
//! prepare the document: groups made around elements with links or
//! opacity, and `a` elements turned into groups or `tspan`s.

use vstd::prelude::*;
use crate::tree::{PaintOrder, PaintOrderKind, Visibility, spec_paint_order, svg_paint_order_to_usvg};

verus! {

/// What came of converting a `clip-path` or `mask` link.
#[derive(Clone, Copy, PartialEq, Eq, Debug, Structural)]
pub enum LinkOutcome {
    /// The element has no such attribute.
    Absent,
    /// The link was converted.
    Resolved,
    /// The link points to nothing usable.
    Invalid,
}

/// What came of converting the `filter` attribute.
#[derive(Clone, Copy, PartialEq, Eq, Debug, Structural)]
pub enum FilterOutcome {
    /// The element has no `filter` attribute.
    Absent,
    /// The attribute is `none`.
    Disabled,
    /// The filters were converted; this many of them.
    Resolved(usize),
    /// The attribute is not a list of links to filters.
    Invalid,
}

/// The facts about an element that decide its group.
#[derive(Clone, Copy, PartialEq, Eq, Debug, Structural)]
pub struct GroupFacts {
    /// The element is inside a `clipPath`: it cannot have an opacity, a mask
    /// or a filter there.
    pub in_clip_path: bool,
    /// Its opacity is one (or absent).
    pub opacity_is_one: bool,
    pub clip_path: LinkOutcome,
    pub mask: LinkOutcome,
    pub filter: FilterOutcome,
    /// Its transform is the identity (or absent).
    pub transform_is_default: bool,
    pub has_enable_background: bool,
    /// It is a `g` or a `use` element.
    pub is_g_or_use: bool,
    /// It has a non-empty ID.
    pub has_id: bool,
    /// Groups with an ID are to be kept.
    pub keep_named_groups: bool,
    /// The element is converted for an `feImage` link.
    pub fe_image_link: bool,
    /// The caller asks for a group whatever the facts.
    pub force: bool,
}

/// What becomes of an element.
#[derive(Clone, Copy, PartialEq, Eq, Debug, Structural)]
pub enum GroupKind {
    /// A group is created; it takes the element's ID when `keep_id` holds
    /// (for `g` and `use`), an empty one otherwise.
    Create { keep_id: bool },
    /// No group: the content goes straight into the parent.
    Skip,
    /// The element is dropped with its content.
    Ignore,
}

/// The mask and filter that apply: none inside a `clipPath`.
pub open spec fn mask_applies(f: GroupFacts) -> bool {
    !f.in_clip_path && f.mask == LinkOutcome::Resolved
}

/// The element has at least one filter that applies.
pub open spec fn filter_applies(f: GroupFacts) -> bool {
    !f.in_clip_path && (f.filter matches FilterOutcome::Resolved(n) && n > 0)
}

/// A link that makes the element be dropped: an invalid clip path anywhere,
/// or, outside a `clipPath`, an invalid mask or filter.
pub open spec fn has_broken_link(f: GroupFacts) -> bool {
    ||| f.clip_path == LinkOutcome::Invalid
    ||| !f.in_clip_path && f.mask == LinkOutcome::Invalid
    ||| !f.in_clip_path && f.filter == FilterOutcome::Invalid
}

/// The element needs a group of its own.
pub open spec fn group_required(f: GroupFacts) -> bool {
    ||| !f.in_clip_path && !f.opacity_is_one
    ||| f.clip_path == LinkOutcome::Resolved
    ||| mask_applies(f)
    ||| filter_applies(f)
    ||| !f.transform_is_default
    ||| f.has_enable_background
    ||| f.is_g_or_use && f.has_id && (f.keep_named_groups || f.fe_image_link)
    ||| f.force
}

/// What becomes of an element with the facts `f`.
pub open spec fn spec_group_kind(f: GroupFacts) -> GroupKind {
    if has_broken_link(f) {
        GroupKind::Ignore
    } else if group_required(f) {
        GroupKind::Create { keep_id: f.is_g_or_use }
    } else {
        GroupKind::Skip
    }
}

/// Decides what becomes of an element: dropped when one of its links is
/// broken, a group of its own when anything about it needs one, and its
/// content placed into the parent otherwise.
pub fn convert_group(f: &GroupFacts) -> (r: GroupKind)
    ensures
        r == spec_group_kind(*f),
{
    if f.clip_path == LinkOutcome::Invalid {
        return GroupKind::Ignore;
    }
    let in_clip = f.in_clip_path;
    if !in_clip && f.mask == LinkOutcome::Invalid {
        return GroupKind::Ignore;
    }
    let mut filter_count: usize = 0;
    if !in_clip {
        match f.filter {
            FilterOutcome::Invalid => {
                return GroupKind::Ignore;
            },
            FilterOutcome::Resolved(n) => {
                filter_count = n;
            },
            _ => {},
        }
    }
    let opacity_is_one = in_clip || f.opacity_is_one;
    let has_mask = !in_clip && f.mask == LinkOutcome::Resolved;
    let required = !opacity_is_one || f.clip_path == LinkOutcome::Resolved || has_mask
        || filter_count != 0 || !f.transform_is_default || f.has_enable_background || (f.is_g_or_use
        && f.has_id && (f.keep_named_groups || f.fe_image_link)) || f.force;
    if required {
        GroupKind::Create { keep_id: f.is_g_or_use }
    } else {
        GroupKind::Skip
    }
}

/// Inside a `clipPath` an element's opacity, mask and filter count for
/// nothing: two elements that differ only in them get the same outcome.
pub proof fn lemma_clip_path_children_ignore_opacity_mask_filter(f: GroupFacts, g: GroupFacts)
    requires
        f.in_clip_path,
        g == (GroupFacts { opacity_is_one: g.opacity_is_one, mask: g.mask, filter: g.filter, ..f }),
    ensures
        spec_group_kind(f) == spec_group_kind(g),
{
}

/// An element with a broken link is always dropped, whatever else holds
/// of it, a forced group included.
pub proof fn lemma_broken_link_drops_element(f: GroupFacts)
    requires
        has_broken_link(f),
    ensures
        spec_group_kind(f) == GroupKind::Ignore,
{
}

/// Outside a `clipPath`, an element with no broken link whose opacity is
/// not one always gets a group of its own to carry the opacity, whatever
/// its tag; the group keeps the element's ID only for `g` and `use`.
pub proof fn lemma_translucent_element_gets_group(f: GroupFacts)
    requires
        !f.in_clip_path,
        !f.opacity_is_one,
        f.clip_path != LinkOutcome::Invalid,
        f.mask != LinkOutcome::Invalid,
        f.filter != FilterOutcome::Invalid,
    ensures
        spec_group_kind(f) == (GroupKind::Create { keep_id: f.is_g_or_use }),
{
}

/// An element with no broken link gets a group of its own when it is
/// clipped, masked or filtered (mask and filter only outside a
/// `clipPath`), transformed, starts a background, is a named `g` or `use`
/// to keep, or the caller forces a group.
pub proof fn lemma_group_reasons(f: GroupFacts)
    requires
        f.clip_path != LinkOutcome::Invalid,
        f.in_clip_path || (f.mask != LinkOutcome::Invalid && f.filter != FilterOutcome::Invalid),
        f.clip_path == LinkOutcome::Resolved || (!f.in_clip_path && f.mask == LinkOutcome::Resolved) || (
        !f.in_clip_path && (f.filter matches FilterOutcome::Resolved(n) && n > 0)) || !f.transform_is_default
            || f.has_enable_background || f.force || (f.is_g_or_use && f.has_id && (f.keep_named_groups
            || f.fe_image_link)),
    ensures
        spec_group_kind(f) == (GroupKind::Create { keep_id: f.is_g_or_use }),
{
}

/// An element with nothing that needs a group (opaque or inside a
/// `clipPath`, no clip path, no mask or filter that applies, no transform,
/// no background, not a kept named group, not forced) has its content
/// placed into its parent.
pub proof fn lemma_plain_element_is_skipped(f: GroupFacts)
    requires
        f.in_clip_path || f.opacity_is_one,
        f.clip_path == LinkOutcome::Absent,
        f.in_clip_path || f.mask == LinkOutcome::Absent,
        f.in_clip_path || f.filter == FilterOutcome::Absent || f.filter == FilterOutcome::Disabled
            || f.filter == FilterOutcome::Resolved(0),
        f.transform_is_default,
        !f.has_enable_background,
        !f.force,
        !(f.is_g_or_use && f.has_id && (f.keep_named_groups || f.fe_image_link)),
    ensures
        spec_group_kind(f) == GroupKind::Skip,
{
}

/// The name of an element, as far as its conversion goes.
#[derive(Clone, Copy, PartialEq, Eq, Debug, Structural)]
pub enum Tag {
    Rect,
    Circle,
    Ellipse,
    Line,
    Polyline,
    Polygon,
    Path,
    Image,
    Text,
    Use,
    G,
    Switch,
    Svg,
    /// Any other element: none of them is drawn.
    Other,
}

/// The graphics elements of SVG.
pub open spec fn is_graphic(tag: Tag) -> bool {
    match tag {
        Tag::G | Tag::Switch | Tag::Svg | Tag::Other => false,
        _ => true,
    }
}

/// A basic shape or a path.
pub open spec fn is_shape(tag: Tag) -> bool {
    match tag {
        Tag::Rect | Tag::Circle | Tag::Ellipse | Tag::Line | Tag::Polyline | Tag::Polygon | Tag::Path => true,
        _ => false,
    }
}

/// The first step: which converter an element goes to.
#[derive(Clone, Copy, PartialEq, Eq, Debug, Structural)]
pub enum Route {
    /// It is not converted.
    Drop,
    /// It goes to the converter of `use` elements.
    Use,
    /// It goes to the converter of `switch` elements.
    Switch,
    /// Its group is decided next, then its content.
    Element,
}

/// The route of an element with the tag `tag`; `visible` tells whether it
/// is displayed, has a valid transform and passes its conditions.
pub open spec fn spec_element_route(tag: Tag, visible: bool) -> Route {
    if !is_graphic(tag) && !(tag == Tag::G || tag == Tag::Switch || tag == Tag::Svg) {
        Route::Drop
    } else if !visible {
        Route::Drop
    } else if tag == Tag::Use {
        Route::Use
    } else if tag == Tag::Switch {
        Route::Switch
    } else {
        Route::Element
    }
}

/// Routes an element of the document: only graphics elements, groups,
/// `switch` and `svg` are converted, and only when visible; `use` and
/// `switch` have converters of their own.
pub fn element_route(tag: Tag, visible: bool) -> (r: Route)
    ensures
        r == spec_element_route(tag, visible),
{
    match tag {
        Tag::Other => Route::Drop,
        _ => {
            if !visible {
                Route::Drop
            } else {
                match tag {
                    Tag::Use => Route::Use,
                    Tag::Switch => Route::Switch,
                    _ => Route::Element,
                }
            }
        },
    }
}

/// The last step: what the content of a converted element becomes.
#[derive(Clone, Copy, PartialEq, Eq, Debug, Structural)]
pub enum Content {
    /// A path, from a shape.
    Shape,
    /// An image.
    Image,
    /// Text converted with the loaded fonts.
    Text,
    /// A nested `svg`, converted like a `use` of it.
    NestedSvg,
    /// The element's children, converted in turn.
    Children,
    /// Nothing.
    Nothing,
}

/// The content of a routed element: `has_parent` tells whether an `svg`
/// element is nested (the root one only passes on its children), and
/// `has_fonts` whether any font is loaded (without fonts text is dropped).
pub open spec fn spec_element_content(tag: Tag, has_parent: bool, has_fonts: bool) -> Content {
    if is_shape(tag) {
        Content::Shape
    } else if tag == Tag::Image {
        Content::Image
    } else if tag == Tag::Text {
        if has_fonts { Content::Text } else { Content::Nothing }
    } else if tag == Tag::Svg {
        if has_parent { Content::NestedSvg } else { Content::Children }
    } else if tag == Tag::G {
        Content::Children
    } else {
        Content::Nothing
    }
}

/// Decides what the content of a routed element becomes.
pub fn element_content(tag: Tag, has_parent: bool, has_fonts: bool) -> (r: Content)
    ensures
        r == spec_element_content(tag, has_parent, has_fonts),
{
    match tag {
        Tag::Rect | Tag::Circle | Tag::Ellipse | Tag::Line | Tag::Polyline | Tag::Polygon | Tag::Path => Content::Shape,
        Tag::Image => Content::Image,
        Tag::Text => if has_fonts {
            Content::Text
        } else {
            Content::Nothing
        },
        Tag::Svg => if has_parent {
            Content::NestedSvg
        } else {
            Content::Children
        },
        Tag::G => Content::Children,
        _ => Content::Nothing,
    }
}

/// The route of a child of a `clipPath`: only visible graphics elements are
/// converted, `use` by its own converter.
pub open spec fn spec_clip_child_route(tag: Tag, visible: bool) -> Route {
    if !is_graphic(tag) || !visible {
        Route::Drop
    } else if tag == Tag::Use {
        Route::Use
    } else {
        Route::Element
    }
}

/// Routes a child of a `clipPath`.
pub fn clip_child_route(tag: Tag, visible: bool) -> (r: Route)
    ensures
        r == spec_clip_child_route(tag, visible),
{
    match tag {
        Tag::G | Tag::Switch | Tag::Svg | Tag::Other => Route::Drop,
        Tag::Use => if visible {
            Route::Use
        } else {
            Route::Drop
        },
        _ => if visible {
            Route::Element
        } else {
            Route::Drop
        },
    }
}

/// The content of a routed child of a `clipPath`: shapes other than `line`
/// (whose stroke a clip path never draws) and text, when fonts are loaded.
pub open spec fn spec_clip_child_content(tag: Tag, has_fonts: bool) -> Content {
    if is_shape(tag) && tag != Tag::Line {
        Content::Shape
    } else if tag == Tag::Text && has_fonts {
        Content::Text
    } else {
        Content::Nothing
    }
}

/// Decides what the content of a routed child of a `clipPath` becomes.
pub fn clip_child_content(tag: Tag, has_fonts: bool) -> (r: Content)
    ensures
        r == spec_clip_child_content(tag, has_fonts),
{
    match tag {
        Tag::Rect | Tag::Circle | Tag::Ellipse | Tag::Polyline | Tag::Polygon | Tag::Path => Content::Shape,
        Tag::Text => if has_fonts {
            Content::Text
        } else {
            Content::Nothing
        },
        _ => Content::Nothing,
    }
}

/// A clip path holds only paths and text: whatever a child of it is, its
/// content is never an image, a nested `svg` or a list of children.
pub proof fn lemma_clip_path_content_is_paths_or_text(tag: Tag, has_fonts: bool)
    ensures
        spec_clip_child_content(tag, has_fonts) == Content::Shape || spec_clip_child_content(tag, has_fonts)
            == Content::Text || spec_clip_child_content(tag, has_fonts) == Content::Nothing,
{
}

/// Where the markers of a path go.
#[derive(Clone, Copy, PartialEq, Eq, Debug, Structural)]
pub enum MarkersPlacement {
    /// The path gets no markers.
    Absent,
    /// The markers group goes before the path, so the path is drawn over it.
    BeforePath,
    /// The markers group goes after the path (`paint-order` lists markers
    /// last).
    AfterPath,
}

/// How a shape becomes a path of the converted tree.
#[derive(Clone, Copy, PartialEq, Eq, Debug, Structural)]
pub struct PathPlan {
    pub visibility: Visibility,
    pub paint_order: PaintOrder,
    pub markers: MarkersPlacement,
}

/// The visibility of a path: one with neither fill nor stroke is hidden.
pub open spec fn path_visibility(has_fill: bool, has_stroke: bool, visibility: Visibility) -> Visibility {
    if !has_fill && !has_stroke {
        Visibility::Hidden
    } else {
        visibility
    }
}

/// The plan for a path of `segment_count` segments.
pub open spec fn spec_path_plan(
    segment_count: usize,
    has_fill: bool,
    has_stroke: bool,
    visibility: Visibility,
    markers_valid: bool,
    order: Seq<PaintOrderKind>,
) -> Option<PathPlan> {
    if segment_count < 2 {
        None
    } else {
        let v = path_visibility(has_fill, has_stroke, visibility);
        Some(PathPlan {
            visibility: v,
            paint_order: spec_paint_order(order[0], order[1]),
            markers: if markers_valid && v == Visibility::Visible {
                if order[2] == PaintOrderKind::Markers {
                    MarkersPlacement::AfterPath
                } else {
                    MarkersPlacement::BeforePath
                }
            } else {
                MarkersPlacement::Absent
            },
        })
    }
}

/// Plans the path made of a shape: a path of fewer than two segments is
/// not added; one without fill and stroke is hidden; a visible path with
/// valid markers gets a markers group, after the path when `paint-order`
/// (`order`, its three parts in drawing order) lists markers last.
/// `visibility` is the `visibility` found on the element or its ancestors,
/// and `markers_valid` tells whether the element can have markers at all.
pub fn convert_path(
    segment_count: usize,
    has_fill: bool,
    has_stroke: bool,
    visibility: Visibility,
    markers_valid: bool,
    order: [PaintOrderKind; 3],
) -> (r: Option<PathPlan>)
    ensures
        r == spec_path_plan(segment_count, has_fill, has_stroke, visibility, markers_valid, order@),
{
    if segment_count < 2 {
        return None;
    }
    let paint_order = svg_paint_order_to_usvg(order);
    let visibility = if !has_fill && !has_stroke {
        Visibility::Hidden
    } else {
        visibility
    };
    let markers = if markers_valid && visibility == Visibility::Visible {
        if order[2] == PaintOrderKind::Markers {
            MarkersPlacement::AfterPath
        } else {
            MarkersPlacement::BeforePath
        }
    } else {
        MarkersPlacement::Absent
    };
    Some(PathPlan { visibility, paint_order, markers })
}

/// An attribute that moves from a graphics element to the group made
/// around it.
#[derive(Clone, Copy, PartialEq, Eq, Debug, Structural)]
pub enum MovedAttr {
    ClipPath,
    Mask,
    Filter,
    Opacity,
    Transform,
}

/// The attribute `a` when `present` holds, nothing otherwise.
pub open spec fn moved_if(present: bool, a: MovedAttr) -> Seq<MovedAttr> {
    if present {
        seq![a]
    } else {
        Seq::empty()
    }
}

/// What regrouping does to a graphics element that references a clip path,
/// mask or filter, or is not fully opaque: a group is made around it and
/// takes over those attributes and the transform, in this order; an
/// opacity of one stays behind. Other elements are left alone (`None`).
pub open spec fn spec_regroup(
    is_graphic: bool,
    opacity_is_one: bool,
    has_clip_path: bool,
    has_mask: bool,
    has_filter: bool,
    has_opacity: bool,
    has_transform: bool,
) -> Option<Seq<MovedAttr>> {
    if !is_graphic || (opacity_is_one && !has_clip_path && !has_mask && !has_filter) {
        None
    } else {
        Some(moved_if(has_clip_path, MovedAttr::ClipPath) + moved_if(has_mask, MovedAttr::Mask) + moved_if(
            has_filter,
            MovedAttr::Filter,
        ) + moved_if(has_opacity && !opacity_is_one, MovedAttr::Opacity) + moved_if(
            has_transform,
            MovedAttr::Transform,
        ))
    }
}

/// Decides whether an element is regrouped and which of its attributes move
/// to the new group. `opacity_is_one` tells whether its opacity, clamped to
/// `0..1` (one when absent or not a number), is one.
pub fn regroup_element(
    is_graphic: bool,
    opacity_is_one: bool,
    has_clip_path: bool,
    has_mask: bool,
    has_filter: bool,
    has_opacity: bool,
    has_transform: bool,
) -> (r: Option<Vec<MovedAttr>>)
    ensures
        match r {
            Some(v) => spec_regroup(is_graphic, opacity_is_one, has_clip_path, has_mask, has_filter, has_opacity, has_transform)
                == Some(v@),
            None => spec_regroup(is_graphic, opacity_is_one, has_clip_path, has_mask, has_filter, has_opacity, has_transform)
                is None,
        },
{
    if !is_graphic || (opacity_is_one && !has_clip_path && !has_mask && !has_filter) {
        return None;
    }
    let mut moved: Vec<MovedAttr> = Vec::new();
    if has_clip_path {
        moved.push(MovedAttr::ClipPath);
    }
    if has_mask {
        moved.push(MovedAttr::Mask);
    }
    if has_filter {
        moved.push(MovedAttr::Filter);
    }
    if has_opacity && !opacity_is_one {
        moved.push(MovedAttr::Opacity);
    }
    if has_transform {
        moved.push(MovedAttr::Transform);
    }
    proof {
        assert(moved@ =~= moved_if(has_clip_path, MovedAttr::ClipPath) + moved_if(has_mask, MovedAttr::Mask)
            + moved_if(has_filter, MovedAttr::Filter) + moved_if(has_opacity && !opacity_is_one, MovedAttr::Opacity)
            + moved_if(has_transform, MovedAttr::Transform));
    }
    Some(moved)
}

/// What an `a` element becomes, since links are not kept.
#[derive(Clone, Copy, PartialEq, Eq, Debug, Structural)]
pub enum AnchorReplacement {
    /// A `tspan`, inside text.
    Tspan,
    /// A group, anywhere else.
    G,
}

/// Decides what an `a` element becomes: a `tspan` when one of its
/// ancestors is a `text` element, a group otherwise. `ancestors_are_text`
/// tells, for the element and then each of its ancestors outwards, whether
/// it is a `text` element; the element itself does not count.
pub fn ungroup_a(ancestors_are_text: &[bool]) -> (r: AnchorReplacement)
    ensures
        r == (if exists|k: int| 1 <= k < ancestors_are_text@.len() && #[trigger] ancestors_are_text@[k] {
            AnchorReplacement::Tspan
        } else {
            AnchorReplacement::G
        }),
{
    let mut k: usize = 1;
    while k < ancestors_are_text.len()
        invariant
            1 <= k,
            forall|j: int| 1 <= j < k && j < ancestors_are_text@.len() ==> !#[trigger] ancestors_are_text@[j],
        decreases ancestors_are_text.len() - k,
    {
        if ancestors_are_text[k] {
            return AnchorReplacement::Tspan;
        }
        k = k + 1;
    }
    AnchorReplacement::G
}

} // verus!
