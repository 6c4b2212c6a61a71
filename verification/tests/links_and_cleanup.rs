use usvg_core::group::{
    clip_child_content, clip_child_route, convert_group, element_content, element_route, Content,
    FilterOutcome, GroupFacts, GroupKind, LinkOutcome, Route, Tag, convert_path, MarkersPlacement,
    PathPlan, regroup_element, MovedAttr, ungroup_a, AnchorReplacement,
};
use usvg_core::subroots::{
    collect_items, has_text_nodes, node_subroots, ItemScanNode, SpanPaints, SubrootNode, TextScanNode,
};
use usvg_core::cleanup::{
    group_removable, is_valid_child, keep_clip_path_child, prepare_text, remove_empty_groups,
    sanitize_sub_svg, ungroup_groups, ElementKind, GroupTree, LiftedNode, NodeClass, TreeNode,
};
use usvg_core::links::{
    fe_image_links, is_id_used, remove_unused_defs, DefLinks, FilterImageLinks, LinkDoc, NodeLinks,
    Paint,
};
use usvg_core::tree::{Color, PaintOrder, PaintOrderKind, Visibility};

fn s(v: &str) -> Option<String> {
    Some(v.to_string())
}

fn def(id: &str, links: Vec<NodeLinks>) -> DefLinks {
    DefLinks { id: id.to_string(), links }
}

fn group(clip: Option<String>, filters: &[&str]) -> NodeLinks {
    NodeLinks::Group {
        clip_path: clip,
        mask: None,
        filter_fill: None,
        filter_stroke: None,
        filters: filters.iter().map(|f| f.to_string()).collect(),
    }
}

fn doc() -> LinkDoc {
    LinkDoc {
        body: vec![
            NodeLinks::Other,
            group(s("clip1"), &["filter1"]),
            NodeLinks::Path { fill: Some(Paint::Link("lg1".to_string())), stroke: Some(Paint::Color(Color::black())) },
        ],
        defs: vec![
            def("clip1", vec![NodeLinks::ClipPath { clip_path: None }, NodeLinks::Path { fill: None, stroke: None }]),
            def("lg1", vec![NodeLinks::Other]),
            def("unused", vec![NodeLinks::Mask { mask: s("mask2") }]),
            def("mask2", vec![NodeLinks::Mask { mask: None }]),
            def("filter1", vec![NodeLinks::Filter { image_uses: vec![None, s("img")] }]),
            def("img", vec![NodeLinks::Other]),
            def("a", vec![NodeLinks::ClipPath { clip_path: s("b") }]),
            def("b", vec![NodeLinks::ClipPath { clip_path: s("a") }]),
        ],
    }
}

#[test]
fn ids_in_use() {
    let d = doc();
    for id in ["clip1", "filter1", "lg1", "mask2", "img", "a", "b"] {
        assert!(is_id_used(&d, id), "{}", id);
    }
    for id in ["unused", "black", "", "Clip1"] {
        assert!(!is_id_used(&d, id), "{}", id);
    }
    let fill_doc = LinkDoc {
        body: vec![NodeLinks::Group {
            clip_path: None,
            mask: s("m"),
            filter_fill: Some(Paint::Link("p1".to_string())),
            filter_stroke: Some(Paint::Link("p2".to_string())),
            filters: Vec::new(),
        }],
        defs: Vec::new(),
    };
    assert!(is_id_used(&fill_doc, "m"));
    assert!(is_id_used(&fill_doc, "p1"));
    assert!(is_id_used(&fill_doc, "p2"));
    assert!(!is_id_used(&fill_doc, "p3"));
}

#[test]
fn unused_defs_are_removed_until_none_is_left() {
    let mut d = doc();
    let kept = remove_unused_defs(&mut d);
    // `unused` goes first; then `mask2`, only referenced by it, goes too.
    // `a` and `b` reference each other and stay.
    assert_eq!(kept, vec![0, 1, 4, 5, 6, 7]);
    let ids: Vec<&str> = d.defs.iter().map(|x| x.id.as_str()).collect();
    assert_eq!(ids, vec!["clip1", "lg1", "filter1", "img", "a", "b"]);
    assert_eq!(d.body.len(), 3);
    for x in &d.defs {
        assert!(is_id_used(&d, &x.id));
    }
    // A second run removes nothing.
    let again = remove_unused_defs(&mut d);
    assert_eq!(again, vec![0, 1, 2, 3, 4, 5]);
}

#[test]
fn chain_of_unused_defs() {
    // d3 -> d2 -> d1, nothing references d3: all go, over several passes.
    let mut d = LinkDoc {
        body: vec![NodeLinks::Other],
        defs: vec![
            def("d1", vec![NodeLinks::Other]),
            def("d2", vec![NodeLinks::ClipPath { clip_path: s("d1") }]),
            def("d3", vec![NodeLinks::Mask { mask: s("d2") }]),
        ],
    };
    let kept = remove_unused_defs(&mut d);
    assert!(kept.is_empty());
    assert!(d.defs.is_empty());
}

fn node(handle: usize, class: NodeClass, children: Vec<TreeNode>) -> TreeNode {
    TreeNode { handle, class, children }
}

fn plain(handle: usize, children: Vec<TreeNode>) -> TreeNode {
    node(handle, NodeClass::Group { has_filter: false }, children)
}

fn handles(n: &TreeNode, out: &mut Vec<usize>) {
    out.push(n.handle);
    for c in &n.children {
        handles(c, out);
    }
}

#[test]
fn empty_groups_are_removed() {
    let root = node(0, NodeClass::Other, vec![
        plain(1, vec![]),
        plain(2, vec![plain(3, vec![]), plain(4, vec![plain(5, vec![])])]),
        node(6, NodeClass::Group { has_filter: true }, vec![]),
        plain(7, vec![plain(8, vec![]), node(9, NodeClass::Other, vec![])]),
        node(10, NodeClass::Image, vec![]),
    ]);
    let r = remove_empty_groups(root);
    let mut hs = Vec::new();
    handles(&r, &mut hs);
    assert_eq!(hs, vec![0, 6, 7, 9, 10]);
    let r2 = remove_empty_groups(r);
    let mut hs2 = Vec::new();
    handles(&r2, &mut hs2);
    assert_eq!(hs2, hs);
}

#[test]
fn empty_root_group_stays() {
    let r = remove_empty_groups(plain(0, vec![plain(1, vec![])]));
    assert_eq!(r.handle, 0);
    assert!(r.children.is_empty());
}

#[test]
fn images_are_removed_from_nested_svg() {
    let root = node(0, NodeClass::Other, vec![
        node(1, NodeClass::Image, vec![]),
        plain(2, vec![node(3, NodeClass::Image, vec![]), node(4, NodeClass::Other, vec![])]),
        node(5, NodeClass::Image, vec![node(6, NodeClass::Other, vec![])]),
    ]);
    let r = sanitize_sub_svg(root);
    let mut hs = Vec::new();
    handles(&r, &mut hs);
    assert_eq!(hs, vec![0, 2, 4]);
}

#[test]
fn subroots_in_visiting_order() {
    let group = SubrootNode::Group {
        filter_fill: Some(1),
        filter_stroke: None,
        clip_path: Some((2, Some(3))),
        mask: Some((4, None)),
        image_uses: vec![None, Some(5), Some(6)],
    };
    assert_eq!(node_subroots(&group), vec![1, 2, 3, 4, 5, 6]);
    let path = SubrootNode::Path { fill: None, stroke: Some(7) };
    assert_eq!(node_subroots(&path), vec![7]);
    assert_eq!(node_subroots(&SubrootNode::Image), Vec::<usize>::new());
    let text = SubrootNode::Text {
        spans: vec![
            SpanPaints { fill: Some(8), stroke: None, underline: Some((None, Some(9))), overline: None, line_through: None },
            SpanPaints { fill: None, stroke: Some(10), underline: None, overline: Some((Some(11), None)), line_through: Some((Some(12), Some(13))) },
        ],
    };
    assert_eq!(node_subroots(&text), vec![8, 9, 10, 11, 12, 13]);
}

fn filter(id: &str, uses: &[Option<&str>]) -> FilterImageLinks {
    FilterImageLinks {
        filter_id: id.to_string(),
        image_uses: uses.iter().map(|u| u.map(|s| s.to_string())).collect(),
    }
}

#[test]
fn fe_image_links_to_create() {
    let filters = vec![
        filter("f1", &[Some("rect1"), None, Some("g1"), Some("g1"), Some("missing")]),
        filter("f2", &[Some("g1"), Some("path2"), Some("rect1")]),
    ];
    let tree_ids = vec!["path2".to_string(), "f1".to_string(), "f2".to_string()];
    let document_ids = vec!["rect1".to_string(), "g1".to_string(), "path2".to_string()];
    let links = fe_image_links(&filters, &tree_ids, &document_ids);
    let pairs: Vec<(&str, &str)> = links.iter().map(|(a, b)| (a.as_str(), b.as_str())).collect();
    // Only consecutive repeats of a used element are dropped.
    assert_eq!(pairs, vec![("f1", "rect1"), ("f1", "g1"), ("f2", "rect1")]);
    assert!(fe_image_links(&Vec::new(), &tree_ids, &document_ids).is_empty());
}

fn gt(handle: usize, removable: bool, children: Vec<GroupTree>) -> GroupTree {
    GroupTree { handle, removable, children }
}

fn lifted_list(n: &LiftedNode, out: &mut Vec<(usize, Vec<usize>)>) {
    out.push((n.handle, n.lifted.clone()));
    for c in &n.children {
        lifted_list(c, out);
    }
}

#[test]
fn groups_are_ungrouped() {
    // root
    //   g1 (removable)
    //     a
    //     g2 (removable)
    //       b
    //   g3 (kept)
    //     g4 (removable)
    //       c
    let root = gt(0, false, vec![
        gt(1, true, vec![gt(10, false, vec![]), gt(2, true, vec![gt(11, false, vec![])])]),
        gt(3, false, vec![gt(4, true, vec![gt(12, false, vec![])])]),
    ]);
    let r = ungroup_groups(root);
    let mut out = Vec::new();
    lifted_list(&r, &mut out);
    assert_eq!(
        out,
        vec![
            (0, vec![]),
            (10, vec![1]),
            (11, vec![1, 2]),
            (3, vec![]),
            (12, vec![4]),
        ]
    );
    assert_eq!(r.children.len(), 3);
}

#[test]
fn removable_groups() {
    let d = doc();
    assert!(group_removable(true, false, false, false, false, false, "", &d));
    assert!(group_removable(true, false, false, false, false, false, "g5", &d));
    assert!(!group_removable(true, false, false, false, false, true, "g5", &d));
    assert!(group_removable(true, false, false, false, false, true, "", &d));
    assert!(!group_removable(false, false, false, false, false, false, "", &d));
    assert!(!group_removable(true, true, false, false, false, false, "", &d));
    assert!(!group_removable(true, false, true, false, false, false, "", &d));
    assert!(!group_removable(true, false, false, true, false, false, "", &d));
    assert!(!group_removable(true, false, false, false, true, false, "", &d));
    // A group that something references stays.
    assert!(!group_removable(true, false, false, false, false, false, "img", &d));
}

#[test]
fn text_inside_text_is_removed() {
    let root = node(0, NodeClass::Other, vec![
        node(1, NodeClass::Text, vec![
            node(2, NodeClass::Other, vec![node(3, NodeClass::Text, vec![node(4, NodeClass::Other, vec![])])]),
            node(5, NodeClass::Text, vec![]),
        ]),
        plain(6, vec![node(7, NodeClass::Text, vec![node(8, NodeClass::Text, vec![])])]),
    ]);
    let r = prepare_text(root);
    let mut hs = Vec::new();
    handles(&r, &mut hs);
    assert_eq!(hs, vec![0, 1, 2, 6, 7]);
}

#[test]
fn clip_path_children() {
    for k in [
        ElementKind::Rect,
        ElementKind::Circle,
        ElementKind::Ellipse,
        ElementKind::Polyline,
        ElementKind::Polygon,
        ElementKind::Path,
        ElementKind::Text,
    ] {
        assert!(is_valid_child(k));
        assert!(keep_clip_path_child(Some(k), false, None));
    }
    assert!(!is_valid_child(ElementKind::Line));
    assert!(!is_valid_child(ElementKind::Group));
    assert!(!keep_clip_path_child(None, false, None));
    assert!(!keep_clip_path_child(Some(ElementKind::Line), false, None));
    assert!(!keep_clip_path_child(Some(ElementKind::Group), false, Some(ElementKind::Rect)));
    assert!(keep_clip_path_child(Some(ElementKind::Group), true, Some(ElementKind::Rect)));
    assert!(!keep_clip_path_child(Some(ElementKind::Group), true, Some(ElementKind::Group)));
    assert!(keep_clip_path_child(Some(ElementKind::Group), true, None));
    assert!(!keep_clip_path_child(Some(ElementKind::Other), false, None));
}

fn plain_facts() -> GroupFacts {
    GroupFacts {
        in_clip_path: false,
        opacity_is_one: true,
        clip_path: LinkOutcome::Absent,
        mask: LinkOutcome::Absent,
        filter: FilterOutcome::Absent,
        transform_is_default: true,
        has_enable_background: false,
        is_g_or_use: false,
        has_id: false,
        keep_named_groups: false,
        fe_image_link: false,
        force: false,
    }
}

#[test]
fn group_decisions() {
    let p = plain_facts();
    assert_eq!(convert_group(&p), GroupKind::Skip);
    assert_eq!(convert_group(&GroupFacts { force: true, ..p }), GroupKind::Create { keep_id: false });
    assert_eq!(
        convert_group(&GroupFacts { opacity_is_one: false, is_g_or_use: true, ..p }),
        GroupKind::Create { keep_id: true }
    );
    assert_eq!(convert_group(&GroupFacts { clip_path: LinkOutcome::Invalid, force: true, ..p }), GroupKind::Ignore);
    assert_eq!(convert_group(&GroupFacts { mask: LinkOutcome::Invalid, ..p }), GroupKind::Ignore);
    assert_eq!(convert_group(&GroupFacts { filter: FilterOutcome::Invalid, ..p }), GroupKind::Ignore);
    assert_eq!(convert_group(&GroupFacts { filter: FilterOutcome::Disabled, ..p }), GroupKind::Skip);
    assert_eq!(convert_group(&GroupFacts { filter: FilterOutcome::Resolved(0), ..p }), GroupKind::Skip);
    assert_eq!(
        convert_group(&GroupFacts { filter: FilterOutcome::Resolved(1), ..p }),
        GroupKind::Create { keep_id: false }
    );
    assert_eq!(
        convert_group(&GroupFacts { mask: LinkOutcome::Resolved, ..p }),
        GroupKind::Create { keep_id: false }
    );
    assert_eq!(convert_group(&GroupFacts { transform_is_default: false, ..p }), GroupKind::Create { keep_id: false });
    assert_eq!(convert_group(&GroupFacts { has_enable_background: true, ..p }), GroupKind::Create { keep_id: false });
    // Inside a clip path, opacity, mask and filter count for nothing.
    let clip = GroupFacts { in_clip_path: true, ..p };
    assert_eq!(
        convert_group(&GroupFacts {
            opacity_is_one: false,
            mask: LinkOutcome::Invalid,
            filter: FilterOutcome::Resolved(2),
            ..clip
        }),
        GroupKind::Skip
    );
    assert_eq!(
        convert_group(&GroupFacts { clip_path: LinkOutcome::Resolved, ..clip }),
        GroupKind::Create { keep_id: false }
    );
    // Named `g` and `use` groups are kept only when asked to.
    let named = GroupFacts { is_g_or_use: true, has_id: true, ..p };
    assert_eq!(convert_group(&named), GroupKind::Skip);
    assert_eq!(convert_group(&GroupFacts { keep_named_groups: true, ..named }), GroupKind::Create { keep_id: true });
    assert_eq!(convert_group(&GroupFacts { fe_image_link: true, ..named }), GroupKind::Create { keep_id: true });
    assert_eq!(convert_group(&GroupFacts { keep_named_groups: true, has_id: false, ..named }), GroupKind::Skip);
}

#[test]
fn element_routes_and_contents() {
    assert_eq!(element_route(Tag::Other, true), Route::Drop);
    assert_eq!(element_route(Tag::Rect, false), Route::Drop);
    assert_eq!(element_route(Tag::Use, true), Route::Use);
    assert_eq!(element_route(Tag::Switch, true), Route::Switch);
    assert_eq!(element_route(Tag::Switch, false), Route::Drop);
    assert_eq!(element_route(Tag::G, true), Route::Element);
    assert_eq!(element_route(Tag::Svg, true), Route::Element);
    assert_eq!(element_route(Tag::Text, true), Route::Element);
    assert_eq!(element_content(Tag::Line, false, false), Content::Shape);
    assert_eq!(element_content(Tag::Image, true, true), Content::Image);
    assert_eq!(element_content(Tag::Text, true, true), Content::Text);
    assert_eq!(element_content(Tag::Text, true, false), Content::Nothing);
    assert_eq!(element_content(Tag::Svg, true, false), Content::NestedSvg);
    assert_eq!(element_content(Tag::Svg, false, false), Content::Children);
    assert_eq!(element_content(Tag::G, true, false), Content::Children);
    assert_eq!(element_content(Tag::Other, true, true), Content::Nothing);

    assert_eq!(clip_child_route(Tag::G, true), Route::Drop);
    assert_eq!(clip_child_route(Tag::Svg, true), Route::Drop);
    assert_eq!(clip_child_route(Tag::Use, true), Route::Use);
    assert_eq!(clip_child_route(Tag::Use, false), Route::Drop);
    assert_eq!(clip_child_route(Tag::Image, true), Route::Element);
    assert_eq!(clip_child_route(Tag::Path, false), Route::Drop);
    assert_eq!(clip_child_content(Tag::Circle, false), Content::Shape);
    assert_eq!(clip_child_content(Tag::Line, true), Content::Nothing);
    assert_eq!(clip_child_content(Tag::Image, true), Content::Nothing);
    assert_eq!(clip_child_content(Tag::Text, true), Content::Text);
    assert_eq!(clip_child_content(Tag::Text, false), Content::Nothing);
}

#[test]
fn path_plans() {
    let (f, s, m) = (PaintOrderKind::Fill, PaintOrderKind::Stroke, PaintOrderKind::Markers);
    let vis = Visibility::Visible;
    assert_eq!(convert_path(1, true, true, vis, true, [f, s, m]), None);
    assert_eq!(
        convert_path(2, true, false, vis, true, [f, s, m]),
        Some(PathPlan {
            visibility: vis,
            paint_order: PaintOrder::FillAndStroke,
            markers: MarkersPlacement::AfterPath
        })
    );
    assert_eq!(
        convert_path(5, false, true, vis, true, [m, s, f]),
        Some(PathPlan {
            visibility: vis,
            paint_order: PaintOrder::StrokeAndFill,
            markers: MarkersPlacement::BeforePath
        })
    );
    // Neither fill nor stroke: hidden, and so no markers.
    assert_eq!(
        convert_path(5, false, false, vis, true, [f, s, m]),
        Some(PathPlan {
            visibility: Visibility::Hidden,
            paint_order: PaintOrder::FillAndStroke,
            markers: MarkersPlacement::Absent
        })
    );
    assert_eq!(
        convert_path(3, true, true, Visibility::Collapse, true, [f, s, m]).map(|p| p.markers),
        Some(MarkersPlacement::Absent)
    );
    assert_eq!(
        convert_path(3, true, true, vis, false, [f, s, m]).map(|p| p.markers),
        Some(MarkersPlacement::Absent)
    );
}

fn scan(is_text: bool, children: Vec<TextScanNode>, subroots: Vec<TextScanNode>) -> TextScanNode {
    TextScanNode { is_text, children, subroots }
}

#[test]
fn text_nodes_are_found_through_subroots() {
    let leaf = || scan(false, vec![], vec![]);
    assert!(!has_text_nodes(&leaf()));
    assert!(has_text_nodes(&scan(true, vec![], vec![])));
    let deep = scan(false, vec![leaf(), scan(false, vec![leaf(), scan(true, vec![], vec![])], vec![])], vec![]);
    assert!(has_text_nodes(&deep));
    // Text only inside a pattern that a nested path is filled with.
    let pattern = scan(false, vec![scan(true, vec![], vec![])], vec![]);
    let via_subroot = scan(false, vec![leaf(), scan(false, vec![], vec![pattern])], vec![]);
    assert!(has_text_nodes(&via_subroot));
    let none = scan(false, vec![leaf(), scan(false, vec![leaf()], vec![leaf()])], vec![leaf()]);
    assert!(!has_text_nodes(&none));
}

fn items(items: Vec<usize>, children: Vec<ItemScanNode>, subroots: Vec<ItemScanNode>) -> ItemScanNode {
    ItemScanNode { items, children, subroots }
}

#[test]
fn items_are_collected_in_walk_order() {
    assert_eq!(collect_items(&items(vec![], vec![], vec![])), Vec::<usize>::new());
    // A clip path (1) with its own clip path (2) on a group whose child has
    // a pattern (subroot) holding a group clipped by 3; then a sibling
    // clipped by 1 again.
    let pattern = items(vec![], vec![items(vec![3], vec![], vec![])], vec![]);
    let child = items(vec![], vec![], vec![pattern]);
    let sibling = items(vec![1], vec![], vec![]);
    let root = items(vec![1, 2], vec![child, sibling], vec![items(vec![4], vec![], vec![])]);
    assert_eq!(collect_items(&root), vec![1, 2, 4, 3, 1]);
}

#[test]
fn regrouping() {
    // Not a graphics element, or opaque without links: left alone.
    assert_eq!(regroup_element(false, false, true, true, true, true, true), None);
    assert_eq!(regroup_element(true, true, false, false, false, true, true), None);
    assert_eq!(
        regroup_element(true, true, true, false, true, true, true),
        Some(vec![MovedAttr::ClipPath, MovedAttr::Filter, MovedAttr::Transform])
    );
    assert_eq!(
        regroup_element(true, false, false, true, false, true, false),
        Some(vec![MovedAttr::Mask, MovedAttr::Opacity])
    );
    assert_eq!(regroup_element(true, false, false, false, false, true, true), Some(vec![MovedAttr::Opacity, MovedAttr::Transform]));
}

#[test]
fn anchors_become_tspans_inside_text() {
    assert_eq!(ungroup_a(&[false]), AnchorReplacement::G);
    assert_eq!(ungroup_a(&[true]), AnchorReplacement::G);
    assert_eq!(ungroup_a(&[false, false, true, false]), AnchorReplacement::Tspan);
    assert_eq!(ungroup_a(&[false, false, false]), AnchorReplacement::G);
    assert_eq!(ungroup_a(&[]), AnchorReplacement::G);
}
