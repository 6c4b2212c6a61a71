use usvg_core::href::{remove_invalid_use, UseHref, UseNode};
use usvg_core::href::{check_use_link, HrefIter, UseAction};
use usvg_core::markers::{convert_overflow, convert_units, MarkerUnits, Overflow};

#[test]
fn marker_keywords() {
    assert_eq!(convert_units(None), MarkerUnits::StrokeWidth);
    assert_eq!(convert_units(Some("strokeWidth")), MarkerUnits::StrokeWidth);
    assert_eq!(convert_units(Some("userSpaceOnUse")), MarkerUnits::UserSpaceOnUse);
    assert_eq!(convert_overflow(None), Overflow::Hidden);
    assert_eq!(convert_overflow(Some("visible")), Overflow::Visible);
    assert_eq!(convert_overflow(Some("hidden")), Overflow::Hidden);
    assert_eq!(convert_overflow(Some("scroll")), Overflow::Scroll);
    assert_eq!(convert_overflow(Some("auto")), Overflow::Auto);
    assert_eq!(convert_overflow(Some("clip")), Overflow::Hidden);
}

fn walk(links: &[Option<usize>], origin: usize) -> Vec<usize> {
    let mut it = HrefIter::new(links, origin);
    let mut out = Vec::new();
    while let Some(n) = it.next() {
        out.push(n);
        assert!(out.len() <= links.len());
    }
    out
}

#[test]
fn href_chains() {
    // 0 -> 1 -> 2, 2 has no reference.
    assert_eq!(walk(&[Some(1), Some(2), None], 0), vec![0, 1, 2]);
    // A reference back to the origin stops the walk.
    assert_eq!(walk(&[Some(1), Some(2), Some(0)], 0), vec![0, 1, 2]);
    // A self-reference stops the walk.
    assert_eq!(walk(&[Some(1), Some(1)], 0), vec![0, 1]);
    assert_eq!(walk(&[Some(0)], 0), vec![0]);
    assert_eq!(walk(&[None], 0), vec![0]);
    // After a loop is found the iterator stays finished.
    let links = [Some(0)];
    let mut it = HrefIter::new(&links, 0);
    assert_eq!(it.next(), Some(0));
    assert_eq!(it.next(), None);
    assert_eq!(it.next(), None);
}

#[test]
fn use_links() {
    assert_eq!(check_use_link(1, 2, true, false, &[]), UseAction::Wait);
    assert_eq!(check_use_link(1, 2, false, true, &[]), UseAction::RemoveSvgLink);
    assert_eq!(check_use_link(1, 2, false, false, &[None, Some(5)]), UseAction::Resolve);
    // A `use` inside the linked group links back to the `use` itself.
    assert_eq!(check_use_link(1, 2, false, false, &[Some(5), Some(1)]), UseAction::RemoveRecursive);
    // A child links back to its own parent.
    assert_eq!(check_use_link(1, 2, false, false, &[Some(2)]), UseAction::RemoveRecursive);
}

fn node(parent: Option<usize>, href: UseHref) -> UseNode {
    UseNode { parent, href }
}

#[test]
fn invalid_use_elements_are_removed_round_after_round() {
    let nodes = [
        node(None, UseHref::NotUse),
        node(Some(0), UseHref::NotUse),
        node(Some(0), UseHref::Link(1)),
        node(Some(1), UseHref::Missing),
        node(Some(0), UseHref::Link(3)),
        node(Some(4), UseHref::NotUse),
        node(Some(0), UseHref::Other),
        node(Some(0), UseHref::Link(6)),
        node(Some(0), UseHref::Link(5)),
    ];
    assert_eq!(
        remove_invalid_use(&nodes),
        vec![false, false, false, true, true, true, true, true, true]
    );
    let fine = [node(None, UseHref::NotUse), node(Some(0), UseHref::Link(0)), node(Some(1), UseHref::NotUse)];
    assert_eq!(remove_invalid_use(&fine), vec![false, false, false]);
    assert_eq!(remove_invalid_use(&[]), Vec::<bool>::new());
}
