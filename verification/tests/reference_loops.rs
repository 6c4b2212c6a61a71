use usvg_core::recursion::{fix_func_iri, fix_patterns, fix_recursive_links};

fn sample() -> (Vec<Option<usize>>, Vec<bool>, Vec<Vec<usize>>) {
    // 0: target A, with child 1 referencing B (2).
    // 2: target B, with child 3 referencing A.
    // 4: target C, with child 5 referencing C itself.
    let links = vec![None, Some(2), None, Some(0), None, Some(4)];
    let targets = vec![true, false, true, false, true, false];
    let descendants = vec![vec![0, 1], vec![1], vec![2, 3], vec![3], vec![4, 5], vec![5]];
    (links, targets, descendants)
}

#[test]
fn clip_path_loops_are_broken() {
    let (mut links, targets, descendants) = sample();
    fix_func_iri(&mut links, &targets, &descendants);
    // The reference back to A below B goes; A's own reference to B stays;
    // C's reference to itself goes.
    assert_eq!(links, vec![None, Some(2), None, None, None, None]);
}

#[test]
fn pattern_loops_are_broken() {
    let (mut links, targets, descendants) = sample();
    fix_patterns(&mut links, &targets, &descendants);
    // For patterns the paint of A's child goes, since B's content is painted
    // with A; B's child then no longer leads back to B.
    assert_eq!(links, vec![None, None, None, Some(0), None, None]);
}

#[test]
fn documents_without_loops_are_unchanged() {
    let links = vec![None, Some(2), None, None];
    let targets = vec![true, false, true, false];
    let descendants = vec![vec![0, 1], vec![1], vec![2, 3], vec![3]];
    let mut a = links.clone();
    fix_func_iri(&mut a, &targets, &descendants);
    assert_eq!(a, links);
    let mut b = links.clone();
    fix_patterns(&mut b, &targets, &descendants);
    assert_eq!(b, links);
}

#[test]
fn all_reference_loops() {
    let (links, targets, descendants) = sample();
    let none = vec![None; 6];
    let no_targets = vec![false; 6];
    let mut fill = links.clone();
    let mut stroke = none.clone();
    let mut clip = links.clone();
    let mut mask = none.clone();
    let mut filter = none.clone();
    fix_recursive_links(
        &mut fill, &mut stroke, &mut clip, &mut mask, &mut filter,
        &targets, &targets, &no_targets, &no_targets, &descendants,
    );
    assert_eq!(fill, vec![None, None, None, Some(0), None, None]);
    assert_eq!(clip, vec![None, Some(2), None, None, None, None]);
    assert_eq!(stroke, none);
    assert_eq!(mask, none);
    assert_eq!(filter, none);
}
