//! Breaking reference loops before conversion: a clip path, mask or filter
//! whose content references it again, directly or through the element that
//! its content references, and a pattern whose content is painted with it.
//!
//! Elements are numbered in document order. `links[k]` is the element that
//! the attribute of element `k` references, if any; `descendants[e]` lists
//! element `e` and the elements below it, in document order; `targets[e]`
//! tells whether `e` is an element of the kind being checked.

use vstd::prelude::*;

verus! {

/// The element numbers are consistent: every list has an entry per element
/// and every reference and descendant is an element.
pub open spec fn well_numbered(links: Seq<Option<usize>>, targets: Seq<bool>, descendants: Seq<Seq<usize>>) -> bool {
    &&& links.len() <= usize::MAX
    &&& targets.len() == links.len()
    &&& descendants.len() == links.len()
    &&& forall|k: int| 0 <= k < links.len() ==> match #[trigger] links[k] {
        Some(l) => l < links.len(),
        None => true,
    }
    &&& forall|e: int, i: int|
        0 <= e < descendants.len() && 0 <= i < descendants[e].len() ==> #[trigger] descendants[e][i]
            < links.len()
}

/// The lists of descendants, as sequences.
pub open spec fn descendants_view(d: Seq<Vec<usize>>) -> Seq<Seq<usize>> {
    d.map_values(|v: Vec<usize>| v@)
}

/// `after` differs from `before` only by references that were removed.
pub open spec fn only_removed(after: Seq<Option<usize>>, before: Seq<Option<usize>>) -> bool {
    &&& after.len() == before.len()
    &&& forall|k: int| 0 <= k < after.len() ==> #[trigger] after[k] == before[k] || after[k] is None
}

/// Element `c`, below `e`, does not lead back to `e`: it does not reference
/// `e`, and nothing below the element it references references `e`.
pub open spec fn no_loop_through(links: Seq<Option<usize>>, descendants: Seq<Seq<usize>>, e: usize, c: usize) -> bool {
    &&& links[c as int] != Some(e)
    &&& forall|l: usize, i: int|
        links[c as int] == Some(l) && 0 <= i < descendants[l as int].len() ==> links[#[trigger] descendants[l as int][i] as int] != Some(e)
}

/// No element below `e` leads back to `e`.
pub open spec fn no_loop(links: Seq<Option<usize>>, descendants: Seq<Seq<usize>>, e: usize) -> bool {
    forall|i: int|
        0 <= i < descendants[e as int].len() ==> no_loop_through(links, descendants, e, #[trigger] descendants[e as int][i])
}

proof fn lemma_no_loop_through_kept(
    after: Seq<Option<usize>>,
    before: Seq<Option<usize>>,
    targets: Seq<bool>,
    descendants: Seq<Seq<usize>>,
    e: usize,
    c: usize,
)
    requires
        well_numbered(before, targets, descendants),
        only_removed(after, before),
        c < before.len(),
        no_loop_through(before, descendants, e, c),
    ensures
        no_loop_through(after, descendants, e, c),
{
    assert(after[c as int] == before[c as int] || after[c as int] is None);
    assert forall|l: usize, i: int|
        after[c as int] == Some(l) && 0 <= i < descendants[l as int].len() implies after[#[trigger] descendants[l as int][i] as int] != Some(e) by {
        let k = descendants[l as int][i];
        assert(before[c as int] == Some(l));
        assert(k < before.len());
        assert(after[k as int] == before[k as int] || after[k as int] is None);
    }
}

proof fn lemma_no_loop_kept(
    after: Seq<Option<usize>>,
    before: Seq<Option<usize>>,
    targets: Seq<bool>,
    descendants: Seq<Seq<usize>>,
    e: usize,
)
    requires
        well_numbered(before, targets, descendants),
        only_removed(after, before),
        e < before.len(),
        no_loop(before, descendants, e),
    ensures
        no_loop(after, descendants, e),
{
    assert forall|i: int| 0 <= i < descendants[e as int].len() implies no_loop_through(
        after,
        descendants,
        e,
        #[trigger] descendants[e as int][i],
    ) by {
        lemma_no_loop_through_kept(after, before, targets, descendants, e, descendants[e as int][i]);
    }
}

/// `links` without the references to `e` held by the elements `ds`.
pub open spec fn cleared_back(links: Seq<Option<usize>>, ds: Seq<usize>, e: usize) -> Seq<Option<usize>> {
    Seq::new(links.len(), |k: int| if ds.contains(k as usize) && links[k] == Some(e) { None } else { links[k] })
}

/// Checks the reference of element `c` below the clip path, mask or filter
/// `e`: a reference to `e` itself is removed; otherwise the references to
/// `e` below the referenced element are removed.
pub open spec fn func_iri_child(links: Seq<Option<usize>>, descendants: Seq<Seq<usize>>, e: usize, c: usize) -> Seq<Option<usize>> {
    match links[c as int] {
        Some(l) => if l == e {
            links.update(c as int, None)
        } else {
            cleared_back(links, descendants[l as int], e)
        },
        None => links,
    }
}

/// Checks the elements `cs`, in order, below `e`.
pub open spec fn func_iri_children(
    links: Seq<Option<usize>>,
    descendants: Seq<Seq<usize>>,
    e: usize,
    cs: Seq<usize>,
) -> Seq<Option<usize>>
    decreases cs.len(),
{
    if cs.len() == 0 {
        links
    } else {
        func_iri_child(func_iri_children(links, descendants, e, cs.drop_last()), descendants, e, cs.last())
    }
}

/// Checks the first `n` elements that are targets, in document order.
pub open spec fn func_iri_elements(
    links: Seq<Option<usize>>,
    targets: Seq<bool>,
    descendants: Seq<Seq<usize>>,
    n: int,
) -> Seq<Option<usize>>
    decreases n,
{
    if n <= 0 {
        links
    } else {
        let prev = func_iri_elements(links, targets, descendants, n - 1);
        if targets[n - 1] {
            func_iri_children(prev, descendants, (n - 1) as usize, descendants[n - 1])
        } else {
            prev
        }
    }
}

proof fn lemma_func_iri_child(
    links: Seq<Option<usize>>,
    targets: Seq<bool>,
    descendants: Seq<Seq<usize>>,
    e: usize,
    c: usize,
)
    requires
        well_numbered(links, targets, descendants),
        c < links.len(),
    ensures
        only_removed(func_iri_child(links, descendants, e, c), links),
        well_numbered(func_iri_child(links, descendants, e, c), targets, descendants),
        no_loop_through(func_iri_child(links, descendants, e, c), descendants, e, c),
{
    let r = func_iri_child(links, descendants, e, c);
    assert(only_removed(r, links));
    assert forall|k: int| 0 <= k < r.len() implies match #[trigger] r[k] {
        Some(l) => l < r.len(),
        None => true,
    } by {
        assert(r[k] == links[k] || r[k] is None);
    }
    match links[c as int] {
        Some(l) => {
            if l != e {
                assert(r[c as int] == links[c as int]);
                assert forall|l2: usize, i: int|
                    r[c as int] == Some(l2) && 0 <= i < descendants[l2 as int].len() implies r[#[trigger] descendants[l2 as int][i] as int] != Some(e) by {
                    let k = descendants[l2 as int][i];
                    assert(descendants[l as int].contains(k));
                }
            }
        },
        None => {},
    }
}

proof fn lemma_func_iri_children(
    links: Seq<Option<usize>>,
    targets: Seq<bool>,
    descendants: Seq<Seq<usize>>,
    e: usize,
    cs: Seq<usize>,
)
    requires
        well_numbered(links, targets, descendants),
        forall|i: int| 0 <= i < cs.len() ==> #[trigger] cs[i] < links.len(),
    ensures
        only_removed(func_iri_children(links, descendants, e, cs), links),
        well_numbered(func_iri_children(links, descendants, e, cs), targets, descendants),
        forall|i: int|
            0 <= i < cs.len() ==> no_loop_through(func_iri_children(links, descendants, e, cs), descendants, e, #[trigger] cs[i]),
    decreases cs.len(),
{
    if cs.len() > 0 {
        let prev = func_iri_children(links, descendants, e, cs.drop_last());
        lemma_func_iri_children(links, targets, descendants, e, cs.drop_last());
        let c = cs.last();
        lemma_func_iri_child(prev, targets, descendants, e, c);
        let r = func_iri_child(prev, descendants, e, c);
        assert forall|i: int| 0 <= i < cs.len() implies no_loop_through(r, descendants, e, #[trigger] cs[i]) by {
            if i < cs.len() - 1 {
                assert(cs.drop_last()[i] == cs[i]);
                lemma_no_loop_through_kept(r, prev, targets, descendants, e, cs[i]);
            }
        }
    }
}

/// After the references of clip paths, masks or filters are checked, no
/// target leads back to itself: nothing below it references it, and
/// nothing below an element referenced from below it references it.
pub proof fn lemma_func_iri_no_loops(
    links: Seq<Option<usize>>,
    targets: Seq<bool>,
    descendants: Seq<Seq<usize>>,
    n: int,
)
    requires
        well_numbered(links, targets, descendants),
        0 <= n <= links.len(),
    ensures
        only_removed(func_iri_elements(links, targets, descendants, n), links),
        well_numbered(func_iri_elements(links, targets, descendants, n), targets, descendants),
        forall|e: int|
            0 <= e < n && #[trigger] targets[e] ==> no_loop(func_iri_elements(links, targets, descendants, n), descendants, e as usize),
    decreases n,
{
    if n > 0 {
        lemma_func_iri_no_loops(links, targets, descendants, n - 1);
        let prev = func_iri_elements(links, targets, descendants, n - 1);
        let r = func_iri_elements(links, targets, descendants, n);
        if targets[n - 1] {
            let e = (n - 1) as usize;
            let cs = descendants[n - 1];
            assert forall|i: int| 0 <= i < cs.len() implies #[trigger] cs[i] < prev.len() by {
                assert(descendants[e as int][i] < links.len());
            }
            lemma_func_iri_children(prev, targets, descendants, e, cs);
            assert(r == func_iri_children(prev, descendants, e, cs));
            assert forall|e2: int| 0 <= e2 < n && #[trigger] targets[e2] implies no_loop(r, descendants, e2 as usize) by {
                if e2 < n - 1 {
                    lemma_no_loop_kept(r, prev, targets, descendants, e2 as usize);
                } else {
                    assert(e2 as usize == e);
                    assert forall|i: int| 0 <= i < descendants[e as int].len() implies no_loop_through(
                        r,
                        descendants,
                        e,
                        #[trigger] descendants[e as int][i],
                    ) by {
                        assert(cs[i] == descendants[e as int][i]);
                    }
                }
            }
        }
    }
}

/// One of the first `j` elements of `ds` is `k`.
pub open spec fn listed_before(ds: Seq<usize>, j: int, k: int) -> bool {
    exists|w: int| 0 <= w < j && #[trigger] ds[w] as int == k
}

/// Removes the references to `e` held by the elements `ds`.
fn clear_back(links: &mut Vec<Option<usize>>, ds: &Vec<usize>, e: usize)
    requires
        forall|i: int| 0 <= i < ds@.len() ==> #[trigger] ds@[i] < old(links)@.len(),
    ensures
        final(links)@ == cleared_back(old(links)@, ds@, e),
{
    let ghost orig = links@;
    let len = links.len();
    let mut j: usize = 0;
    while j < ds.len()
        invariant
            len == orig.len(),
            j <= ds@.len(),
            forall|i: int| 0 <= i < ds@.len() ==> #[trigger] ds@[i] < orig.len(),
            links@.len() == orig.len(),
            forall|m: int|
                0 <= m < orig.len() ==> #[trigger] links@[m] == (if listed_before(ds@, j as int, m) && orig[m]
                    == Some(e) {
                    None
                } else {
                    orig[m]
                }),
        decreases ds.len() - j,
    {
        let k = ds[j];
        let ghost before = links@;
        if links[k] == Some(e) {
            links.set(k, None);
        }
        proof {
            assert forall|m: int| 0 <= m < orig.len() implies #[trigger] links@[m] == (if listed_before(
                ds@,
                j + 1,
                m,
            ) && orig[m] == Some(e) {
                None
            } else {
                orig[m]
            }) by {
                if m == k as int {
                    assert(ds@[j as int] as int == m);
                    assert(listed_before(ds@, j + 1, m));
                } else {
                    if listed_before(ds@, j + 1, m) {
                        let w = choose|w: int| 0 <= w < j + 1 && #[trigger] ds@[w] as int == m;
                        assert(w != j);
                        assert(listed_before(ds@, j as int, m));
                    }
                    if listed_before(ds@, j as int, m) {
                        let w = choose|w: int| 0 <= w < j && #[trigger] ds@[w] as int == m;
                        assert(listed_before(ds@, j + 1, m));
                    }
                }
            }
        }
        j = j + 1;
    }
    proof {
        assert forall|m: int| 0 <= m < orig.len() implies #[trigger] links@[m] == cleared_back(orig, ds@, e)[m] by {
            if listed_before(ds@, ds@.len() as int, m) {
                let w = choose|w: int| 0 <= w < ds@.len() && #[trigger] ds@[w] as int == m;
                assert(ds@[w] == m as usize);
                assert(ds@.contains(m as usize));
            }
            if ds@.contains(m as usize) {
                let w = choose|w: int| 0 <= w < ds@.len() && ds@[w] == m as usize;
                assert(ds@[w] as int == m);
                assert(listed_before(ds@, ds@.len() as int, m));
            }
        }
        assert(links@ =~= cleared_back(orig, ds@, e));
    }
}

/// Breaks the reference loops of clip paths, masks or filters (`targets`)
/// through the attribute that references them (`clip-path`, `mask` or
/// `filter`), element by element in document order.
///
/// For each element `c` below a target `e` that references an element: a
/// reference to `e` itself is removed; otherwise every reference to `e`
/// below the referenced element is removed. Afterwards no target leads back
/// to itself.
pub fn fix_func_iri(links: &mut Vec<Option<usize>>, targets: &[bool], descendants: &Vec<Vec<usize>>)
    requires
        well_numbered(old(links)@, targets@, descendants_view(descendants@)),
    ensures
        final(links)@ == func_iri_elements(
            old(links)@,
            targets@,
            descendants_view(descendants@),
            old(links)@.len() as int,
        ),
        forall|e: int|
            0 <= e < targets@.len() && #[trigger] targets@[e] ==> no_loop(
                final(links)@,
                descendants_view(descendants@),
                e as usize,
            ),
{
    let ghost orig = links@;
    let ghost dv = descendants_view(descendants@);
    let n = links.len();
    let mut e: usize = 0;
    while e < n
        invariant
            n == orig.len(),
            e <= n,
            well_numbered(orig, targets@, dv),
            dv == descendants_view(descendants@),
            links@ == func_iri_elements(orig, targets@, dv, e as int),
        decreases n - e,
    {
        proof {
            lemma_func_iri_no_loops(orig, targets@, dv, e as int);
        }
        let ghost prev = links@;
        if targets[e] {
            let ds = &descendants[e];
            assert(ds@ == dv[e as int]);
            let mut i: usize = 0;
            while i < ds.len()
                invariant
                    n == orig.len(),
                    e < n,
                    well_numbered(orig, targets@, dv),
                    well_numbered(prev, targets@, dv),
                    dv == descendants_view(descendants@),
                    ds@ == dv[e as int],
                    i <= ds@.len(),
                    links@ == func_iri_children(prev, dv, e, ds@.take(i as int)),
                decreases ds.len() - i,
            {
                proof {
                    assert forall|j: int| 0 <= j < ds@.take(i as int).len() implies #[trigger] ds@.take(i as int)[j] < prev.len() by {
                        assert(ds@.take(i as int)[j] == dv[e as int][j]);
                    }
                    lemma_func_iri_children(prev, targets@, dv, e, ds@.take(i as int));
                    assert(ds@.take(i + 1).drop_last() =~= ds@.take(i as int));
                    assert(ds@.take(i + 1).last() == ds@[i as int]);
                }
                let c = ds[i];
                assert(c < links@.len()) by {
                    assert(dv[e as int][i as int] < orig.len());
                }
                match links[c] {
                    Some(l) => {
                        if l == e {
                            links.set(c, None);
                        } else {
                            let back = &descendants[l];
                            proof {
                                assert(back@ == dv[l as int]);
                                assert forall|j: int| 0 <= j < back@.len() implies #[trigger] back@[j] < links@.len() by {
                                    assert(dv[l as int][j] < orig.len());
                                }
                            }
                            clear_back(links, back, e);
                        }
                    },
                    None => {},
                }
                i = i + 1;
            }
            proof {
                assert(ds@.take(ds@.len() as int) =~= ds@);
            }
        }
        e = e + 1;
    }
    proof {
        lemma_func_iri_no_loops(orig, targets@, dv, n as int);
    }
}

/// Some element of `ds` references `e`.
pub open spec fn refers_back(links: Seq<Option<usize>>, ds: Seq<usize>, e: usize) -> bool {
    exists|i: int| 0 <= i < ds.len() && links[#[trigger] ds[i] as int] == Some(e)
}

/// Checks the paint of element `c` below the pattern `p`: a paint with `p`
/// itself, or with a pattern whose content is painted with `p`, is cleared.
pub open spec fn pattern_child(links: Seq<Option<usize>>, descendants: Seq<Seq<usize>>, p: usize, c: usize) -> Seq<Option<usize>> {
    match links[c as int] {
        Some(l) => if l == p || refers_back(links, descendants[l as int], p) {
            links.update(c as int, None)
        } else {
            links
        },
        None => links,
    }
}

/// Checks the elements `cs`, in order, below the pattern `p`.
pub open spec fn pattern_children(
    links: Seq<Option<usize>>,
    descendants: Seq<Seq<usize>>,
    p: usize,
    cs: Seq<usize>,
) -> Seq<Option<usize>>
    decreases cs.len(),
{
    if cs.len() == 0 {
        links
    } else {
        pattern_child(pattern_children(links, descendants, p, cs.drop_last()), descendants, p, cs.last())
    }
}

/// Checks the first `n` elements that are patterns, in document order.
pub open spec fn pattern_elements(
    links: Seq<Option<usize>>,
    targets: Seq<bool>,
    descendants: Seq<Seq<usize>>,
    n: int,
) -> Seq<Option<usize>>
    decreases n,
{
    if n <= 0 {
        links
    } else {
        let prev = pattern_elements(links, targets, descendants, n - 1);
        if targets[n - 1] {
            pattern_children(prev, descendants, (n - 1) as usize, descendants[n - 1])
        } else {
            prev
        }
    }
}

proof fn lemma_pattern_child(
    links: Seq<Option<usize>>,
    targets: Seq<bool>,
    descendants: Seq<Seq<usize>>,
    p: usize,
    c: usize,
)
    requires
        well_numbered(links, targets, descendants),
        c < links.len(),
    ensures
        only_removed(pattern_child(links, descendants, p, c), links),
        well_numbered(pattern_child(links, descendants, p, c), targets, descendants),
        no_loop_through(pattern_child(links, descendants, p, c), descendants, p, c),
{
    let r = pattern_child(links, descendants, p, c);
    assert(only_removed(r, links));
    assert forall|k: int| 0 <= k < r.len() implies match #[trigger] r[k] {
        Some(l) => l < r.len(),
        None => true,
    } by {
        assert(r[k] == links[k] || r[k] is None);
    }
    match links[c as int] {
        Some(l) => {
            if !(l == p || refers_back(links, descendants[l as int], p)) {
                assert forall|l2: usize, i: int|
                    r[c as int] == Some(l2) && 0 <= i < descendants[l2 as int].len() implies r[#[trigger] descendants[l2 as int][i] as int] != Some(p) by {
                    assert(l2 == l);
                }
            }
        },
        None => {},
    }
}

proof fn lemma_pattern_children(
    links: Seq<Option<usize>>,
    targets: Seq<bool>,
    descendants: Seq<Seq<usize>>,
    p: usize,
    cs: Seq<usize>,
)
    requires
        well_numbered(links, targets, descendants),
        forall|i: int| 0 <= i < cs.len() ==> #[trigger] cs[i] < links.len(),
    ensures
        only_removed(pattern_children(links, descendants, p, cs), links),
        well_numbered(pattern_children(links, descendants, p, cs), targets, descendants),
        forall|i: int|
            0 <= i < cs.len() ==> no_loop_through(pattern_children(links, descendants, p, cs), descendants, p, #[trigger] cs[i]),
    decreases cs.len(),
{
    if cs.len() > 0 {
        let prev = pattern_children(links, descendants, p, cs.drop_last());
        lemma_pattern_children(links, targets, descendants, p, cs.drop_last());
        let c = cs.last();
        lemma_pattern_child(prev, targets, descendants, p, c);
        let r = pattern_child(prev, descendants, p, c);
        assert forall|i: int| 0 <= i < cs.len() implies no_loop_through(r, descendants, p, #[trigger] cs[i]) by {
            if i < cs.len() - 1 {
                assert(cs.drop_last()[i] == cs[i]);
                lemma_no_loop_through_kept(r, prev, targets, descendants, p, cs[i]);
            }
        }
    }
}

/// After the paints below patterns are checked, no pattern leads back to
/// itself: nothing below it is painted with it, and nothing below a
/// pattern that paints its content is painted with it.
pub proof fn lemma_pattern_no_loops(
    links: Seq<Option<usize>>,
    targets: Seq<bool>,
    descendants: Seq<Seq<usize>>,
    n: int,
)
    requires
        well_numbered(links, targets, descendants),
        0 <= n <= links.len(),
    ensures
        only_removed(pattern_elements(links, targets, descendants, n), links),
        well_numbered(pattern_elements(links, targets, descendants, n), targets, descendants),
        forall|e: int|
            0 <= e < n && #[trigger] targets[e] ==> no_loop(pattern_elements(links, targets, descendants, n), descendants, e as usize),
    decreases n,
{
    if n > 0 {
        lemma_pattern_no_loops(links, targets, descendants, n - 1);
        let prev = pattern_elements(links, targets, descendants, n - 1);
        let r = pattern_elements(links, targets, descendants, n);
        if targets[n - 1] {
            let e = (n - 1) as usize;
            let cs = descendants[n - 1];
            assert forall|i: int| 0 <= i < cs.len() implies #[trigger] cs[i] < prev.len() by {
                assert(descendants[e as int][i] < links.len());
            }
            lemma_pattern_children(prev, targets, descendants, e, cs);
            assert(r == pattern_children(prev, descendants, e, cs));
            assert forall|e2: int| 0 <= e2 < n && #[trigger] targets[e2] implies no_loop(r, descendants, e2 as usize) by {
                if e2 < n - 1 {
                    lemma_no_loop_kept(r, prev, targets, descendants, e2 as usize);
                } else {
                    assert(e2 as usize == e);
                    assert forall|i: int| 0 <= i < descendants[e as int].len() implies no_loop_through(
                        r,
                        descendants,
                        e,
                        #[trigger] descendants[e as int][i],
                    ) by {
                        assert(cs[i] == descendants[e as int][i]);
                    }
                }
            }
        }
    }
}

/// Whether one of the elements `ds` references `e`.
fn has_back_reference(links: &Vec<Option<usize>>, ds: &Vec<usize>, e: usize) -> (r: bool)
    requires
        forall|i: int| 0 <= i < ds@.len() ==> #[trigger] ds@[i] < links@.len(),
    ensures
        r == refers_back(links@, ds@, e),
{
    let mut j: usize = 0;
    while j < ds.len()
        invariant
            j <= ds@.len(),
            forall|i: int| 0 <= i < ds@.len() ==> #[trigger] ds@[i] < links@.len(),
            forall|i: int| 0 <= i < j ==> links@[#[trigger] ds@[i] as int] != Some(e),
        decreases ds.len() - j,
    {
        if links[ds[j]] == Some(e) {
            assert(links@[ds@[j as int] as int] == Some(e));
            return true;
        }
        j = j + 1;
    }
    false
}

/// Breaks the reference loops of patterns (`targets`) through one paint
/// attribute (`fill` or `stroke`), pattern by pattern in document order.
///
/// For each element `c` below a pattern `p` painted with a pattern: the
/// paint is cleared (it becomes `none`) when it is `p` itself, or when an
/// element below the paint's pattern is painted with `p`. Afterwards no
/// pattern leads back to itself.
pub fn fix_patterns(links: &mut Vec<Option<usize>>, targets: &[bool], descendants: &Vec<Vec<usize>>)
    requires
        well_numbered(old(links)@, targets@, descendants_view(descendants@)),
    ensures
        final(links)@ == pattern_elements(
            old(links)@,
            targets@,
            descendants_view(descendants@),
            old(links)@.len() as int,
        ),
        forall|e: int|
            0 <= e < targets@.len() && #[trigger] targets@[e] ==> no_loop(
                final(links)@,
                descendants_view(descendants@),
                e as usize,
            ),
{
    let ghost orig = links@;
    let ghost dv = descendants_view(descendants@);
    let n = links.len();
    let mut e: usize = 0;
    while e < n
        invariant
            n == orig.len(),
            e <= n,
            well_numbered(orig, targets@, dv),
            dv == descendants_view(descendants@),
            links@ == pattern_elements(orig, targets@, dv, e as int),
        decreases n - e,
    {
        proof {
            lemma_pattern_no_loops(orig, targets@, dv, e as int);
        }
        let ghost prev = links@;
        if targets[e] {
            let ds = &descendants[e];
            assert(ds@ == dv[e as int]);
            let mut i: usize = 0;
            while i < ds.len()
                invariant
                    n == orig.len(),
                    e < n,
                    well_numbered(orig, targets@, dv),
                    well_numbered(prev, targets@, dv),
                    dv == descendants_view(descendants@),
                    ds@ == dv[e as int],
                    i <= ds@.len(),
                    links@ == pattern_children(prev, dv, e, ds@.take(i as int)),
                decreases ds.len() - i,
            {
                proof {
                    assert forall|j: int| 0 <= j < ds@.take(i as int).len() implies #[trigger] ds@.take(i as int)[j] < prev.len() by {
                        assert(ds@.take(i as int)[j] == dv[e as int][j]);
                    }
                    lemma_pattern_children(prev, targets@, dv, e, ds@.take(i as int));
                    assert(ds@.take(i + 1).drop_last() =~= ds@.take(i as int));
                    assert(ds@.take(i + 1).last() == ds@[i as int]);
                }
                let c = ds[i];
                assert(c < links@.len()) by {
                    assert(dv[e as int][i as int] < orig.len());
                }
                match links[c] {
                    Some(l) => {
                        let back = &descendants[l];
                        proof {
                            assert(back@ == dv[l as int]);
                            assert forall|j: int| 0 <= j < back@.len() implies #[trigger] back@[j] < links@.len() by {
                                assert(dv[l as int][j] < orig.len());
                            }
                        }
                        if l == e || has_back_reference(links, back, e) {
                            links.set(c, None);
                        }
                    },
                    None => {},
                }
                i = i + 1;
            }
            proof {
                assert(ds@.take(ds@.len() as int) =~= ds@);
            }
        }
        e = e + 1;
    }
    proof {
        lemma_pattern_no_loops(orig, targets@, dv, n as int);
    }
}

/// Breaks every reference loop of a document before conversion: through
/// the `fill` and `stroke` paints of patterns, and through the `clip-path`,
/// `mask` and `filter` attributes of clip paths, masks and filters.
///
/// Each attribute has its own references (`fill`, `stroke`, `clip_path`,
/// `mask`, `filter`); `patterns`, `clip_paths`, `masks` and `filters` tell
/// which elements are of each kind.
pub fn fix_recursive_links(
    fill: &mut Vec<Option<usize>>,
    stroke: &mut Vec<Option<usize>>,
    clip_path: &mut Vec<Option<usize>>,
    mask: &mut Vec<Option<usize>>,
    filter: &mut Vec<Option<usize>>,
    patterns: &[bool],
    clip_paths: &[bool],
    masks: &[bool],
    filters: &[bool],
    descendants: &Vec<Vec<usize>>,
)
    requires
        well_numbered(old(fill)@, patterns@, descendants_view(descendants@)),
        well_numbered(old(stroke)@, patterns@, descendants_view(descendants@)),
        well_numbered(old(clip_path)@, clip_paths@, descendants_view(descendants@)),
        well_numbered(old(mask)@, masks@, descendants_view(descendants@)),
        well_numbered(old(filter)@, filters@, descendants_view(descendants@)),
    ensures
        final(fill)@ == pattern_elements(old(fill)@, patterns@, descendants_view(descendants@), old(fill)@.len() as int),
        final(stroke)@ == pattern_elements(old(stroke)@, patterns@, descendants_view(descendants@), old(stroke)@.len() as int),
        final(clip_path)@ == func_iri_elements(old(clip_path)@, clip_paths@, descendants_view(descendants@), old(clip_path)@.len() as int),
        final(mask)@ == func_iri_elements(old(mask)@, masks@, descendants_view(descendants@), old(mask)@.len() as int),
        final(filter)@ == func_iri_elements(old(filter)@, filters@, descendants_view(descendants@), old(filter)@.len() as int),
{
    fix_patterns(fill, patterns, descendants);
    fix_patterns(stroke, patterns, descendants);
    fix_func_iri(clip_path, clip_paths, descendants);
    fix_func_iri(mask, masks, descendants);
    fix_func_iri(filter, filters, descendants);
}

} // verus!
