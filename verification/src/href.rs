//! Walking the `xlink:href` chain of an element.

use vstd::prelude::*;

verus! {

/// An iterator over an element and the elements its `xlink:href` chain
/// references, in order.
///
/// Elements are numbered; `links[i]` is the element that element `i`
/// references, if any. The walk stops at a reference to the current element
/// or back to the first one.
pub struct HrefIter<'a> {
    links: &'a [Option<usize>],
    origin: usize,
    curr: usize,
    is_first: bool,
    is_finished: bool,
}

impl<'a> HrefIter<'a> {
    #[verifier::type_invariant]
    spec fn well_formed(self) -> bool {
        &&& self.origin < self.links@.len()
        &&& self.curr < self.links@.len()
        &&& self.is_first ==> self.curr == self.origin && !self.is_finished
        &&& forall|i: int| 0 <= i < self.links@.len() ==> match #[trigger] self.links@[i] {
            Some(t) => t < self.links@.len(),
            None => true,
        }
    }

    /// The references of the elements.
    pub closed spec fn links(self) -> Seq<Option<usize>> {
        self.links@
    }

    /// The element the walk started from.
    pub closed spec fn origin(self) -> usize {
        self.origin
    }

    /// The element last handed out.
    pub closed spec fn current(self) -> usize {
        self.curr
    }

    /// Whether the first element is still to be handed out.
    pub closed spec fn at_start(self) -> bool {
        self.is_first
    }

    /// Whether the walk stopped at a reference loop.
    pub closed spec fn finished(self) -> bool {
        self.is_finished
    }

    /// Starts a walk at `origin`.
    pub fn new(links: &'a [Option<usize>], origin: usize) -> (r: Self)
        requires
            origin < links@.len(),
            forall|i: int| 0 <= i < links@.len() ==> match #[trigger] links@[i] {
                Some(t) => t < links@.len(),
                None => true,
            },
        ensures
            r.links() == links@,
            r.origin() == origin,
            r.current() == origin,
            r.at_start(),
            !r.finished(),
    {
        HrefIter { links, origin, curr: origin, is_first: true, is_finished: false }
    }

    /// Returns the next element of the chain: first the origin, then the
    /// element that the current one references. A reference to the current
    /// element or to the origin ends the walk for good; an element without
    /// a reference ends this call.
    pub fn next(&mut self) -> (r: Option<usize>)
        ensures
            final(self).links() == old(self).links(),
            final(self).origin() == old(self).origin(),
            !final(self).at_start(),
            old(self).finished() ==> r is None && *final(self) == *old(self),
            !old(self).finished() && old(self).at_start() ==> r == Some(old(self).origin())
                && final(self).current() == old(self).current() && !final(self).finished(),
            !old(self).finished() && !old(self).at_start() ==> match old(self).links()[old(self).current() as int] {
                Some(link) => if link == old(self).current() || link == old(self).origin() {
                    r is None && final(self).finished()
                } else {
                    r == Some(link) && final(self).current() == link && !final(self).finished()
                },
                None => r is None && final(self).current() == old(self).current() && !final(self).finished(),
            },
    {
        proof {
            use_type_invariant(&*self);
        }
        if self.is_finished {
            return None;
        }
        if self.is_first {
            self.is_first = false;
            return Some(self.curr);
        }
        match self.links[self.curr] {
            Some(link) => {
                if link == self.curr || link == self.origin {
                    self.is_finished = true;
                    None
                } else {
                    self.curr = link;
                    Some(link)
                }
            },
            None => None,
        }
    }
}

/// What to do with a `use` element that links to an element.
#[derive(Clone, Copy, PartialEq, Eq, Debug, Structural)]
pub enum UseAction {
    /// The link goes to another `use`: wait until that one is resolved.
    Wait,
    /// The link goes to an `svg` element, which is not supported: remove the
    /// `use`.
    RemoveSvgLink,
    /// A `use` inside the linked element links back to this `use` or to the
    /// linked element: remove the `use`.
    RemoveRecursive,
    /// Replace the `use` by a copy of the linked element.
    Resolve,
}

/// A `use` inside `link`'s subtree links back to `use_node` or to `link`.
pub open spec fn links_back(use_node: usize, link: usize, inner_links: Seq<Option<usize>>) -> bool {
    exists|k: int|
        0 <= k < inner_links.len() && (#[trigger] inner_links[k] == Some(use_node) || inner_links[k] == Some(link))
}

/// Decides how to resolve the `use` element `use_node` that links to `link`.
///
/// `link_is_use` and `link_is_svg` tell what the linked element is;
/// `inner_links` are the targets of the `use` elements below `link` (an
/// element without a link target gives `None`).
pub fn check_use_link(
    use_node: usize,
    link: usize,
    link_is_use: bool,
    link_is_svg: bool,
    inner_links: &[Option<usize>],
) -> (r: UseAction)
    ensures
        r == (if link_is_use {
            UseAction::Wait
        } else if link_is_svg {
            UseAction::RemoveSvgLink
        } else if links_back(use_node, link, inner_links@) {
            UseAction::RemoveRecursive
        } else {
            UseAction::Resolve
        }),
{
    if link_is_use {
        return UseAction::Wait;
    }
    if link_is_svg {
        return UseAction::RemoveSvgLink;
    }
    let mut k: usize = 0;
    while k < inner_links.len()
        invariant
            !link_is_use && !link_is_svg,
            k <= inner_links@.len(),
            forall|j: int|
                0 <= j < k ==> !(#[trigger] inner_links@[j] == Some(use_node) || inner_links@[j] == Some(link)),
        decreases inner_links.len() - k,
    {
        if let Some(target) = inner_links[k] {
            if target == use_node || target == link {
                assert(inner_links@[k as int] == Some(use_node) || inner_links@[k as int] == Some(link));
                return UseAction::RemoveRecursive;
            }
        }
        k = k + 1;
    }
    UseAction::Resolve
}

/// An element of an `xlink:href` chain, seen from the element the chain
/// starts at (the first element of the chain): whether it is of the kind the
/// chain must keep to (a filter for a filter, a gradient for a gradient, a
/// pattern for a pattern), and whether it has the children the search looks
/// for (primitives, gradient stops, pattern content).
#[derive(Clone, Copy, PartialEq, Eq, Debug, Structural)]
pub struct HrefLink {
    pub kind_matches: bool,
    pub has_children: bool,
}

/// `r` is the outcome of searching `chain` for its first element with
/// children: `Some(i)` when element `i` has children and every element up to
/// it is of the right kind, none before it having children; `None` when every
/// element with children comes after (or is) one of another kind.
pub open spec fn is_first_with_children(chain: Seq<HrefLink>, r: Option<usize>) -> bool {
    match r {
        Some(i) => i < chain.len() && chain[i as int].has_children && forall|j: int|
            0 <= j <= i ==> (#[trigger] chain[j]).kind_matches && (j < i ==> !chain[j].has_children),
        None => forall|i: int|
            0 <= i < chain.len() && (#[trigger] chain[i]).has_children ==> exists|j: int|
                0 <= j <= i && !(#[trigger] chain[j]).kind_matches,
    }
}

/// Walks an `xlink:href` chain and stops at the first element with children,
/// or with `None` at the first element of another kind.
pub fn find_link_with_children(chain: &[HrefLink]) -> (r: Option<usize>)
    ensures
        is_first_with_children(chain@, r),
{
    let mut i: usize = 0;
    while i < chain.len()
        invariant
            i <= chain@.len(),
            forall|j: int| 0 <= j < i ==> (#[trigger] chain@[j]).kind_matches && !chain@[j].has_children,
        decreases chain.len() - i,
    {
        if !chain[i].kind_matches {
            proof {
                assert forall|k: int| 0 <= k < chain@.len() && (#[trigger] chain@[k]).has_children implies exists|j: int|
                    0 <= j <= k && !(#[trigger] chain@[j]).kind_matches by {
                    assert(k >= i);
                    assert(!chain@[i as int].kind_matches);
                }
            }
            return None;
        }
        if chain[i].has_children {
            return Some(i);
        }
        i = i + 1;
    }
    None
}

/// The `xlink:href` of a node, as far as removing invalid `use` elements
/// goes.
#[derive(Clone, Copy, PartialEq, Eq, Debug, Structural)]
pub enum UseHref {
    /// The node is not a `use` element.
    NotUse,
    /// A `use` without `xlink:href`.
    Missing,
    /// A `use` linked to the node with this index.
    Link(usize),
    /// A `use` whose `xlink:href` is not a link inside the document (a path
    /// to another file, which is not supported).
    Other,
}

/// A node of the document: its parent, if any, and its `xlink:href`.
#[derive(Clone, Copy, PartialEq, Eq, Debug, Structural)]
pub struct UseNode {
    pub parent: Option<usize>,
    pub href: UseHref,
}

/// Every parent and link of `nodes` is a node of `nodes`.
pub open spec fn nodes_well_linked(nodes: Seq<UseNode>) -> bool {
    forall|i: int|
        0 <= i < nodes.len() ==> (match (#[trigger] nodes[i]).parent {
            Some(p) => p < nodes.len(),
            None => true,
        }) && (match nodes[i].href {
            UseHref::Link(t) => t < nodes.len(),
            _ => true,
        })
}

/// Node `i` must go once the nodes marked in `removed` are gone: a `use`
/// without a valid link, a `use` linked to a removed node (whose link is
/// gone with it), or a node inside a removed one.
pub open spec fn must_go(nodes: Seq<UseNode>, removed: Seq<bool>, i: int) -> bool {
    ||| nodes[i].href == UseHref::Missing
    ||| nodes[i].href == UseHref::Other
    ||| (nodes[i].href matches UseHref::Link(t) && removed[t as int])
    ||| (nodes[i].parent matches Some(p) && removed[p as int])
}

/// The nodes marked in `s` include every node that must go once they are
/// gone.
pub open spec fn removal_closed(nodes: Seq<UseNode>, s: Seq<bool>) -> bool {
    &&& s.len() == nodes.len()
    &&& forall|i: int| 0 <= i < nodes.len() && #[trigger] must_go(nodes, s, i) ==> s[i]
}

/// The number of marked entries of `s`.
pub open spec fn count_marked(s: Seq<bool>) -> nat
    decreases s.len(),
{
    if s.len() == 0 {
        0
    } else {
        count_marked(s.drop_last()) + if s.last() {
            1nat
        } else {
            0nat
        }
    }
}

proof fn lemma_count_marked_bound(s: Seq<bool>)
    ensures
        count_marked(s) <= s.len(),
    decreases s.len(),
{
    if s.len() > 0 {
        lemma_count_marked_bound(s.drop_last());
    }
}

proof fn lemma_count_marked_set(s: Seq<bool>, i: int)
    requires
        0 <= i < s.len(),
        !s[i],
    ensures
        count_marked(s.update(i, true)) == count_marked(s) + 1,
    decreases s.len(),
{
    let t = s.update(i, true);
    if i == s.len() - 1 {
        assert(t.drop_last() =~= s.drop_last());
    } else {
        assert(t.drop_last() =~= s.drop_last().update(i, true));
        lemma_count_marked_set(s.drop_last(), i);
    }
}

fn node_must_go(nodes: &[UseNode], removed: &Vec<bool>, i: usize) -> (r: bool)
    requires
        i < nodes@.len(),
        removed@.len() == nodes@.len(),
        nodes_well_linked(nodes@),
    ensures
        r == must_go(nodes@, removed@, i as int),
{
    let n = nodes[i];
    assert(nodes@[i as int] == n);
    let by_href = match n.href {
        UseHref::Missing | UseHref::Other => true,
        UseHref::Link(t) => removed[t],
        UseHref::NotUse => false,
    };
    let by_parent = match n.parent {
        Some(p) => removed[p],
        None => false,
    };
    by_href || by_parent
}

/// Finds the nodes that removing invalid `use` elements takes away: the
/// `use` elements without a valid link, with the nodes inside them, and,
/// round after round, the `use` elements whose link went with a removed
/// node. The result marks the fewest nodes closed under these rules: every
/// marked node must go, and nothing else.
pub fn remove_invalid_use(nodes: &[UseNode]) -> (r: Vec<bool>)
    requires
        nodes_well_linked(nodes@),
    ensures
        removal_closed(nodes@, r@),
        forall|s: Seq<bool>| #[trigger] removal_closed(nodes@, s) ==> forall|i: int|
            0 <= i < r@.len() && r@[i] ==> s[i],
{
    let n = nodes.len();
    let mut removed: Vec<bool> = Vec::new();
    let mut j: usize = 0;
    while j < n
        invariant
            j <= n,
            n == nodes@.len(),
            removed@ == Seq::new(j as nat, |k: int| false),
        decreases n - j,
    {
        removed.push(false);
        j = j + 1;
        proof {
            assert(removed@ =~= Seq::new(j as nat, |k: int| false));
        }
    }
    let ghost mut count: nat = 0;
    proof {
        assert(count_marked(removed@) == 0) by {
            lemma_count_none(removed@);
        }
    }
    loop
        invariant
            n == nodes@.len(),
            removed@.len() == n,
            nodes_well_linked(nodes@),
            count == count_marked(removed@),
            forall|s: Seq<bool>| #[trigger] removal_closed(nodes@, s) ==> forall|i: int|
                0 <= i < n && removed@[i] ==> s[i],
        ensures
            removed@.len() == n,
            removal_closed(nodes@, removed@),
            forall|s: Seq<bool>| #[trigger] removal_closed(nodes@, s) ==> forall|i: int|
                0 <= i < n && removed@[i] ==> s[i],
        decreases n - count,
    {
        proof {
            lemma_count_marked_bound(removed@);
        }
        let ghost start = count;
        let mut changed = false;
        let mut i: usize = 0;
        while i < n
            invariant
                n == nodes@.len(),
                removed@.len() == n,
                i <= n,
                nodes_well_linked(nodes@),
                count == count_marked(removed@),
                changed ==> count > start,
                !changed ==> count == start,
                !changed ==> forall|k: int| 0 <= k < i && #[trigger] must_go(nodes@, removed@, k) ==> removed@[k],
                forall|s: Seq<bool>| #[trigger] removal_closed(nodes@, s) ==> forall|k: int|
                    0 <= k < n && removed@[k] ==> s[k],
            decreases n - i,
        {
            if !removed[i] && node_must_go(nodes, &removed, i) {
                let ghost before = removed@;
                proof {
                    lemma_count_marked_set(before, i as int);
                    assert forall|s: Seq<bool>| #[trigger] removal_closed(nodes@, s) implies forall|k: int|
                        0 <= k < n && before.update(i as int, true)[k] ==> s[k] by {
                        assert(forall|k: int| 0 <= k < n && before[k] ==> s[k]);
                        assert(must_go(nodes@, s, i as int));
                    }
                }
                removed.set(i, true);
                proof {
                    count = count + 1;
                }
                changed = true;
            }
            i = i + 1;
        }
        proof {
            lemma_count_marked_bound(removed@);
        }
        if !changed {
            break;
        }
    }
    removed
}

proof fn lemma_count_none(s: Seq<bool>)
    requires
        forall|k: int| 0 <= k < s.len() ==> !s[k],
    ensures
        count_marked(s) == 0,
    decreases s.len(),
{
    if s.len() > 0 {
        lemma_count_none(s.drop_last());
    }
}

} // verus!
