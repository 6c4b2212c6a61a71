//! Removal of nodes that do not affect rendering from a converted tree.
//!
//! A node is modelled by what these passes read: whether it is a group (and
//! whether that group has filters), an image, or something else, and its
//! children. Each node carries a `handle` by which the caller finds the
//! node again in its own tree.

use vstd::prelude::*;
use crate::links::{doc_uses, is_id_used, LinkDoc};

verus! {

/// The kind of a node, as far as the cleanup passes care.
#[derive(Clone, Copy, PartialEq, Eq, Debug, Structural)]
pub enum NodeClass {
    /// A group, with or without filters.
    Group { has_filter: bool },
    /// A raster or nested SVG image.
    Image,
    /// A `text` element.
    Text,
    /// Any other node.
    Other,
}

/// A node of a converted tree with its children.
#[derive(Debug)]
pub struct TreeNode {
    pub handle: usize,
    pub class: NodeClass,
    pub children: Vec<TreeNode>,
}

/// The mathematical value of a [`TreeNode`].
pub struct SpecNode {
    pub handle: usize,
    pub class: NodeClass,
    pub children: Seq<SpecNode>,
}

/// The views of a sequence of nodes.
pub open spec fn view_nodes(s: Seq<TreeNode>) -> Seq<SpecNode>
    decreases s,
{
    if s.len() == 0 {
        Seq::empty()
    } else {
        view_nodes(s.drop_last()).push(view_node(s.last()))
    }
}

/// The view of a node.
pub open spec fn view_node(n: TreeNode) -> SpecNode
    decreases n,
{
    SpecNode { handle: n.handle, class: n.class, children: view_nodes(n.children@) }
}

impl View for TreeNode {
    type V = SpecNode;

    open spec fn view(&self) -> SpecNode {
        view_node(*self)
    }
}

/// A group without filters: it has no effect of its own.
pub open spec fn is_plain_group(c: NodeClass) -> bool {
    c == (NodeClass::Group { has_filter: false })
}

/// The nodes kept from `s`, each with its own empty groups removed.
pub open spec fn without_empty_groups_seq(s: Seq<SpecNode>) -> Seq<SpecNode>
    decreases s,
{
    if s.len() == 0 {
        Seq::empty()
    } else {
        let rest = without_empty_groups_seq(s.drop_last());
        let last = without_empty_groups(s.last());
        if is_plain_group(last.class) && last.children.len() == 0 {
            rest
        } else {
            rest.push(last)
        }
    }
}

/// `n` with every plain group that is empty, or becomes empty once the
/// empty groups below it are gone, removed from below it.
pub open spec fn without_empty_groups(n: SpecNode) -> SpecNode
    decreases n,
{
    SpecNode { handle: n.handle, class: n.class, children: without_empty_groups_seq(n.children) }
}

/// Removes, from below `root`, every group without filters that has no
/// children or whose children are all removed in turn.
///
/// Groups with filters stay even when empty, since a filter can draw on an
/// empty group. The root itself always stays.
pub fn remove_empty_groups(root: TreeNode) -> (r: TreeNode)
    ensures
        r@ == without_empty_groups(root@),
    decreases root,
{
    let TreeNode { handle, class, mut children } = root;
    let ghost cs = children@;
    let mut kept: Vec<TreeNode> = Vec::new();
    let mut i: usize = 0;
    assert(cs.len() == children.len());
    while children.len() > 0
        invariant
            i <= cs.len(),
            cs.len() <= usize::MAX,
            children@ == cs.subrange(i as int, cs.len() as int),
            view_nodes(kept@) == without_empty_groups_seq(view_nodes(cs.take(i as int))),
            forall|j: int| 0 <= j < cs.len() ==> decreases_to!(root => #[trigger] cs[j]),
        decreases children.len(),
    {
        let child = children.remove(0);
        assert(child == cs[i as int]);
        let pruned = remove_empty_groups(child);
        let ghost prev = view_nodes(cs.take(i as int));
        let ghost next = view_nodes(cs.take(i + 1));
        proof {
            assert(cs.take(i + 1).drop_last() =~= cs.take(i as int));
            assert(cs.take(i + 1).last() == cs[i as int]);
            assert(next == prev.push(view_node(cs[i as int])));
            assert(next.drop_last() =~= prev);
            assert(next.last() == view_node(cs[i as int]));
            assert(view_node(pruned) == without_empty_groups(view_node(cs[i as int])));
        }
        if !(pruned.class == (NodeClass::Group { has_filter: false }) && pruned.children.len() == 0) {
            let ghost before = kept@;
            kept.push(pruned);
            proof {
                assert(kept@.drop_last() =~= before);
                assert(kept@.last() == pruned);
            }
        }
        i += 1;
        proof {
            assert(children@ =~= cs.subrange(i as int, cs.len() as int));
        }
    }
    proof {
        assert(cs.take(cs.len() as int) =~= cs);
    }
    TreeNode { handle, class, children: kept }
}

/// `n` is a plain group without children.
pub open spec fn is_empty_group(n: SpecNode) -> bool {
    is_plain_group(n.class) && n.children.len() == 0
}

/// No node below `n` is a plain group without children.
pub open spec fn has_no_empty_groups(n: SpecNode) -> bool
    decreases n,
{
    forall|i: int|
        0 <= i < n.children.len() ==> !is_empty_group(#[trigger] n.children[i]) && has_no_empty_groups(
            n.children[i],
        )
}

/// After [`remove_empty_groups`], no plain group without children is left
/// below the root.
pub proof fn lemma_no_empty_groups_remain(n: SpecNode)
    ensures
        has_no_empty_groups(without_empty_groups(n)),
    decreases n,
{
    lemma_no_empty_groups_remain_seq(n.children);
    let w = without_empty_groups(n);
    assert(w.children == without_empty_groups_seq(n.children));
    assert forall|i: int| 0 <= i < w.children.len() implies !is_empty_group(#[trigger] w.children[i])
        && has_no_empty_groups(w.children[i]) by {
        assert(w.children[i] == without_empty_groups_seq(n.children)[i]);
    }
}

proof fn lemma_no_empty_groups_remain_seq(s: Seq<SpecNode>)
    ensures
        forall|k: int|
            0 <= k < without_empty_groups_seq(s).len() ==> !is_empty_group(
                #[trigger] without_empty_groups_seq(s)[k],
            ) && has_no_empty_groups(without_empty_groups_seq(s)[k]),
    decreases s,
{
    if s.len() > 0 {
        lemma_no_empty_groups_remain_seq(s.drop_last());
        lemma_no_empty_groups_remain(s.last());
        let rest = without_empty_groups_seq(s.drop_last());
        let r = without_empty_groups_seq(s);
        assert forall|k: int| 0 <= k < r.len() implies !is_empty_group(#[trigger] r[k])
            && has_no_empty_groups(r[k]) by {
            if k < rest.len() {
                assert(r[k] == rest[k]);
            }
        }
    }
}

/// A tree without empty plain groups below its root is left as it is.
pub proof fn lemma_without_empty_groups_keeps_clean_tree(n: SpecNode)
    requires
        has_no_empty_groups(n),
    ensures
        without_empty_groups(n) == n,
    decreases n,
{
    lemma_without_empty_groups_keeps_clean_seq(n.children);
}

proof fn lemma_without_empty_groups_keeps_clean_seq(s: Seq<SpecNode>)
    requires
        forall|i: int| 0 <= i < s.len() ==> !is_empty_group(#[trigger] s[i]) && has_no_empty_groups(s[i]),
    ensures
        without_empty_groups_seq(s) == s,
    decreases s,
{
    if s.len() > 0 {
        assert(!is_empty_group(s[s.len() - 1]) && has_no_empty_groups(s[s.len() - 1]));
        lemma_without_empty_groups_keeps_clean_seq(s.drop_last());
        lemma_without_empty_groups_keeps_clean_tree(s.last());
        assert(s.drop_last().push(s.last()) =~= s);
    }
}

/// Removing empty groups a second time changes nothing.
pub proof fn lemma_remove_empty_groups_idempotent(n: SpecNode)
    ensures
        without_empty_groups(without_empty_groups(n)) == without_empty_groups(n),
{
    lemma_no_empty_groups_remain(n);
    lemma_without_empty_groups_keeps_clean_tree(without_empty_groups(n));
}

/// `n` with every node of class `cls` below it removed, together with its
/// subtree.
pub open spec fn without_class(n: SpecNode, cls: NodeClass) -> SpecNode
    decreases n,
{
    SpecNode { handle: n.handle, class: n.class, children: without_class_seq(n.children, cls) }
}

/// The nodes of `s` that are not of class `cls`, each with the nodes of
/// that class below it removed.
pub open spec fn without_class_seq(s: Seq<SpecNode>, cls: NodeClass) -> Seq<SpecNode>
    decreases s,
{
    if s.len() == 0 {
        Seq::empty()
    } else {
        let rest = without_class_seq(s.drop_last(), cls);
        if s.last().class == cls {
            rest
        } else {
            rest.push(without_class(s.last(), cls))
        }
    }
}

/// Removes every node of class `cls` below `root`, with its subtree.
pub fn remove_class(root: TreeNode, cls: NodeClass) -> (r: TreeNode)
    ensures
        r@ == without_class(root@, cls),
    decreases root,
{
    let TreeNode { handle, class, mut children } = root;
    let ghost cs = children@;
    let mut kept: Vec<TreeNode> = Vec::new();
    let mut i: usize = 0;
    assert(cs.len() == children.len());
    while children.len() > 0
        invariant
            i <= cs.len(),
            cs.len() <= usize::MAX,
            children@ == cs.subrange(i as int, cs.len() as int),
            view_nodes(kept@) == without_class_seq(view_nodes(cs.take(i as int)), cls),
            forall|j: int| 0 <= j < cs.len() ==> decreases_to!(root => #[trigger] cs[j]),
        decreases children.len(),
    {
        let child = children.remove(0);
        assert(child == cs[i as int]);
        let ghost prev = view_nodes(cs.take(i as int));
        let ghost next = view_nodes(cs.take(i + 1));
        proof {
            assert(cs.take(i + 1).drop_last() =~= cs.take(i as int));
            assert(cs.take(i + 1).last() == cs[i as int]);
            assert(next == prev.push(view_node(cs[i as int])));
            assert(next.drop_last() =~= prev);
            assert(next.last() == view_node(cs[i as int]));
        }
        if child.class != cls {
            let cleaned = remove_class(child, cls);
            let ghost before = kept@;
            kept.push(cleaned);
            proof {
                assert(kept@.drop_last() =~= before);
                assert(kept@.last() == cleaned);
            }
        }
        i += 1;
        proof {
            assert(children@ =~= cs.subrange(i as int, cs.len() as int));
        }
    }
    proof {
        assert(cs.take(cs.len() as int) =~= cs);
    }
    TreeNode { handle, class, children: kept }
}

/// Removes every image below `root`: an SVG document used as an image may
/// not hold images of its own, at any depth.
pub fn sanitize_sub_svg(root: TreeNode) -> (r: TreeNode)
    requires
        root.class != NodeClass::Image,
    ensures
        r@ == without_class(root@, NodeClass::Image),
{
    remove_class(root, NodeClass::Image)
}

/// No node below `n` is of class `cls`.
pub open spec fn has_no_class(n: SpecNode, cls: NodeClass) -> bool
    decreases n,
{
    forall|i: int|
        0 <= i < n.children.len() ==> (#[trigger] n.children[i]).class != cls && has_no_class(n.children[i], cls)
}

/// After [`remove_class`], no node of the class is left below the root.
pub proof fn lemma_no_class_remains(n: SpecNode, cls: NodeClass)
    ensures
        has_no_class(without_class(n, cls), cls),
    decreases n,
{
    lemma_no_class_remains_seq(n.children, cls);
}

proof fn lemma_no_class_remains_seq(s: Seq<SpecNode>, cls: NodeClass)
    ensures
        forall|k: int|
            0 <= k < without_class_seq(s, cls).len() ==> (#[trigger] without_class_seq(s, cls)[k]).class != cls
                && has_no_class(without_class_seq(s, cls)[k], cls),
    decreases s,
{
    if s.len() > 0 {
        lemma_no_class_remains_seq(s.drop_last(), cls);
        lemma_no_class_remains(s.last(), cls);
        let rest = without_class_seq(s.drop_last(), cls);
        let r = without_class_seq(s, cls);
        assert forall|k: int| 0 <= k < r.len() implies (#[trigger] r[k]).class != cls && has_no_class(r[k], cls) by {
            if k < rest.len() {
                assert(r[k] == rest[k]);
            }
        }
    }
}

/// A tree without nodes of class `cls` below its root is left as it is.
pub proof fn lemma_without_class_keeps_clean_tree(n: SpecNode, cls: NodeClass)
    requires
        has_no_class(n, cls),
    ensures
        without_class(n, cls) == n,
    decreases n,
{
    lemma_without_class_keeps_clean_seq(n.children, cls);
}

proof fn lemma_without_class_keeps_clean_seq(s: Seq<SpecNode>, cls: NodeClass)
    requires
        forall|i: int| 0 <= i < s.len() ==> (#[trigger] s[i]).class != cls && has_no_class(s[i], cls),
    ensures
        without_class_seq(s, cls) == s,
    decreases s,
{
    if s.len() > 0 {
        assert(s[s.len() - 1].class != cls && has_no_class(s[s.len() - 1], cls));
        lemma_without_class_keeps_clean_seq(s.drop_last(), cls);
        lemma_without_class_keeps_clean_tree(s.last(), cls);
        assert(s.drop_last().push(s.last()) =~= s);
    }
}

/// Removing the nodes of a class a second time changes nothing.
pub proof fn lemma_remove_class_idempotent(n: SpecNode, cls: NodeClass)
    ensures
        without_class(without_class(n, cls), cls) == without_class(n, cls),
{
    lemma_no_class_remains(n, cls);
    lemma_without_class_keeps_clean_tree(without_class(n, cls), cls);
}

/// The nodes `s` with the text below text elements removed: a `text`
/// inside a `text` is ignored.
pub open spec fn text_sanitized_seq(s: Seq<SpecNode>) -> Seq<SpecNode>
    decreases s,
{
    if s.len() == 0 {
        Seq::empty()
    } else {
        let c = s.last();
        text_sanitized_seq(s.drop_last()).push(
            if c.class == NodeClass::Text {
                without_class(c, NodeClass::Text)
            } else {
                SpecNode { handle: c.handle, class: c.class, children: text_sanitized_seq(c.children) }
            },
        )
    }
}

/// Removes every `text` element inside another `text` element below
/// `root`, with its content.
pub fn prepare_text(root: TreeNode) -> (r: TreeNode)
    ensures
        r@ == (SpecNode { handle: root@.handle, class: root@.class, children: text_sanitized_seq(root@.children) }),
    decreases root,
{
    let TreeNode { handle, class, mut children } = root;
    let ghost cs = children@;
    let mut kept: Vec<TreeNode> = Vec::new();
    let mut i: usize = 0;
    assert(cs.len() == children.len());
    while children.len() > 0
        invariant
            i <= cs.len(),
            cs.len() <= usize::MAX,
            children@ == cs.subrange(i as int, cs.len() as int),
            view_nodes(kept@) == text_sanitized_seq(view_nodes(cs.take(i as int))),
            forall|j: int| 0 <= j < cs.len() ==> decreases_to!(root => #[trigger] cs[j]),
        decreases children.len(),
    {
        let child = children.remove(0);
        assert(child == cs[i as int]);
        let ghost prev = view_nodes(cs.take(i as int));
        let ghost next = view_nodes(cs.take(i + 1));
        proof {
            assert(cs.take(i + 1).drop_last() =~= cs.take(i as int));
            assert(cs.take(i + 1).last() == cs[i as int]);
            assert(next == prev.push(view_node(cs[i as int])));
            assert(next.drop_last() =~= prev);
            assert(next.last() == view_node(cs[i as int]));
        }
        let cleaned = if child.class == NodeClass::Text {
            remove_class(child, NodeClass::Text)
        } else {
            prepare_text(child)
        };
        let ghost before = kept@;
        kept.push(cleaned);
        proof {
            assert(kept@.drop_last() =~= before);
            assert(kept@.last() == cleaned);
        }
        i += 1;
        proof {
            assert(children@ =~= cs.subrange(i as int, cs.len() as int));
        }
    }
    proof {
        assert(cs.take(cs.len() as int) =~= cs);
    }
    TreeNode { handle, class, children: kept }
}

/// No `text` element below `n` holds another one.
pub open spec fn no_nested_text(n: SpecNode) -> bool
    decreases n,
{
    forall|i: int|
        0 <= i < n.children.len() ==> ((#[trigger] n.children[i]).class == NodeClass::Text ==> has_no_class(
            n.children[i],
            NodeClass::Text,
        )) && no_nested_text(n.children[i])
}

proof fn lemma_textless_has_no_nested_text(n: SpecNode)
    requires
        has_no_class(n, NodeClass::Text),
    ensures
        no_nested_text(n),
    decreases n,
{
    assert forall|i: int| 0 <= i < n.children.len() implies ((#[trigger] n.children[i]).class == NodeClass::Text
        ==> has_no_class(n.children[i], NodeClass::Text)) && no_nested_text(n.children[i]) by {
        lemma_textless_has_no_nested_text(n.children[i]);
    }
}

/// After [`prepare_text`], no `text` element holds another one.
pub proof fn lemma_no_nested_text_remains(n: SpecNode)
    ensures
        no_nested_text(SpecNode { handle: n.handle, class: n.class, children: text_sanitized_seq(n.children) }),
    decreases n,
{
    lemma_no_nested_text_remains_seq(n.children);
}

proof fn lemma_no_nested_text_remains_seq(s: Seq<SpecNode>)
    ensures
        forall|k: int|
            0 <= k < text_sanitized_seq(s).len() ==> ((#[trigger] text_sanitized_seq(s)[k]).class == NodeClass::Text
                ==> has_no_class(text_sanitized_seq(s)[k], NodeClass::Text)) && no_nested_text(
                text_sanitized_seq(s)[k],
            ),
        text_sanitized_seq(s).len() == s.len(),
    decreases s,
{
    if s.len() > 0 {
        let c = s.last();
        lemma_no_nested_text_remains_seq(s.drop_last());
        let rest = text_sanitized_seq(s.drop_last());
        let r = text_sanitized_seq(s);
        let x = if c.class == NodeClass::Text {
            without_class(c, NodeClass::Text)
        } else {
            SpecNode { handle: c.handle, class: c.class, children: text_sanitized_seq(c.children) }
        };
        if c.class == NodeClass::Text {
            lemma_no_class_remains(c, NodeClass::Text);
            lemma_textless_has_no_nested_text(x);
        } else {
            lemma_no_nested_text_remains(c);
        }
        assert(r == rest.push(x));
        assert forall|k: int| 0 <= k < r.len() implies ((#[trigger] r[k]).class == NodeClass::Text ==> has_no_class(
            r[k],
            NodeClass::Text,
        )) && no_nested_text(r[k]) by {
            if k < rest.len() {
                assert(r[k] == rest[k]);
            }
        }
    }
}

/// Whether a group can be replaced by its children: it has the default
/// opacity, no clip path, mask, filter or `enable-background`, its ID is
/// not to be kept (`keep_named_groups` keeps non-empty IDs), and nothing in
/// the tree references it.
pub fn group_removable(
    opacity_is_default: bool,
    has_clip_path: bool,
    has_mask: bool,
    has_filter: bool,
    has_enable_background: bool,
    keep_named_groups: bool,
    id: &str,
    doc: &LinkDoc,
) -> (r: bool)
    ensures
        r == (opacity_is_default && !has_clip_path && !has_mask && !has_filter && !has_enable_background
            && !(keep_named_groups && id@.len() > 0) && !doc_uses(doc.body@, doc.defs@, id@)),
{
    opacity_is_default && !has_clip_path && !has_mask && !has_filter && !has_enable_background && !(
    keep_named_groups && id.unicode_len() > 0) && !is_id_used(doc, id)
}

/// A node of a converted tree for [`ungroup_groups`]: whether it is a group
/// that [`group_removable`] accepts, and its children.
#[derive(Debug)]
pub struct GroupTree {
    pub handle: usize,
    pub removable: bool,
    pub children: Vec<GroupTree>,
}

/// The mathematical value of a [`GroupTree`].
pub struct SpecGroupTree {
    pub handle: usize,
    pub removable: bool,
    pub children: Seq<SpecGroupTree>,
}

/// The views of a sequence of group trees.
pub open spec fn view_groups(s: Seq<GroupTree>) -> Seq<SpecGroupTree>
    decreases s,
{
    if s.len() == 0 {
        Seq::empty()
    } else {
        view_groups(s.drop_last()).push(view_group(s.last()))
    }
}

/// The view of a group tree.
pub open spec fn view_group(n: GroupTree) -> SpecGroupTree
    decreases n,
{
    SpecGroupTree { handle: n.handle, removable: n.removable, children: view_groups(n.children@) }
}

impl View for GroupTree {
    type V = SpecGroupTree;

    open spec fn view(&self) -> SpecGroupTree {
        view_group(*self)
    }
}

/// A node after ungrouping, with the removed groups it was lifted out of,
/// outermost first: their transforms now apply to it, in that order.
#[derive(Debug)]
pub struct LiftedNode {
    pub handle: usize,
    pub lifted: Vec<usize>,
    pub children: Vec<LiftedNode>,
}

/// The mathematical value of a [`LiftedNode`].
pub struct SpecLifted {
    pub handle: usize,
    pub lifted: Seq<usize>,
    pub children: Seq<SpecLifted>,
}

/// The views of a sequence of lifted nodes.
pub open spec fn view_lifted_nodes(s: Seq<LiftedNode>) -> Seq<SpecLifted>
    decreases s,
{
    if s.len() == 0 {
        Seq::empty()
    } else {
        view_lifted_nodes(s.drop_last()).push(view_lifted(s.last()))
    }
}

/// The view of a lifted node.
pub open spec fn view_lifted(n: LiftedNode) -> SpecLifted
    decreases n,
{
    SpecLifted { handle: n.handle, lifted: n.lifted@, children: view_lifted_nodes(n.children@) }
}

impl View for LiftedNode {
    type V = SpecLifted;

    open spec fn view(&self) -> SpecLifted {
        view_lifted(*self)
    }
}

/// The nodes `s`, lifted out of the removed groups `outer`, with every
/// removable group among them and below them replaced by its children.
pub open spec fn ungrouped_seq(s: Seq<SpecGroupTree>, outer: Seq<usize>) -> Seq<SpecLifted>
    decreases s,
{
    if s.len() == 0 {
        Seq::empty()
    } else {
        let c = s.last();
        ungrouped_seq(s.drop_last(), outer) + if c.removable {
            ungrouped_seq(c.children, outer.push(c.handle))
        } else {
            seq![SpecLifted { handle: c.handle, lifted: outer, children: ungrouped_seq(c.children, Seq::empty()) }]
        }
    }
}

/// The tree `root` with every removable group below the root replaced by
/// its children.
pub open spec fn ungrouped(root: SpecGroupTree) -> SpecLifted {
    SpecLifted { handle: root.handle, lifted: Seq::empty(), children: ungrouped_seq(root.children, Seq::empty()) }
}

proof fn lemma_ungrouped_seq_push(s: Seq<SpecGroupTree>, x: SpecGroupTree, outer: Seq<usize>)
    ensures
        ungrouped_seq(s.push(x), outer) == ungrouped_seq(s, outer) + if x.removable {
            ungrouped_seq(x.children, outer.push(x.handle))
        } else {
            seq![SpecLifted { handle: x.handle, lifted: outer, children: ungrouped_seq(x.children, Seq::empty()) }]
        },
{
    assert(s.push(x).drop_last() =~= s);
}

proof fn lemma_view_lifted_push(s: Seq<LiftedNode>, x: LiftedNode)
    ensures
        view_lifted_nodes(s.push(x)) == view_lifted_nodes(s).push(view_lifted(x)),
{
    assert(s.push(x).drop_last() =~= s);
}

/// Appends to `out` the nodes `nodes`, lifted out of the removed groups
/// `outer`, with removable groups replaced by their children.
fn ungroup_into(nodes: Vec<GroupTree>, outer: &Vec<usize>, out: &mut Vec<LiftedNode>)
    ensures
        view_lifted_nodes(final(out)@) == view_lifted_nodes(old(out)@) + ungrouped_seq(
            view_groups(nodes@),
            outer@,
        ),
    decreases nodes,
{
    let ghost cs = nodes@;
    let ghost start = view_lifted_nodes(out@);
    let mut rest = nodes;
    let mut i: usize = 0;
    assert(cs.len() == rest.len());
    while rest.len() > 0
        invariant
            i <= cs.len(),
            cs.len() <= usize::MAX,
            rest@ == cs.subrange(i as int, cs.len() as int),
            view_lifted_nodes(out@) == start + ungrouped_seq(view_groups(cs.take(i as int)), outer@),
            forall|j: int| 0 <= j < cs.len() ==> decreases_to!(nodes => #[trigger] cs[j]),
        decreases rest.len(),
    {
        let node = rest.remove(0);
        assert(node == cs[i as int]);
        let ghost vprev = view_groups(cs.take(i as int));
        proof {
            assert(cs.take(i + 1).drop_last() =~= cs.take(i as int));
            assert(cs.take(i + 1).last() == cs[i as int]);
            assert(view_groups(cs.take(i + 1)) == vprev.push(view_group(cs[i as int])));
            lemma_ungrouped_seq_push(vprev, view_group(cs[i as int]), outer@);
        }
        let GroupTree { handle, removable, children } = node;
        if removable {
            let mut inner = outer.clone();
            inner.push(handle);
            proof {
                assert(inner@ == outer@.push(handle));
            }
            ungroup_into(children, &inner, out);
        } else {
            let mut kept: Vec<LiftedNode> = Vec::new();
            let empty: Vec<usize> = Vec::new();
            ungroup_into(children, &empty, &mut kept);
            proof {
                assert(view_lifted_nodes(Seq::<LiftedNode>::empty()) =~= Seq::<SpecLifted>::empty());
                assert(empty@ =~= Seq::<usize>::empty());
            }
            let lifted = outer.clone();
            let ghost before = out@;
            let item = LiftedNode { handle, lifted, children: kept };
            proof {
                assert(view_lifted(item) == (SpecLifted { handle, lifted: outer@, children: ungrouped_seq(view_groups(children@), Seq::empty()) }));
            }
            out.push(item);
            proof {
                lemma_view_lifted_push(before, item);
            }
        }
        i += 1;
        proof {
            assert(rest@ =~= cs.subrange(i as int, cs.len() as int));
        }
    }
    proof {
        assert(cs.take(cs.len() as int) =~= cs);
    }
}

/// Replaces every removable group below `root` by its children, which keep
/// their place among the group's siblings and take on the group's
/// transform before their own.
pub fn ungroup_groups(root: GroupTree) -> (r: LiftedNode)
    ensures
        r@ == ungrouped(root@),
{
    let GroupTree { handle, removable: _, children } = root;
    let mut out: Vec<LiftedNode> = Vec::new();
    let empty: Vec<usize> = Vec::new();
    ungroup_into(children, &empty, &mut out);
    proof {
        assert(view_lifted_nodes(Seq::<LiftedNode>::empty()) =~= Seq::<SpecLifted>::empty());
        assert(empty@ =~= Seq::<usize>::empty());
    }
    LiftedNode { handle, lifted: Vec::new(), children: out }
}

/// The handles of the nodes of `s` and below that are not removable
/// groups, in document order.
pub open spec fn kept_handles(s: Seq<SpecGroupTree>) -> Seq<usize>
    decreases s,
{
    if s.len() == 0 {
        Seq::empty()
    } else {
        let c = s.last();
        kept_handles(s.drop_last()) + (if c.removable {
            Seq::empty()
        } else {
            seq![c.handle]
        }) + kept_handles(c.children)
    }
}

/// The handles of the nodes of `s` and below, in document order.
pub open spec fn lifted_handles(s: Seq<SpecLifted>) -> Seq<usize>
    decreases s,
{
    if s.len() == 0 {
        Seq::empty()
    } else {
        lifted_handles(s.drop_last()) + seq![s.last().handle] + lifted_handles(s.last().children)
    }
}

proof fn lemma_lifted_handles_concat(a: Seq<SpecLifted>, b: Seq<SpecLifted>)
    ensures
        lifted_handles(a + b) == lifted_handles(a) + lifted_handles(b),
    decreases b.len(),
{
    if b.len() == 0 {
        assert(a + b =~= a);
    } else {
        lemma_lifted_handles_concat(a, b.drop_last());
        assert((a + b).drop_last() =~= a + b.drop_last());
        assert((a + b).last() == b.last());
    }
}

/// Ungrouping keeps every node that is not a removable group, in document
/// order, and only those.
pub proof fn lemma_ungroup_keeps_other_nodes(s: Seq<SpecGroupTree>, outer: Seq<usize>)
    ensures
        lifted_handles(ungrouped_seq(s, outer)) == kept_handles(s),
    decreases s,
{
    if s.len() > 0 {
        let c = s.last();
        lemma_ungroup_keeps_other_nodes(s.drop_last(), outer);
        let rest = ungrouped_seq(s.drop_last(), outer);
        if c.removable {
            lemma_ungroup_keeps_other_nodes(c.children, outer.push(c.handle));
            let x = ungrouped_seq(c.children, outer.push(c.handle));
            lemma_lifted_handles_concat(rest, x);
            assert(kept_handles(s) =~= kept_handles(s.drop_last()) + kept_handles(c.children));
        } else {
            lemma_ungroup_keeps_other_nodes(c.children, Seq::empty());
            let node = SpecLifted { handle: c.handle, lifted: outer, children: ungrouped_seq(c.children, Seq::empty()) };
            lemma_lifted_handles_concat(rest, seq![node]);
            assert(seq![node].drop_last() =~= Seq::<SpecLifted>::empty());
            assert(seq![node].last() == node);
            assert(lifted_handles(Seq::<SpecLifted>::empty()) == Seq::<usize>::empty());
            assert(lifted_handles(seq![node]) =~= seq![c.handle] + lifted_handles(node.children));
        }
    }
}

/// The kind of an element, as far as the content of a clip path goes.
#[derive(Clone, Copy, PartialEq, Eq, Debug, Structural)]
pub enum ElementKind {
    Rect,
    Circle,
    Ellipse,
    Line,
    Polyline,
    Polygon,
    Path,
    Text,
    Group,
    /// Any other SVG element.
    Other,
}

/// A clip path may hold shapes and text; a `line` is left out too, since
/// the stroke of a clip path's content is never drawn.
pub open spec fn spec_is_valid_child(kind: ElementKind) -> bool {
    match kind {
        ElementKind::Rect | ElementKind::Circle | ElementKind::Ellipse | ElementKind::Polyline
        | ElementKind::Polygon | ElementKind::Path | ElementKind::Text => true,
        _ => false,
    }
}

/// Whether an element of this kind may stay in a clip path.
pub fn is_valid_child(kind: ElementKind) -> (r: bool)
    ensures
        r == spec_is_valid_child(kind),
{
    match kind {
        ElementKind::Rect | ElementKind::Circle | ElementKind::Ellipse | ElementKind::Polyline
        | ElementKind::Polygon | ElementKind::Path | ElementKind::Text => true,
        _ => false,
    }
}

/// Whether a child of a clip path stays.
///
/// `kind` is `None` for a node that is not an SVG element, which goes. A
/// group made from a resolved `use` (`from_use`) stays unless its first
/// child (`first_child`) is an element that a clip path may not hold; any
/// other element stays when a clip path may hold it.
pub fn keep_clip_path_child(kind: Option<ElementKind>, from_use: bool, first_child: Option<ElementKind>) -> (r: bool)
    ensures
        r == match kind {
            None => false,
            Some(ElementKind::Group) => from_use && match first_child {
                Some(c) => spec_is_valid_child(c),
                None => true,
            },
            Some(k) => spec_is_valid_child(k),
        },
{
    match kind {
        None => false,
        Some(ElementKind::Group) => {
            if from_use {
                match first_child {
                    Some(c) => is_valid_child(c),
                    None => true,
                }
            } else {
                false
            }
        },
        Some(k) => is_valid_child(k),
    }
}

} // verus!
