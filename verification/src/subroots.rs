//! The subroots of a node: the roots of the separate subtrees (patterns,
//! clip paths, masks, elements used by `feImage`) that the node draws
//! through. Nodes are named by handles of the caller's tree.

use vstd::prelude::*;

verus! {

/// The paints of a text span and of its decorations, each given as the root
/// of its pattern when the paint is a pattern.
#[derive(Clone, Copy, Debug)]
pub struct SpanPaints {
    pub fill: Option<usize>,
    pub stroke: Option<usize>,
    /// The fill and stroke of the underline, if the span has one.
    pub underline: Option<(Option<usize>, Option<usize>)>,
    /// The fill and stroke of the overline, if the span has one.
    pub overline: Option<(Option<usize>, Option<usize>)>,
    /// The fill and stroke of the line-through, if the span has one.
    pub line_through: Option<(Option<usize>, Option<usize>)>,
}

/// What [`node_subroots`] reads of a node.
#[derive(Clone, Debug)]
pub enum SubrootNode {
    /// A group: the patterns of the paints its filters take, its clip path
    /// and mask (each with the root of its own clip path or mask), and, for
    /// every primitive of its filters, the node that an `feImage` uses.
    Group {
        filter_fill: Option<usize>,
        filter_stroke: Option<usize>,
        clip_path: Option<(usize, Option<usize>)>,
        mask: Option<(usize, Option<usize>)>,
        image_uses: Vec<Option<usize>>,
    },
    /// A path with the patterns of its fill and stroke.
    Path { fill: Option<usize>, stroke: Option<usize> },
    /// An image.
    Image,
    /// A text with the paints of its spans, chunk by chunk.
    Text { spans: Vec<SpanPaints> },
}

/// The handle in `o`, if any.
pub open spec fn opt_roots(o: Option<usize>) -> Seq<usize> {
    match o {
        Some(h) => seq![h],
        None => Seq::empty(),
    }
}

/// The root of a clip path or mask, then the root of its own one.
pub open spec fn nested_roots(o: Option<(usize, Option<usize>)>) -> Seq<usize> {
    match o {
        Some((root, sub)) => seq![root] + opt_roots(sub),
        None => Seq::empty(),
    }
}

/// The pattern roots of a decoration's fill and stroke.
pub open spec fn decoration_roots(o: Option<(Option<usize>, Option<usize>)>) -> Seq<usize> {
    match o {
        Some((fill, stroke)) => opt_roots(fill) + opt_roots(stroke),
        None => Seq::empty(),
    }
}

/// The pattern roots of a span: its fill and stroke, then those of its
/// underline, overline and line-through.
pub open spec fn span_roots(s: SpanPaints) -> Seq<usize> {
    opt_roots(s.fill) + opt_roots(s.stroke) + decoration_roots(s.underline) + decoration_roots(s.overline)
        + decoration_roots(s.line_through)
}

/// The pattern roots of the spans, in order.
pub open spec fn spans_roots(spans: Seq<SpanPaints>) -> Seq<usize>
    decreases spans.len(),
{
    if spans.len() == 0 {
        Seq::empty()
    } else {
        spans_roots(spans.drop_last()) + span_roots(spans.last())
    }
}

/// The handles among `uses`, in order.
pub open spec fn some_roots(uses: Seq<Option<usize>>) -> Seq<usize>
    decreases uses.len(),
{
    if uses.len() == 0 {
        Seq::empty()
    } else {
        some_roots(uses.drop_last()) + opt_roots(uses.last())
    }
}

/// The subroots of a node, in the order in which they are visited.
pub open spec fn subroots(n: SubrootNode) -> Seq<usize> {
    match n {
        SubrootNode::Group { filter_fill, filter_stroke, clip_path, mask, image_uses } => opt_roots(
            filter_fill,
        ) + opt_roots(filter_stroke) + nested_roots(clip_path) + nested_roots(mask) + some_roots(
            image_uses@,
        ),
        SubrootNode::Path { fill, stroke } => opt_roots(fill) + opt_roots(stroke),
        SubrootNode::Image => Seq::empty(),
        SubrootNode::Text { spans } => spans_roots(spans@),
    }
}

fn push_opt(out: &mut Vec<usize>, o: Option<usize>)
    ensures
        final(out)@ == old(out)@ + opt_roots(o),
{
    if let Some(h) = o {
        out.push(h);
    }
    assert(out@ =~= old(out)@ + opt_roots(o));
}

fn push_nested(out: &mut Vec<usize>, o: Option<(usize, Option<usize>)>)
    ensures
        final(out)@ == old(out)@ + nested_roots(o),
{
    if let Some((root, sub)) = o {
        out.push(root);
        push_opt(out, sub);
    }
    assert(out@ =~= old(out)@ + nested_roots(o));
}

fn push_decoration(out: &mut Vec<usize>, o: Option<(Option<usize>, Option<usize>)>)
    ensures
        final(out)@ == old(out)@ + decoration_roots(o),
{
    if let Some((fill, stroke)) = o {
        push_opt(out, fill);
        push_opt(out, stroke);
    }
    assert(out@ =~= old(out)@ + decoration_roots(o));
}

fn push_span(out: &mut Vec<usize>, s: SpanPaints)
    ensures
        final(out)@ == old(out)@ + span_roots(s),
{
    push_opt(out, s.fill);
    push_opt(out, s.stroke);
    push_decoration(out, s.underline);
    push_decoration(out, s.overline);
    push_decoration(out, s.line_through);
    assert(out@ =~= old(out)@ + span_roots(s));
}

proof fn lemma_spans_roots_step(spans: Seq<SpanPaints>, i: int)
    requires
        0 <= i < spans.len(),
    ensures
        spans_roots(spans.take(i + 1)) == spans_roots(spans.take(i)) + span_roots(spans[i]),
{
    assert(spans.take(i + 1).drop_last() =~= spans.take(i));
    assert(spans.take(i + 1).last() == spans[i]);
}

/// Lists the subroots of a node, in the order in which the renderer visits
/// them.
pub fn node_subroots(node: &SubrootNode) -> (r: Vec<usize>)
    ensures
        r@ == subroots(*node),
{
    let mut out: Vec<usize> = Vec::new();
    match node {
        SubrootNode::Group { filter_fill, filter_stroke, clip_path, mask, image_uses } => {
            push_opt(&mut out, *filter_fill);
            push_opt(&mut out, *filter_stroke);
            push_nested(&mut out, *clip_path);
            push_nested(&mut out, *mask);
            let ghost head = out@;
            let mut i: usize = 0;
            while i < image_uses.len()
                invariant
                    i <= image_uses@.len(),
                    out@ == head + some_roots(image_uses@.take(i as int)),
                decreases image_uses.len() - i,
            {
                proof {
                    assert(image_uses@.take(i + 1).drop_last() =~= image_uses@.take(i as int));
                }
                push_opt(&mut out, image_uses[i]);
                i = i + 1;
                proof {
                    assert(out@ =~= head + some_roots(image_uses@.take(i as int)));
                }
            }
            assert(image_uses@.take(image_uses@.len() as int) =~= image_uses@);
            assert(out@ =~= subroots(*node));
        },
        SubrootNode::Path { fill, stroke } => {
            push_opt(&mut out, *fill);
            push_opt(&mut out, *stroke);
            assert(out@ =~= subroots(*node));
        },
        SubrootNode::Image => {
            assert(out@ =~= subroots(*node));
        },
        SubrootNode::Text { spans } => {
            let mut i: usize = 0;
            while i < spans.len()
                invariant
                    i <= spans@.len(),
                    out@ == spans_roots(spans@.take(i as int)),
                decreases spans.len() - i,
            {
                proof {
                    lemma_spans_roots_step(spans@, i as int);
                }
                push_span(&mut out, spans[i]);
                i = i + 1;
            }
            assert(spans@.take(spans@.len() as int) =~= spans@);
        },
    }
    out
}

/// A node of a converted tree, with its children and the trees that its
/// subroots start (what [`node_subroots`] lists), as far as the search for
/// text goes.
#[derive(Debug)]
pub struct TextScanNode {
    pub is_text: bool,
    pub children: Vec<TextScanNode>,
    pub subroots: Vec<TextScanNode>,
}

/// Some tree among `s` holds a text node.
pub open spec fn nodes_have_text(s: Seq<TextScanNode>) -> bool
    decreases s,
{
    if s.len() == 0 {
        false
    } else {
        nodes_have_text(s.drop_last()) || node_has_text(s.last())
    }
}

/// The tree `n` holds a text node: `n` itself, one of its descendants, or
/// a node of a tree that one of them draws through.
pub open spec fn node_has_text(n: TextScanNode) -> bool
    decreases n,
{
    n.is_text || nodes_have_text(n.children@) || nodes_have_text(n.subroots@)
}

/// Whether some tree among `nodes` holds a text node.
fn any_has_text(nodes: &Vec<TextScanNode>) -> (r: bool)
    ensures
        r == nodes_have_text(nodes@),
    decreases nodes,
{
    let mut i: usize = 0;
    while i < nodes.len()
        invariant
            i <= nodes@.len(),
            !nodes_have_text(nodes@.take(i as int)),
            forall|j: int| 0 <= j < nodes@.len() ==> decreases_to!(nodes => #[trigger] nodes@[j]),
        decreases nodes.len() - i,
    {
        proof {
            assert(nodes@.take(i + 1).drop_last() =~= nodes@.take(i as int));
            assert(nodes@.take(i + 1).last() == nodes@[i as int]);
        }
        if has_text_nodes(&nodes[i]) {
            proof {
                assert(nodes_have_text(nodes@.take(i + 1)));
                lemma_has_text_prefix(nodes@, i + 1);
            }
            return true;
        }
        i = i + 1;
    }
    proof {
        assert(nodes@.take(nodes@.len() as int) =~= nodes@);
    }
    false
}

/// A sequence holds text if one of its prefixes does.
proof fn lemma_has_text_prefix(s: Seq<TextScanNode>, k: int)
    requires
        0 <= k <= s.len(),
        nodes_have_text(s.take(k)),
    ensures
        nodes_have_text(s),
    decreases s.len() - k,
{
    if k < s.len() {
        assert(s.take(k + 1).drop_last() =~= s.take(k));
        lemma_has_text_prefix(s, k + 1);
    } else {
        assert(s.take(k) =~= s);
    }
}

/// Whether the tree `root` holds a text node, looking into the trees that
/// its nodes draw through (patterns, clip paths, masks, `feImage` uses) as
/// well.
pub fn has_text_nodes(root: &TextScanNode) -> (r: bool)
    ensures
        r == node_has_text(*root),
    decreases root,
{
    if root.is_text {
        return true;
    }
    if any_has_text(&root.children) {
        return true;
    }
    any_has_text(&root.subroots)
}

/// A node of a converted tree, with its children and the trees that its
/// subroots start, carrying the items of one sort it references: its
/// filters, its clip path and that clip path's own one, its mask and that
/// mask's own one, or its paints.
#[derive(Debug)]
pub struct ItemScanNode {
    pub items: Vec<usize>,
    pub children: Vec<ItemScanNode>,
    pub subroots: Vec<ItemScanNode>,
}

/// The items of the trees `s`, one tree after the other.
pub open spec fn nodes_items(s: Seq<ItemScanNode>) -> Seq<usize>
    decreases s,
{
    if s.len() == 0 {
        Seq::empty()
    } else {
        nodes_items(s.drop_last()) + node_items(s.last())
    }
}

/// The items of the tree `n`, in the order the tree is walked: the items
/// of `n`, those of the trees it draws through, then those of its children
/// in turn.
pub open spec fn node_items(n: ItemScanNode) -> Seq<usize>
    decreases n,
{
    n.items@ + nodes_items(n.subroots@) + nodes_items(n.children@)
}

fn append_items(out: &mut Vec<usize>, items: &Vec<usize>)
    ensures
        final(out)@ == old(out)@ + items@,
{
    let ghost start = out@;
    let mut i: usize = 0;
    while i < items.len()
        invariant
            i <= items@.len(),
            out@ == start + items@.take(i as int),
        decreases items.len() - i,
    {
        out.push(items[i]);
        i = i + 1;
        proof {
            assert(out@ =~= start + items@.take(i as int));
        }
    }
    proof {
        assert(items@.take(items@.len() as int) =~= items@);
    }
}

fn collect_nodes_into(nodes: &Vec<ItemScanNode>, out: &mut Vec<usize>)
    ensures
        final(out)@ == old(out)@ + nodes_items(nodes@),
    decreases nodes,
{
    let ghost start = out@;
    let mut i: usize = 0;
    while i < nodes.len()
        invariant
            i <= nodes@.len(),
            out@ == start + nodes_items(nodes@.take(i as int)),
            forall|j: int| 0 <= j < nodes@.len() ==> decreases_to!(nodes => #[trigger] nodes@[j]),
        decreases nodes.len() - i,
    {
        proof {
            assert(nodes@.take(i + 1).drop_last() =~= nodes@.take(i as int));
            assert(nodes@.take(i + 1).last() == nodes@[i as int]);
        }
        collect_items_into(&nodes[i], out);
        i = i + 1;
        proof {
            assert(out@ =~= start + nodes_items(nodes@.take(i as int)));
        }
    }
    proof {
        assert(nodes@.take(nodes@.len() as int) =~= nodes@);
    }
}

fn collect_items_into(node: &ItemScanNode, out: &mut Vec<usize>)
    ensures
        final(out)@ == old(out)@ + node_items(*node),
    decreases node,
{
    let ghost start = out@;
    append_items(out, &node.items);
    collect_nodes_into(&node.subroots, out);
    collect_nodes_into(&node.children, out);
    proof {
        assert(out@ =~= start + node_items(*node));
    }
}

/// Lists the items of the tree `root`, the trees its nodes draw through
/// included, in the order the tree is walked. An item referenced from
/// several places is listed each time.
pub fn collect_items(root: &ItemScanNode) -> (r: Vec<usize>)
    ensures
        r@ == node_items(*root),
{
    let mut out: Vec<usize> = Vec::new();
    collect_items_into(root, &mut out);
    proof {
        assert(out@ =~= node_items(*root));
    }
    out
}

} // verus!
