//! References between the nodes of a converted tree, and the removal of
//! definitions that nothing references.
//!
//! A converted tree keeps paint servers, clip paths, masks and filters under
//! `defs`; the rest of the tree refers to them by ID. Only those references
//! decide whether a definition is still needed, so a document is modelled
//! here by the references each node holds.

use vstd::prelude::*;
use crate::text::str_eq;
use crate::tree::Color;

verus! {

/// A fill or stroke paint: a plain color or a link to a paint server.
#[derive(Clone, Debug)]
pub enum Paint {
    Color(Color),
    Link(String),
}

/// The references held by one node of a converted tree.
#[derive(Clone, Debug)]
pub enum NodeLinks {
    /// A `clipPath` with its own `clip-path` reference.
    ClipPath { clip_path: Option<String> },
    /// A `mask` with its own `mask` reference.
    Mask { mask: Option<String> },
    /// A path with its fill and stroke paints.
    Path { fill: Option<Paint>, stroke: Option<Paint> },
    /// A group with its clip path, mask, filters and the paints that its
    /// filters take as `FillPaint` and `StrokePaint`.
    Group {
        clip_path: Option<String>,
        mask: Option<String>,
        filter_fill: Option<Paint>,
        filter_stroke: Option<Paint>,
        filters: Vec<String>,
    },
    /// A filter with, for each primitive, the element that an `feImage`
    /// primitive uses, if any.
    Filter { image_uses: Vec<Option<String>> },
    /// Any other node: it references nothing.
    Other,
}

/// A definition: its ID and the nodes of its subtree, itself first.
#[derive(Clone, Debug)]
pub struct DefLinks {
    pub id: String,
    pub links: Vec<NodeLinks>,
}

/// A converted tree: the nodes outside `defs`, and the definitions in order.
#[derive(Clone, Debug)]
pub struct LinkDoc {
    pub body: Vec<NodeLinks>,
    pub defs: Vec<DefLinks>,
}

/// `o` holds the ID `id`.
pub open spec fn names(o: Option<String>, id: Seq<char>) -> bool {
    match o {
        Some(s) => s@ == id,
        None => false,
    }
}

/// `p` is a link to the paint server `id`.
pub open spec fn paint_links_to(p: Option<Paint>, id: Seq<char>) -> bool {
    match p {
        Some(Paint::Link(s)) => s@ == id,
        _ => false,
    }
}

/// `ids` holds the ID `id`.
pub open spec fn lists(ids: Seq<String>, id: Seq<char>) -> bool {
    exists|k: int| 0 <= k < ids.len() && #[trigger] ids[k]@ == id
}

/// One of `ids` holds the ID `id`.
pub open spec fn lists_some(ids: Seq<Option<String>>, id: Seq<char>) -> bool {
    exists|k: int| 0 <= k < ids.len() && #[trigger] names(ids[k], id)
}

/// The node `n` references the ID `id`.
pub open spec fn node_uses(n: NodeLinks, id: Seq<char>) -> bool {
    match n {
        NodeLinks::ClipPath { clip_path } => names(clip_path, id),
        NodeLinks::Mask { mask } => names(mask, id),
        NodeLinks::Path { fill, stroke } => paint_links_to(fill, id) || paint_links_to(stroke, id),
        NodeLinks::Group { clip_path, mask, filter_fill, filter_stroke, filters } => {
            ||| names(clip_path, id)
            ||| names(mask, id)
            ||| paint_links_to(filter_fill, id)
            ||| paint_links_to(filter_stroke, id)
            ||| lists(filters@, id)
        },
        NodeLinks::Filter { image_uses } => lists_some(image_uses@, id),
        NodeLinks::Other => false,
    }
}

/// Some node of `nodes` references `id`.
pub open spec fn nodes_use(nodes: Seq<NodeLinks>, id: Seq<char>) -> bool {
    exists|i: int| 0 <= i < nodes.len() && #[trigger] node_uses(nodes[i], id)
}

/// Some definition of `defs` references `id` from its subtree.
pub open spec fn defs_use(defs: Seq<DefLinks>, id: Seq<char>) -> bool {
    exists|j: int| 0 <= j < defs.len() && #[trigger] nodes_use(defs[j].links@, id)
}

/// Some node of the tree made of `body` and `defs` references `id`.
pub open spec fn doc_uses(body: Seq<NodeLinks>, defs: Seq<DefLinks>, id: Seq<char>) -> bool {
    nodes_use(body, id) || defs_use(defs, id)
}

fn opt_names(o: &Option<String>, id: &str) -> (r: bool)
    ensures
        r == names(*o, id@),
{
    match o {
        Some(s) => str_eq(s.as_str(), id),
        None => false,
    }
}

fn paint_is_link_to(p: &Option<Paint>, id: &str) -> (r: bool)
    ensures
        r == paint_links_to(*p, id@),
{
    match p {
        Some(Paint::Link(s)) => str_eq(s.as_str(), id),
        _ => false,
    }
}

fn list_has(ids: &Vec<String>, id: &str) -> (r: bool)
    ensures
        r == lists(ids@, id@),
{
    let mut k: usize = 0;
    while k < ids.len()
        invariant
            k <= ids.len(),
            forall|j: int| 0 <= j < k ==> #[trigger] ids@[j]@ != id@,
        decreases ids.len() - k,
    {
        if str_eq(ids[k].as_str(), id) {
            assert(ids@[k as int]@ == id@);
            return true;
        }
        k += 1;
    }
    false
}

fn list_has_some(ids: &Vec<Option<String>>, id: &str) -> (r: bool)
    ensures
        r == lists_some(ids@, id@),
{
    let mut k: usize = 0;
    while k < ids.len()
        invariant
            k <= ids.len(),
            forall|j: int| 0 <= j < k ==> !#[trigger] names(ids@[j], id@),
        decreases ids.len() - k,
    {
        if opt_names(&ids[k], id) {
            assert(names(ids@[k as int], id@));
            return true;
        }
        k += 1;
    }
    false
}

/// Whether the node references `id`.
pub fn node_uses_id(n: &NodeLinks, id: &str) -> (r: bool)
    ensures
        r == node_uses(*n, id@),
{
    match n {
        NodeLinks::ClipPath { clip_path } => opt_names(clip_path, id),
        NodeLinks::Mask { mask } => opt_names(mask, id),
        NodeLinks::Path { fill, stroke } => paint_is_link_to(fill, id) || paint_is_link_to(stroke, id),
        NodeLinks::Group { clip_path, mask, filter_fill, filter_stroke, filters } => {
            opt_names(clip_path, id) || opt_names(mask, id) || paint_is_link_to(filter_fill, id)
                || paint_is_link_to(filter_stroke, id) || list_has(filters, id)
        },
        NodeLinks::Filter { image_uses } => list_has_some(image_uses, id),
        NodeLinks::Other => false,
    }
}

/// Whether some node of `nodes` references `id`.
pub fn nodes_use_id(nodes: &Vec<NodeLinks>, id: &str) -> (r: bool)
    ensures
        r == nodes_use(nodes@, id@),
{
    let mut i: usize = 0;
    while i < nodes.len()
        invariant
            i <= nodes.len(),
            forall|j: int| 0 <= j < i ==> !#[trigger] node_uses(nodes@[j], id@),
        decreases nodes.len() - i,
    {
        if node_uses_id(&nodes[i], id) {
            return true;
        }
        i += 1;
    }
    false
}

/// Whether some node of the tree references the ID `id`: a clip path, a
/// mask, a paint server, a filter, or an element that an `feImage` uses.
pub fn is_id_used(doc: &LinkDoc, id: &str) -> (r: bool)
    ensures
        r == doc_uses(doc.body@, doc.defs@, id@),
{
    if nodes_use_id(&doc.body, id) {
        return true;
    }
    let mut j: usize = 0;
    while j < doc.defs.len()
        invariant
            j <= doc.defs.len(),
            !nodes_use(doc.body@, id@),
            forall|k: int| 0 <= k < j ==> !#[trigger] nodes_use(doc.defs@[k].links@, id@),
        decreases doc.defs.len() - j,
    {
        if nodes_use_id(&doc.defs[j].links, id) {
            return true;
        }
        j += 1;
    }
    false
}

/// The definitions at the positions `s` reference `id` from their subtrees.
pub open spec fn chosen_defs_use(defs: Seq<DefLinks>, s: Set<int>, id: Seq<char>) -> bool {
    exists|o: int| s.contains(o) && 0 <= o < defs.len() && #[trigger] nodes_use(defs[o].links@, id)
}

/// Every definition at the positions `s` is referenced from `body` or from
/// one of the definitions at the positions `s`: keeping exactly those
/// definitions leaves none of them unused.
pub open spec fn self_supporting(body: Seq<NodeLinks>, defs: Seq<DefLinks>, s: Set<int>) -> bool {
    forall|o: int| #[trigger] s.contains(o) ==> 0 <= o < defs.len() && (nodes_use(body, defs[o].id@)
        || chosen_defs_use(defs, s, defs[o].id@))
}

/// The positions listed in `kept`.
pub open spec fn positions(kept: Seq<usize>) -> Set<int> {
    Set::new(|o: int| exists|i: int| 0 <= i < kept.len() && kept[i] == o)
}

/// `kept` lists positions of `old_defs` in increasing order, and `defs` holds
/// the definitions at those positions.
pub open spec fn kept_in_order(defs: Seq<DefLinks>, old_defs: Seq<DefLinks>, kept: Seq<usize>) -> bool {
    &&& kept.len() == defs.len()
    &&& forall|i: int, k: int| 0 <= i < k < kept.len() ==> kept[i] < kept[k]
    &&& forall|i: int| 0 <= i < kept.len() ==> #[trigger] kept[i] < old_defs.len()
    &&& forall|i: int| 0 <= i < kept.len() ==> #[trigger] defs[i] == old_defs[kept[i] as int]
}

/// Removes the definitions that nothing references, until none is left.
///
/// Removing a definition drops the references that its subtree held, so the
/// definitions are checked again until a whole pass removes nothing. Returns
/// the positions, in the original `defs`, of the definitions that stay.
/// What stays is the largest set of definitions that is referenced from the
/// rest of the tree or from itself: definitions that only reference one
/// another in a cycle stay.
pub fn remove_unused_defs(doc: &mut LinkDoc) -> (kept: Vec<usize>)
    ensures
        final(doc).body@ == old(doc).body@,
        kept_in_order(final(doc).defs@, old(doc).defs@, kept@),
        forall|i: int|
            0 <= i < final(doc).defs.len() ==> doc_uses(
                final(doc).body@,
                final(doc).defs@,
                #[trigger] final(doc).defs@[i].id@,
            ),
        forall|s: Set<int>|
            #[trigger] self_supporting(old(doc).body@, old(doc).defs@, s) ==> s.subset_of(
                positions(kept@),
            ),
{
    let ghost body0 = doc.body@;
    let ghost defs0 = doc.defs@;
    let mut kept: Vec<usize> = Vec::new();
    let mut i: usize = 0;
    while i < doc.defs.len()
        invariant
            i <= doc.defs.len(),
            doc.defs@ == defs0,
            kept.len() == i,
            forall|j: int| 0 <= j < i ==> kept[j] == j,
        decreases doc.defs.len() - i,
    {
        kept.push(i);
        i += 1;
    }
    proof {
        assert forall|s: Set<int>| #[trigger] self_supporting(body0, defs0, s) implies s.subset_of(
            positions(kept@),
        ) by {
            assert forall|o: int| s.contains(o) implies positions(kept@).contains(o) by {
                assert(kept[o] == o);
            }
        }
    }
    let mut changed = true;
    while changed
        invariant
            doc.body@ == body0,
            kept_in_order(doc.defs@, defs0, kept@),
            forall|s: Set<int>|
                #[trigger] self_supporting(body0, defs0, s) ==> s.subset_of(positions(kept@)),
            !changed ==> forall|k: int|
                0 <= k < doc.defs.len() ==> doc_uses(body0, doc.defs@, #[trigger] doc.defs@[k].id@),
        decreases doc.defs.len() + if changed { 1int } else { 0int },
    {
        let ghost pass_len = doc.defs.len();
        let mut removed = false;
        let mut i: usize = 0;
        while i < doc.defs.len()
            invariant
                i <= doc.defs.len(),
                doc.body@ == body0,
                kept_in_order(doc.defs@, defs0, kept@),
                forall|s: Set<int>|
                    #[trigger] self_supporting(body0, defs0, s) ==> s.subset_of(positions(kept@)),
                removed ==> doc.defs.len() < pass_len,
                !removed ==> doc.defs.len() == pass_len,
                !removed ==> forall|k: int|
                    0 <= k < i ==> doc_uses(body0, doc.defs@, #[trigger] doc.defs@[k].id@),
            decreases doc.defs.len() - i,
        {
            let used = is_id_used(doc, doc.defs[i].id.as_str());
            if !used {
                let ghost old_kept = kept@;
                let ghost old_defs = doc.defs@;
                let ghost o = kept@[i as int] as int;
                let ghost id = doc.defs@[i as int].id@;
                proof {
                    lemma_unused_def_is_unsupported(body0, defs0, old_defs, old_kept, i as int);
                }
                doc.defs.remove(i);
                kept.remove(i);
                proof {
                    assert forall|j: int| 0 <= j < kept@.len() implies #[trigger] kept@[j] < defs0.len() by {
                        if j < i {
                            assert(kept@[j] == old_kept[j]);
                        } else {
                            assert(kept@[j] == old_kept[j + 1]);
                        }
                    }
                    assert forall|j: int| 0 <= j < kept@.len() implies #[trigger] doc.defs@[j] == defs0[kept@[j] as int] by {
                        if j < i {
                            assert(kept@[j] == old_kept[j]);
                            assert(doc.defs@[j] == old_defs[j]);
                        } else {
                            assert(kept@[j] == old_kept[j + 1]);
                            assert(doc.defs@[j] == old_defs[j + 1]);
                        }
                    }
                    assert forall|a: int, b: int| 0 <= a < b < kept.len() implies kept[a] < kept[b] by {
                        let a0 = if a < i { a } else { a + 1 };
                        let b0 = if b < i { b } else { b + 1 };
                        assert(kept[a] == old_kept[a0]);
                        assert(kept[b] == old_kept[b0]);
                    }
                    assert forall|s: Set<int>| #[trigger] self_supporting(body0, defs0, s) implies s.subset_of(
                        positions(kept@),
                    ) by {
                        assert(s.subset_of(positions(old_kept)));
                        assert(!s.contains(o));
                        assert forall|x: int| s.contains(x) implies positions(kept@).contains(x) by {
                            assert(positions(old_kept).contains(x));
                            let k0 = choose|k0: int| 0 <= k0 < old_kept.len() && old_kept[k0] == x;
                            assert(k0 != i);
                            if k0 < i {
                                assert(kept[k0] == old_kept[k0]);
                            } else {
                                assert(kept[k0 - 1] == old_kept[k0]);
                            }
                        }
                    }
                }
                removed = true;
            } else {
                i += 1;
            }
        }
        changed = removed;
    }
    kept
}

/// The positions `0..n`.
pub open spec fn all_positions(n: nat) -> Set<int> {
    Set::new(|o: int| 0 <= o < n)
}

/// When every definition is referenced, all of them together are
/// self-supporting: running [`remove_unused_defs`] again removes nothing.
pub proof fn lemma_used_defs_are_self_supporting(body: Seq<NodeLinks>, defs: Seq<DefLinks>)
    requires
        forall|i: int| 0 <= i < defs.len() ==> doc_uses(body, defs, #[trigger] defs[i].id@),
    ensures
        self_supporting(body, defs, all_positions(defs.len())),
{
    let s = all_positions(defs.len());
    assert forall|o: int| #[trigger] s.contains(o) implies 0 <= o < defs.len() && (nodes_use(
        body,
        defs[o].id@,
    ) || chosen_defs_use(defs, s, defs[o].id@)) by {
        let id = defs[o].id@;
        assert(doc_uses(body, defs, id));
        if !nodes_use(body, id) {
            let j = choose|j: int| 0 <= j < defs.len() && #[trigger] nodes_use(defs[j].links@, id);
            assert(s.contains(j));
        }
    }
}

/// A definition that nothing references lies outside every self-supporting
/// set of definitions that the current ones contain.
proof fn lemma_unused_def_is_unsupported(
    body: Seq<NodeLinks>,
    defs0: Seq<DefLinks>,
    defs: Seq<DefLinks>,
    kept: Seq<usize>,
    i: int,
)
    requires
        kept_in_order(defs, defs0, kept),
        0 <= i < defs.len(),
        !doc_uses(body, defs, defs[i].id@),
    ensures
        forall|s: Set<int>|
            #[trigger] self_supporting(body, defs0, s) && s.subset_of(positions(kept)) ==> !s.contains(
                kept[i] as int,
            ),
{
    let o = kept[i] as int;
    let id = defs[i].id@;
    assert(defs[i] == defs0[o]);
    assert forall|s: Set<int>| #[trigger] self_supporting(body, defs0, s) && s.subset_of(
        positions(kept),
    ) implies !s.contains(o) by {
        if s.contains(o) {
            assert(nodes_use(body, defs0[o].id@) || chosen_defs_use(defs0, s, defs0[o].id@));
            let o2 = choose|o2: int|
                s.contains(o2) && 0 <= o2 < defs0.len() && #[trigger] nodes_use(defs0[o2].links@, id);
            assert(positions(kept).contains(o2));
            let i2 = choose|i2: int| 0 <= i2 < kept.len() && kept[i2] == o2;
            assert(defs[i2] == defs0[o2]);
            assert(nodes_use(defs[i2].links@, id));
        }
    }
}

/// A filter among the definitions: its ID and, for each of its primitives,
/// the element that an `feImage` primitive uses, if any.
#[derive(Clone, Debug)]
pub struct FilterImageLinks {
    pub filter_id: String,
    pub image_uses: Vec<Option<String>>,
}

/// A link that an `feImage` needs created, as the filter's ID and the ID
/// of the used element.
pub type ImageLinkView = (Seq<char>, Seq<char>);

/// `u` uses an element that the converted tree lacks (`tree_ids`) and the
/// source document has (`document_ids`).
pub open spec fn needs_link(u: Option<String>, tree_ids: Seq<String>, document_ids: Seq<String>) -> bool {
    match u {
        Some(id) => !lists(tree_ids, id@) && lists(document_ids, id@),
        None => false,
    }
}

/// The links that the primitives `uses` of the filter `filter_id` need.
pub open spec fn uses_links(
    filter_id: Seq<char>,
    uses: Seq<Option<String>>,
    tree_ids: Seq<String>,
    document_ids: Seq<String>,
) -> Seq<ImageLinkView>
    decreases uses.len(),
{
    if uses.len() == 0 {
        Seq::empty()
    } else {
        let rest = uses_links(filter_id, uses.drop_last(), tree_ids, document_ids);
        if needs_link(uses.last(), tree_ids, document_ids) {
            rest.push((filter_id, uses.last()->0@))
        } else {
            rest
        }
    }
}

/// The links that the filters need, filter by filter.
pub open spec fn filters_links(
    filters: Seq<FilterImageLinks>,
    tree_ids: Seq<String>,
    document_ids: Seq<String>,
) -> Seq<ImageLinkView>
    decreases filters.len(),
{
    if filters.len() == 0 {
        Seq::empty()
    } else {
        filters_links(filters.drop_last(), tree_ids, document_ids) + uses_links(
            filters.last().filter_id@,
            filters.last().image_uses@,
            tree_ids,
            document_ids,
        )
    }
}

/// `s` without the links that repeat the used element of the link just
/// before them.
pub open spec fn dedup_targets(s: Seq<ImageLinkView>) -> Seq<ImageLinkView>
    decreases s.len(),
{
    if s.len() == 0 {
        Seq::empty()
    } else {
        let rest = dedup_targets(s.drop_last());
        if rest.len() > 0 && rest.last().1 == s.last().1 {
            rest
        } else {
            rest.push(s.last())
        }
    }
}

/// The views of a list of links.
pub open spec fn links_view(v: Seq<(String, String)>) -> Seq<ImageLinkView> {
    v.map_values(|p: (String, String)| (p.0@, p.1@))
}

proof fn lemma_dedup_push(s: Seq<ImageLinkView>, x: ImageLinkView)
    ensures
        dedup_targets(s.push(x)) == (if dedup_targets(s).len() > 0 && dedup_targets(s).last().1 == x.1 {
            dedup_targets(s)
        } else {
            dedup_targets(s).push(x)
        }),
{
    assert(s.push(x).drop_last() =~= s);
}

proof fn lemma_uses_links_step(
    filter_id: Seq<char>,
    uses: Seq<Option<String>>,
    j: int,
    tree_ids: Seq<String>,
    document_ids: Seq<String>,
)
    requires
        0 <= j < uses.len(),
    ensures
        uses_links(filter_id, uses.take(j + 1), tree_ids, document_ids) == (if needs_link(
            uses[j],
            tree_ids,
            document_ids,
        ) {
            uses_links(filter_id, uses.take(j), tree_ids, document_ids).push((filter_id, uses[j]->0@))
        } else {
            uses_links(filter_id, uses.take(j), tree_ids, document_ids)
        }),
{
    assert(uses.take(j + 1).drop_last() =~= uses.take(j));
    assert(uses.take(j + 1).last() == uses[j]);
}

proof fn lemma_filters_links_step(
    filters: Seq<FilterImageLinks>,
    i: int,
    tree_ids: Seq<String>,
    document_ids: Seq<String>,
)
    requires
        0 <= i < filters.len(),
    ensures
        filters_links(filters.take(i + 1), tree_ids, document_ids) == filters_links(
            filters.take(i),
            tree_ids,
            document_ids,
        ) + uses_links(filters[i].filter_id@, filters[i].image_uses@, tree_ids, document_ids),
{
    assert(filters.take(i + 1).drop_last() =~= filters.take(i));
    assert(filters.take(i + 1).last() == filters[i]);
}

/// Lists the elements that `feImage` primitives use but that the converted
/// tree lacks, so that they can be converted into the definitions.
///
/// `filters` are the filters among the definitions, in order; `tree_ids`
/// are the IDs of the converted tree's nodes and definitions, and
/// `document_ids` those of the source document's elements. A use of an
/// element that the tree has, or that the document lacks, needs nothing. A
/// link that repeats the used element of the link just before it is left
/// out.
pub fn fe_image_links(
    filters: &Vec<FilterImageLinks>,
    tree_ids: &Vec<String>,
    document_ids: &Vec<String>,
) -> (r: Vec<(String, String)>)
    ensures
        links_view(r@) == dedup_targets(filters_links(filters@, tree_ids@, document_ids@)),
{
    let mut out: Vec<(String, String)> = Vec::new();
    let ghost mut raw: Seq<ImageLinkView> = Seq::empty();
    let mut i: usize = 0;
    while i < filters.len()
        invariant
            i <= filters@.len(),
            raw == filters_links(filters@.take(i as int), tree_ids@, document_ids@),
            links_view(out@) == dedup_targets(raw),
        decreases filters.len() - i,
    {
        let filter = &filters[i];
        let ghost base = raw;
        let mut j: usize = 0;
        while j < filter.image_uses.len()
            invariant
                j <= filter.image_uses@.len(),
                raw == base + uses_links(filter.filter_id@, filter.image_uses@.take(j as int), tree_ids@, document_ids@),
                links_view(out@) == dedup_targets(raw),
            decreases filter.image_uses.len() - j,
        {
            proof {
                lemma_uses_links_step(filter.filter_id@, filter.image_uses@, j as int, tree_ids@, document_ids@);
            }
            if let Some(id) = &filter.image_uses[j] {
                let in_tree = list_has(tree_ids, id.as_str());
                let in_document = list_has(document_ids, id.as_str());
                if !in_tree && in_document {
                    let link: (String, String) = (filter.filter_id.clone(), id.clone());
                    proof {
                        lemma_dedup_push(raw, (filter.filter_id@, id@));
                        assert(base + uses_links(filter.filter_id@, filter.image_uses@.take(j + 1), tree_ids@, document_ids@)
                            =~= (base + uses_links(filter.filter_id@, filter.image_uses@.take(j as int), tree_ids@, document_ids@)).push((filter.filter_id@, id@)));
                        raw = raw.push((filter.filter_id@, id@));
                    }
                    let repeats = out.len() > 0 && str_eq(out[out.len() - 1].1.as_str(), id.as_str());
                    if !repeats {
                        let ghost before = out@;
                        out.push(link);
                        proof {
                            assert(links_view(out@) =~= links_view(before).push((filter.filter_id@, id@)));
                        }
                    } else {
                        proof {
                            assert(links_view(out@).last() == (out@.last().0@, out@.last().1@));
                        }
                    }
                }
            }
            j = j + 1;
            proof {
                if !needs_link(filter.image_uses@[j - 1], tree_ids@, document_ids@) {
                    assert(base + uses_links(filter.filter_id@, filter.image_uses@.take(j as int), tree_ids@, document_ids@)
                        =~= raw);
                }
            }
        }
        proof {
            assert(filter.image_uses@.take(filter.image_uses@.len() as int) =~= filter.image_uses@);
            lemma_filters_links_step(filters@, i as int, tree_ids@, document_ids@);
        }
        i = i + 1;
    }
    proof {
        assert(filters@.take(filters@.len() as int) =~= filters@);
    }
    out
}

} // verus!
