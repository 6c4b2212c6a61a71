//! Generation of element identifiers and filter result names that do not
//! clash with the ones a document already uses.

use std::collections::HashSet;
use std::collections::hash_map::DefaultHasher;
use std::hash::{Hash, Hasher};

use vstd::prelude::*;
use crate::text::{
    contains_name, decimal, lemma_name_set_len, lemma_numbered_injective,
    lemma_numbered_names_fit, name_set, numbered, push_decimal,
};

verus! {

/// The value that hashing `s` with a fresh standard-library
/// `DefaultHasher` yields.
pub uninterp spec fn spec_string_hash(s: Seq<char>) -> u64;

/// Hashes a string with `Hash::hash` for `str` into a fresh
/// `std::collections::hash_map::DefaultHasher` and returns `finish()`.
///
/// The contract only names the result: it is a function of the string
/// alone, since a `DefaultHasher` built by `new` is not seeded.
#[verifier::external_body]
fn string_hash(s: &str) -> (r: u64)
    ensures
        r == spec_string_hash(s@),
{
    let mut h = DefaultHasher::new();
    s.hash(&mut h);
    h.finish()
}

/// The `k`-th generated `clipPath` identifier.
pub open spec fn clip_path_id_text(k: nat) -> Seq<char> {
    numbered("clipPath"@, k)
}

/// The `k`-th generated `filter` identifier.
pub open spec fn filter_id_text(k: nat) -> Seq<char> {
    numbered("filter"@, k)
}

/// Generates identifiers for elements created during the conversion.
///
/// Remembers the hashes of all the identifiers of the source document and
/// never hands out an identifier with one of those hashes.
pub struct NodeIdGenerator {
    all_ids: HashSet<u64>,
    clip_path_index: usize,
    filter_index: usize,
}

/// The hashes of the non-empty identifiers among `element_ids`.
pub open spec fn document_id_hashes(element_ids: Seq<String>) -> Set<u64> {
    Set::new(
        |h: u64|
            exists|i: int|
                0 <= i < element_ids.len() && element_ids[i]@.len() > 0 && h
                    == spec_string_hash(#[trigger] element_ids[i]@),
    )
}

impl NodeIdGenerator {
    /// The hashes that generated identifiers must avoid.
    pub closed spec fn taken(&self) -> Set<u64> {
        self.all_ids@
    }

    /// The number of the last generated `clipPath` identifier.
    pub closed spec fn clip_path_counter(&self) -> nat {
        self.clip_path_index as nat
    }

    /// The number of the last generated `filter` identifier.
    pub closed spec fn filter_counter(&self) -> nat {
        self.filter_index as nat
    }

    /// Creates a generator for a document whose elements have the
    /// identifiers `element_ids` (an empty string for an element without
    /// one).
    pub fn new(element_ids: &Vec<String>) -> (r: Self)
        ensures
            r.taken() == document_id_hashes(element_ids@),
            r.clip_path_counter() == 0,
            r.filter_counter() == 0,
    {
        let mut all_ids: HashSet<u64> = HashSet::new();
        let mut i: usize = 0;
        while i < element_ids.len()
            invariant
                i <= element_ids.len(),
                all_ids@ == document_id_hashes(element_ids@.take(i as int)),
            decreases element_ids.len() - i,
        {
            let ghost before = all_ids@;
            let id = element_ids[i].as_str();
            if id.unicode_len() > 0 {
                all_ids.insert(string_hash(id));
            }
            assert(all_ids@ =~= document_id_hashes(element_ids@.take(i + 1))) by {
                let prev = element_ids@.take(i as int);
                let next = element_ids@.take(i + 1);
                assert forall|h: u64| document_id_hashes(next).contains(h) implies #[trigger] all_ids@.contains(h) by {
                    let j = choose|j: int|
                        0 <= j < next.len() && next[j]@.len() > 0 && h == spec_string_hash(#[trigger] next[j]@);
                    if j < i {
                        assert(prev[j] == next[j]);
                    }
                }
                assert forall|h: u64| #[trigger] all_ids@.contains(h) implies document_id_hashes(next).contains(h) by {
                    if before.contains(h) {
                        let j = choose|j: int|
                            0 <= j < prev.len() && prev[j]@.len() > 0 && h == spec_string_hash(#[trigger] prev[j]@);
                        assert(next[j] == prev[j]);
                    } else {
                        assert(next[i as int] == element_ids@[i as int]);
                    }
                }
            }
            i = i + 1;
        }
        assert(element_ids@.take(element_ids.len() as int) =~= element_ids@);
        NodeIdGenerator { all_ids, clip_path_index: 0, filter_index: 0 }
    }

    /// Generates the next free `clipPath` identifier.
    ///
    /// Returns the first `clipPath<n>`, with `n` greater than the previous
    /// number, whose hash is not taken. Returns `None`, with the counter at
    /// `usize::MAX`, when no such number fits a `usize`.
    pub fn gen_clip_path_id(&mut self) -> (r: Option<String>)
        ensures
            final(self).taken() == old(self).taken(),
            final(self).filter_counter() == old(self).filter_counter(),
            old(self).clip_path_counter() <= final(self).clip_path_counter(),
            forall|k: nat|
                old(self).clip_path_counter() < k < final(self).clip_path_counter()
                    ==> old(self).taken().contains(spec_string_hash(#[trigger] clip_path_id_text(k))),
            match r {
                Some(id) => {
                    &&& final(self).clip_path_counter() > old(self).clip_path_counter()
                    &&& id@ == clip_path_id_text(final(self).clip_path_counter())
                    &&& !old(self).taken().contains(spec_string_hash(id@))
                },
                None => {
                    &&& final(self).clip_path_counter() == usize::MAX
                    &&& (old(self).clip_path_counter() < usize::MAX ==> old(self).taken().contains(
                        spec_string_hash(clip_path_id_text(usize::MAX as nat)),
                    ))
                },
            },
    {
        while self.clip_path_index < usize::MAX
            invariant
                self.all_ids@ == old(self).all_ids@,
                self.filter_index == old(self).filter_index,
                old(self).clip_path_index <= self.clip_path_index,
                forall|k: nat|
                    old(self).clip_path_index < k <= self.clip_path_index
                        ==> old(self).all_ids@.contains(spec_string_hash(#[trigger] clip_path_id_text(k))),
            decreases usize::MAX - self.clip_path_index,
        {
            self.clip_path_index = self.clip_path_index + 1;
            let mut new_id = String::new();
            new_id.append("clipPath");
            push_decimal(self.clip_path_index, &mut new_id);
            assert(new_id@ =~= clip_path_id_text(self.clip_path_index as nat));
            let new_hash = string_hash(new_id.as_str());
            if !self.all_ids.contains(&new_hash) {
                return Some(new_id);
            }
        }
        None
    }

    /// Generates the next free `filter` identifier.
    ///
    /// Returns the first `filter<n>`, with `n` greater than the previous
    /// number, whose hash is not taken. Returns `None`, with the counter at
    /// `usize::MAX`, when no such number fits a `usize`.
    pub fn gen_filter_id(&mut self) -> (r: Option<String>)
        ensures
            final(self).taken() == old(self).taken(),
            final(self).clip_path_counter() == old(self).clip_path_counter(),
            old(self).filter_counter() <= final(self).filter_counter(),
            forall|k: nat|
                old(self).filter_counter() < k < final(self).filter_counter()
                    ==> old(self).taken().contains(spec_string_hash(#[trigger] filter_id_text(k))),
            match r {
                Some(id) => {
                    &&& final(self).filter_counter() > old(self).filter_counter()
                    &&& id@ == filter_id_text(final(self).filter_counter())
                    &&& !old(self).taken().contains(spec_string_hash(id@))
                },
                None => {
                    &&& final(self).filter_counter() == usize::MAX
                    &&& (old(self).filter_counter() < usize::MAX ==> old(self).taken().contains(
                        spec_string_hash(filter_id_text(usize::MAX as nat)),
                    ))
                },
            },
    {
        while self.filter_index < usize::MAX
            invariant
                self.all_ids@ == old(self).all_ids@,
                self.clip_path_index == old(self).clip_path_index,
                old(self).filter_index <= self.filter_index,
                forall|k: nat|
                    old(self).filter_index < k <= self.filter_index
                        ==> old(self).all_ids@.contains(spec_string_hash(#[trigger] filter_id_text(k))),
            decreases usize::MAX - self.filter_index,
        {
            self.filter_index = self.filter_index + 1;
            let mut new_id = String::new();
            new_id.append("filter");
            push_decimal(self.filter_index, &mut new_id);
            assert(new_id@ =~= filter_id_text(self.filter_index as nat));
            let new_hash = string_hash(new_id.as_str());
            if !self.all_ids.contains(&new_hash) {
                return Some(new_id);
            }
        }
        None
    }
}

/// Identifiers generated with different numbers differ, so a generator
/// never hands out the same `clipPath` identifier twice.
pub proof fn lemma_clip_path_ids_differ(a: nat, b: nat)
    requires
        a != b,
    ensures
        clip_path_id_text(a) != clip_path_id_text(b),
{
    if clip_path_id_text(a) == clip_path_id_text(b) {
        lemma_numbered_injective("clipPath"@, a, b);
    }
}

/// Identifiers generated with different numbers differ, so a generator
/// never hands out the same `filter` identifier twice.
pub proof fn lemma_filter_ids_differ(a: nat, b: nat)
    requires
        a != b,
    ensures
        filter_id_text(a) != filter_id_text(b),
{
    if filter_id_text(a) == filter_id_text(b) {
        lemma_numbered_injective("filter"@, a, b);
    }
}

/// A generated `clipPath` identifier is never a generated `filter`
/// identifier.
pub proof fn lemma_clip_path_and_filter_ids_differ(a: nat, b: nat)
    ensures
        clip_path_id_text(a) != filter_id_text(b),
{
    reveal_strlit("clipPath");
    reveal_strlit("filter");
    assert(clip_path_id_text(a)[0] == 'c');
    assert(filter_id_text(b)[0] == 'f');
}


/// Whether `id` is one of the identifiers listed in `a` or in `b`.
pub open spec fn id_in_use(a: Seq<String>, b: Seq<String>, id: Seq<char>) -> bool {
    (exists|i: int| 0 <= i < a.len() && #[trigger] a[i]@ == id) || (exists|i: int|
        0 <= i < b.len() && #[trigger] b[i]@ == id)
}

/// Builds `clipPath<idx>`.
fn clip_path_id(idx: usize) -> (r: String)
    ensures
        r@ == clip_path_id_text(idx as nat),
{
    let mut id = String::new();
    id.append("clipPath");
    push_decimal(idx, &mut id);
    assert(id@ =~= clip_path_id_text(idx as nat));
    id
}

/// Creates a free identifier for a `clipPath` element.
///
/// Returns `clipPath<n>` for the least `n >= 1` such that no element of
/// the document (`document_ids`) and no element already converted into
/// the definitions (`defs_ids`) has that identifier.
pub fn gen_clip_path_id(document_ids: &Vec<String>, defs_ids: &Vec<String>) -> (r: String)
    requires
        document_ids.len() + defs_ids.len() < usize::MAX,
    ensures
        exists|k: nat|
            {
                &&& k >= 1
                &&& r@ == #[trigger] clip_path_id_text(k)
                &&& !id_in_use(document_ids@, defs_ids@, r@)
                &&& forall|j: nat|
                    1 <= j < k ==> id_in_use(document_ids@, defs_ids@, #[trigger] clip_path_id_text(j))
            },
{
    let ghost pool = name_set(document_ids@).union(name_set(defs_ids@));
    proof {
        lemma_name_set_len(document_ids@);
        lemma_name_set_len(defs_ids@);
        vstd::set_lib::lemma_len_union(name_set(document_ids@), name_set(defs_ids@));
    }
    let mut idx: usize = 1;
    let mut id = clip_path_id(idx);
    while contains_name(document_ids, id.as_str()) || contains_name(defs_ids, id.as_str())
        invariant
            pool == name_set(document_ids@).union(name_set(defs_ids@)),
            pool.finite(),
            pool.len() <= document_ids.len() + defs_ids.len(),
            document_ids.len() + defs_ids.len() < usize::MAX,
            forall|i: int| 0 <= i < document_ids.len() ==> name_set(document_ids@).contains(#[trigger] document_ids@[i]@),
            forall|i: int| 0 <= i < defs_ids.len() ==> name_set(defs_ids@).contains(#[trigger] defs_ids@[i]@),
            1 <= idx <= document_ids.len() + defs_ids.len() + 1,
            id@ == clip_path_id_text(idx as nat),
            forall|j: nat| 1 <= j < idx ==> id_in_use(document_ids@, defs_ids@, #[trigger] clip_path_id_text(j)),
        decreases document_ids.len() + defs_ids.len() + 1 - idx,
    {
        proof {
            assert forall|j: int| 1 <= j < idx + 1 implies pool.contains(
                #[trigger] numbered("clipPath"@, j as nat),
            ) by {
                assert(id_in_use(document_ids@, defs_ids@, clip_path_id_text(j as nat)));
            }
            lemma_numbered_names_fit("clipPath"@, 1, idx + 1, pool);
        }
        idx = idx + 1;
        id = clip_path_id(idx);
    }
    id
}

/// The `k`-th generated paint server identifier.
pub open spec fn paint_server_id_text(k: nat) -> Seq<char> {
    numbered("usvg"@, k)
}

/// Builds `usvg<idx>`.
fn paint_server_id(idx: usize) -> (r: String)
    ensures
        r@ == paint_server_id_text(idx as nat),
{
    let mut id = String::new();
    id.append("usvg");
    push_decimal(idx, &mut id);
    assert(id@ =~= paint_server_id_text(idx as nat));
    id
}

/// Creates a free identifier for a paint server.
///
/// Returns `usvg<n>` for the least `n >= 1` such that no element among the
/// definitions (`defs_ids`) has that identifier.
pub fn gen_paint_server_id(defs_ids: &Vec<String>) -> (r: String)
    requires
        defs_ids.len() < usize::MAX,
    ensures
        exists|k: nat|
            {
                &&& k >= 1
                &&& r@ == #[trigger] paint_server_id_text(k)
                &&& !name_listed(defs_ids@, r@)
                &&& forall|j: nat| 1 <= j < k ==> name_listed(defs_ids@, #[trigger] paint_server_id_text(j))
            },
{
    let ghost pool = name_set(defs_ids@);
    proof {
        lemma_name_set_len(defs_ids@);
    }
    let mut idx: usize = 1;
    let mut id = paint_server_id(idx);
    while contains_name(defs_ids, id.as_str())
        invariant
            pool == name_set(defs_ids@),
            pool.finite(),
            pool.len() <= defs_ids.len(),
            defs_ids.len() < usize::MAX,
            forall|i: int| 0 <= i < defs_ids.len() ==> pool.contains(#[trigger] defs_ids@[i]@),
            1 <= idx <= defs_ids.len() + 1,
            id@ == paint_server_id_text(idx as nat),
            forall|j: nat| 1 <= j < idx ==> name_listed(defs_ids@, #[trigger] paint_server_id_text(j)),
        decreases defs_ids.len() + 1 - idx,
    {
        proof {
            assert forall|j: int| 1 <= j < idx + 1 implies pool.contains(
                #[trigger] numbered("usvg"@, j as nat),
            ) by {
                assert(name_listed(defs_ids@, paint_server_id_text(j as nat)));
            }
            lemma_numbered_names_fit("usvg"@, 1, idx + 1, pool);
        }
        idx = idx + 1;
        id = paint_server_id(idx);
    }
    id
}

/// The result names already used by the primitives of a filter, and the
/// number of the next generated name.
pub struct FilterResults {
    pub names: Vec<String>,
    pub idx: usize,
}

/// The `k`-th generated filter result name.
pub open spec fn result_name_text(k: nat) -> Seq<char> {
    numbered("result"@, k)
}

/// Whether `name` is among `names`.
pub open spec fn name_listed(names: Seq<String>, name: Seq<char>) -> bool {
    exists|i: int| 0 <= i < names.len() && #[trigger] names[i]@ == name
}

/// Picks the `result` name of a filter primitive.
///
/// A primitive with a `result` attribute (`result_attr`) keeps it, and the
/// name is remembered. Otherwise the name is `result<n>` for the least
/// `n` from `results.idx` on that is not remembered.
pub fn gen_result(result_attr: Option<&str>, results: &mut FilterResults) -> (r: String)
    requires
        old(results).idx + old(results).names.len() < usize::MAX,
    ensures
        match result_attr {
            Some(s) => {
                &&& r@ == s@
                &&& final(results).idx == old(results).idx + 1
                &&& name_set(final(results).names@) == name_set(old(results).names@).insert(s@)
                &&& final(results).names.len() <= old(results).names.len() + 1
            },
            None => {
                &&& final(results).names@ == old(results).names@
                &&& final(results).idx > old(results).idx
                &&& r@ == result_name_text((final(results).idx - 1) as nat)
                &&& !name_listed(old(results).names@, r@)
                &&& forall|j: nat|
                    old(results).idx <= j < final(results).idx - 1 ==> name_listed(
                        old(results).names@,
                        #[trigger] result_name_text(j),
                    )
            },
        },
{
    match result_attr {
        Some(s) => {
            let ghost old_names = results.names@;
            if !contains_name(&results.names, s) {
                results.names.push(s.to_owned());
            }
            proof {
                lemma_name_set_len(old_names);
                lemma_name_set_len(results.names@);
                assert(name_set(results.names@) =~= name_set(old_names).insert(s@)) by {
                    let nv = results.names@.map_values(|x: String| x@);
                    let ov = old_names.map_values(|x: String| x@);
                    assert forall|n: Seq<char>| name_set(results.names@).contains(n) implies
                        name_set(old_names).insert(s@).contains(n) by {
                        let i = choose|i: int| 0 <= i < nv.len() && nv[i] == n;
                        if i < old_names.len() {
                            assert(results.names@[i] == old_names[i]);
                        }
                    }
                    assert forall|n: Seq<char>| name_set(old_names).insert(s@).contains(n) implies
                        name_set(results.names@).contains(n) by {
                        if n != s@ {
                            let i = choose|i: int| 0 <= i < ov.len() && ov[i] == n;
                            assert(results.names@[i] == old_names[i]);
                            assert(nv[i] == n);
                        } else if results.names@.len() > old_names.len() {
                            assert(nv[old_names.len() as int] == n);
                        } else {
                            let i = choose|i: int| 0 <= i < old_names.len() && #[trigger] old_names[i]@ == s@;
                            assert(nv[i] == n);
                        }
                    }
                }
            }
            results.idx = results.idx + 1;
            s.to_owned()
        },
        None => {
            let ghost pool = name_set(results.names@);
            let ghost start = results.idx;
            proof {
                lemma_name_set_len(results.names@);
            }
            loop
                invariant
                    result_attr is None,
                    pool == name_set(results.names@),
                    pool.finite(),
                    pool.len() <= results.names.len(),
                    forall|i: int| 0 <= i < results.names.len() ==> pool.contains(#[trigger] results.names@[i]@),
                    results.names@ == old(results).names@,
                    start == old(results).idx,
                    start + results.names.len() < usize::MAX,
                    start <= results.idx <= start + results.names.len(),
                    forall|j: nat| start <= j < results.idx ==> name_listed(
                        results.names@,
                        #[trigger] result_name_text(j),
                    ),
                decreases start + results.names.len() + 1 - results.idx,
            {
                let mut name = String::new();
                name.append("result");
                push_decimal(results.idx, &mut name);
                assert(name@ =~= result_name_text(results.idx as nat));
                results.idx = results.idx + 1;
                if !contains_name(&results.names, name.as_str()) {
                    return name;
                }
                proof {
                    assert forall|j: int| start <= j < results.idx implies pool.contains(
                        #[trigger] numbered("result"@, j as nat),
                    ) by {
                        assert(name_listed(results.names@, result_name_text(j as nat)));
                    }
                    lemma_numbered_names_fit("result"@, start as int, results.idx as int, pool);
                }
            }
        },
    }
}

} // verus!
