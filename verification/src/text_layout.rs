//! Byte positions in text, the spans that cover them, and the grouping of
//! shaped glyphs into clusters.

use vstd::prelude::*;

verus! {

/// The number of bytes that `c` takes in UTF-8.
pub open spec fn utf8_len(c: char) -> nat {
    if (c as u32) < 0x80 {
        1
    } else if (c as u32) < 0x800 {
        2
    } else if (c as u32) < 0x10000 {
        3
    } else {
        4
    }
}

/// The byte offset, in UTF-8, of the character at position `k` of `s`.
pub open spec fn byte_offset(s: Seq<char>, k: int) -> nat
    decreases k,
{
    if k <= 0 || s.len() == 0 {
        0
    } else if k > s.len() {
        byte_offset(s, s.len() as int)
    } else {
        byte_offset(s, k - 1) + utf8_len(s[k - 1])
    }
}

fn char_utf8_len(c: char) -> (r: u32)
    ensures
        r == utf8_len(c),
{
    let v = c as u32;
    if v < 0x80 {
        1
    } else if v < 0x800 {
        2
    } else if v < 0x10000 {
        3
    } else {
        4
    }
}

/// Converts the byte position `byte` of `text` into a position in
/// characters: the number of characters that start before it. A position
/// that is not the start of a character gives the number of characters.
pub fn code_point_at(text: &str, byte: usize) -> (r: usize)
    ensures
        r <= text@.len(),
        r == text@.len() || byte_offset(text@, r as int) == byte,
        forall|k: int| 0 <= k < r ==> #[trigger] byte_offset(text@, k) != byte,
{
    let n = text.unicode_len();
    let mut k: usize = 0;
    let mut offset: u128 = 0;
    while k < n
        invariant
            n == text@.len(),
            k <= n,
            offset == byte_offset(text@, k as int),
            offset <= 4 * k,
            forall|j: int| 0 <= j < k ==> #[trigger] byte_offset(text@, j) != byte,
        decreases n - k,
    {
        if offset == byte as u128 {
            return k;
        }
        let c = text.get_char(k);
        offset = offset + char_utf8_len(c) as u128;
        k = k + 1;
    }
    k
}

/// The character that starts at the byte position `byte` of `text`.
pub fn char_from(text: &str, byte: usize) -> (r: char)
    requires
        exists|k: int| 0 <= k < text@.len() && #[trigger] byte_offset(text@, k) == byte,
    ensures
        exists|k: int| 0 <= k < text@.len() && #[trigger] byte_offset(text@, k) == byte && r == text@[k],
{
    let k = code_point_at(text, byte);
    proof {
        let w = choose|w: int| 0 <= w < text@.len() && #[trigger] byte_offset(text@, w) == byte;
        assert(!(w < k));
    }
    text.get_char(k)
}

/// The byte range of a text span, from `start` up to `end`.
#[derive(Clone, Copy, PartialEq, Eq, Debug, Structural)]
pub struct SpanRange {
    pub start: usize,
    pub end: usize,
}

/// The span covers the byte position `byte`.
pub open spec fn spec_span_contains(span: SpanRange, byte: usize) -> bool {
    span.start <= byte < span.end
}

/// Checks whether the span covers the byte position `byte_offset`.
pub fn span_contains(span: &SpanRange, byte_offset: usize) -> (r: bool)
    ensures
        r == spec_span_contains(*span, byte_offset),
{
    byte_offset >= span.start && byte_offset < span.end
}

/// Finds the first span of a text chunk that covers the byte position
/// `byte_offset`, by its index.
pub fn chunk_span_at(spans: &[SpanRange], byte_offset: usize) -> (r: Option<usize>)
    ensures
        match r {
            Some(i) => i < spans@.len() && spec_span_contains(spans@[i as int], byte_offset)
                && forall|j: int| 0 <= j < i ==> !spec_span_contains(#[trigger] spans@[j], byte_offset),
            None => forall|j: int| 0 <= j < spans@.len() ==> !spec_span_contains(#[trigger] spans@[j], byte_offset),
        },
{
    let mut i: usize = 0;
    while i < spans.len()
        invariant
            i <= spans@.len(),
            forall|j: int| 0 <= j < i ==> !spec_span_contains(#[trigger] spans@[j], byte_offset),
        decreases spans.len() - i,
    {
        if span_contains(&spans[i], byte_offset) {
            return Some(i);
        }
        i = i + 1;
    }
    None
}

/// `start..end` is a cluster of `glyphs`: a nonempty run of glyphs that map
/// to the same byte position, that no longer run starting at `start`
/// extends.
pub open spec fn is_cluster(glyphs: Seq<usize>, start: int, end: int) -> bool {
    &&& 0 <= start < end <= glyphs.len()
    &&& forall|k: int| start <= k < end ==> #[trigger] glyphs[k] == glyphs[start]
    &&& end == glyphs.len() || glyphs[end] != glyphs[start]
}

/// An iterator over glyph clusters: runs of consecutive glyphs with the same
/// byte position in the text. `glyphs` holds the byte position of each
/// shaped glyph.
pub struct GlyphClusters<'a> {
    data: &'a [usize],
    idx: usize,
}

impl<'a> GlyphClusters<'a> {
    #[verifier::type_invariant]
    spec fn well_formed(self) -> bool {
        self.idx <= self.data@.len()
    }

    /// The byte positions of the glyphs.
    pub closed spec fn glyphs(self) -> Seq<usize> {
        self.data@
    }

    /// The index of the first glyph not yet handed out.
    pub closed spec fn position(self) -> nat {
        self.idx as nat
    }

    /// Creates an iterator over the clusters of `data`.
    pub fn new(data: &'a [usize]) -> (r: Self)
        ensures
            r.glyphs() == data@,
            r.position() == 0,
    {
        GlyphClusters { data, idx: 0 }
    }

    /// Returns the next cluster, as the range of its glyphs and its byte
    /// position, or `None` when all glyphs were handed out.
    pub fn next(&mut self) -> (r: Option<(usize, usize, usize)>)
        ensures
            final(self).glyphs() == old(self).glyphs(),
            final(self).position() <= final(self).glyphs().len(),
            match r {
                None => old(self).position() == old(self).glyphs().len() && final(self).position()
                    == old(self).position(),
                Some((start, end, byte)) => {
                    &&& start == old(self).position()
                    &&& end == final(self).position()
                    &&& is_cluster(old(self).glyphs(), start as int, end as int)
                    &&& byte == old(self).glyphs()[start as int]
                },
            },
    {
        proof {
            use_type_invariant(&*self);
        }
        if self.idx == self.data.len() {
            return None;
        }
        let start = self.idx;
        let cluster = self.data[start];
        let mut end = start;
        while end < self.data.len()
            invariant
                start < self.data@.len(),
                start <= end <= self.data@.len(),
                cluster == self.data@[start as int],
                forall|k: int| start <= k < end ==> #[trigger] self.data@[k] == cluster,
            ensures
                start <= end <= self.data@.len(),
                forall|k: int| start <= k < end ==> #[trigger] self.data@[k] == cluster,
                end == self.data@.len() || self.data@[end as int] != cluster,
            decreases self.data.len() - end,
        {
            if self.data[end] != cluster {
                break;
            }
            end = end + 1;
        }
        self.idx = end;
        Some((start, end, cluster))
    }
}

/// The clusters `runs` cover the glyphs `glyphs` in order: each one is a
/// cluster, the first starts at the first glyph, each starts where the
/// previous one ends, and the last one ends at the last glyph.
pub open spec fn clusters_cover(glyphs: Seq<usize>, runs: Seq<(usize, usize, usize)>) -> bool {
    &&& forall|i: int|
        0 <= i < runs.len() ==> is_cluster(glyphs, (#[trigger] runs[i]).0 as int, runs[i].1 as int)
            && runs[i].2 == glyphs[runs[i].0 as int]
    &&& runs.len() == 0 ==> glyphs.len() == 0
    &&& runs.len() > 0 ==> runs[0].0 == 0 && runs.last().1 == glyphs.len()
    &&& forall|i: int| 0 < i < runs.len() ==> (#[trigger] runs[i]).0 == runs[i - 1].1
}

/// Splits shaped glyphs into their clusters.
pub fn glyph_clusters(data: &[usize]) -> (r: Vec<(usize, usize, usize)>)
    ensures
        clusters_cover(data@, r@),
{
    let mut it = GlyphClusters::new(data);
    let mut runs: Vec<(usize, usize, usize)> = Vec::new();
    loop
        invariant
            it.glyphs() == data@,
            it.position() <= data@.len(),
            forall|i: int|
                0 <= i < runs.len() ==> is_cluster(data@, (#[trigger] runs@[i]).0 as int, runs@[i].1 as int)
                    && runs@[i].2 == data@[runs@[i].0 as int],
            runs.len() == 0 ==> it.position() == 0,
            runs.len() > 0 ==> runs@[0].0 == 0 && runs@.last().1 == it.position(),
            forall|i: int| 0 < i < runs.len() ==> (#[trigger] runs@[i]).0 == runs@[i - 1].1,
        ensures
            clusters_cover(data@, runs@),
        decreases data@.len() - it.position(),
    {
        let ghost before = runs@;
        match it.next() {
            None => {
                break;
            },
            Some(run) => {
                runs.push(run);
                proof {
                    assert(runs@.drop_last() == before);
                }
            },
        }
    }
    runs
}

/// What the decoration of a span reads of a laid out cluster: whether the
/// cluster belongs to the span, and whether it was moved by a position of
/// its own (`x`, `y`, `dx`, `dy` or `rotate`), which starts a new piece of
/// decoration.
#[derive(Clone, Copy, PartialEq, Eq, Debug, Structural)]
pub struct ClusterMark {
    pub in_span: bool,
    pub has_relative_shift: bool,
}

/// A piece of decoration starts at cluster `i`: it belongs to the span, and
/// either follows a cluster that does not or was moved on its own.
pub open spec fn is_piece_start(c: Seq<ClusterMark>, i: int) -> bool {
    &&& 0 <= i < c.len()
    &&& c[i].in_span
    &&& (i == 0 || !c[i - 1].in_span || c[i].has_relative_shift)
}

/// Clusters `start..end` make one piece of decoration: it starts at
/// `start`, goes on through clusters of the span that were not moved on
/// their own, and stops before the first that is not such a cluster.
pub open spec fn is_piece(c: Seq<ClusterMark>, start: int, end: int) -> bool {
    &&& is_piece_start(c, start)
    &&& start < end <= c.len()
    &&& forall|j: int| start < j < end ==> (#[trigger] c[j]).in_span && !c[j].has_relative_shift
    &&& (end == c.len() || !c[end].in_span || c[end].has_relative_shift)
}

/// Splits the clusters of a text chunk into the pieces that a span's
/// decoration (underline, overline, line-through) is drawn as, each given
/// as its range of cluster indices; every piece is drawn as one rectangle.
/// The pieces come in order and every piece start is the start of one.
pub fn collect_decoration_spans(clusters: &[ClusterMark]) -> (r: Vec<(usize, usize)>)
    ensures
        forall|k: int| 0 <= k < r@.len() ==> is_piece(clusters@, (#[trigger] r@[k]).0 as int, r@[k].1 as int),
        forall|k: int, l: int| 0 <= k < l < r@.len() ==> (#[trigger] r@[k]).1 <= (#[trigger] r@[l]).0,
        forall|i: int| #[trigger] is_piece_start(clusters@, i) ==> exists|k: int|
            0 <= k < r@.len() && (#[trigger] r@[k]).0 == i,
{
    let ghost c = clusters@;
    let mut out: Vec<(usize, usize)> = Vec::new();
    let mut started = false;
    let mut start: usize = 0;
    let mut i: usize = 0;
    while i < clusters.len()
        invariant
            c == clusters@,
            i <= c.len(),
            started == (i > 0 && c[i - 1].in_span),
            started ==> start < i && is_piece_start(c, start as int) && forall|j: int|
                start < j < i ==> (#[trigger] c[j]).in_span && !c[j].has_relative_shift,
            forall|k: int| 0 <= k < out@.len() ==> is_piece(c, (#[trigger] out@[k]).0 as int, out@[k].1 as int),
            forall|k: int| 0 <= k < out@.len() ==> (#[trigger] out@[k]).1 <= i,
            started ==> forall|k: int| 0 <= k < out@.len() ==> (#[trigger] out@[k]).1 <= start,
            forall|k: int, l: int| 0 <= k < l < out@.len() ==> (#[trigger] out@[k]).1 <= (#[trigger] out@[l]).0,
            forall|s: int| 0 <= s < i && #[trigger] is_piece_start(c, s) && !(started && s == start) ==> exists|k: int|
                0 <= k < out@.len() && (#[trigger] out@[k]).0 == s,
        decreases clusters.len() - i,
    {
        let m = clusters[i];
        let ghost old_out = out@;
        let ghost old_started = started;
        let ghost old_start = start;
        if m.in_span {
            if started && m.has_relative_shift {
                out.push((start, i));
                started = false;
                proof {
                    assert(is_piece(c, start as int, i as int));
                }
            }
            if !started {
                start = i;
                started = true;
            }
        } else if started {
            out.push((start, i));
            started = false;
            proof {
                assert(is_piece(c, start as int, i as int));
            }
        }
        proof {
            assert(forall|k: int| 0 <= k < old_out.len() ==> out@[k] == old_out[k]);
            assert forall|t: int| 0 <= t < i + 1 && #[trigger] is_piece_start(c, t) && !(started && t == start) implies exists|k: int|
                0 <= k < out@.len() && (#[trigger] out@[k]).0 == t by {
                if t < i {
                    if !(old_started && t == old_start) {
                        let k = choose|k: int| 0 <= k < old_out.len() && (#[trigger] old_out[k]).0 == t;
                        assert(out@[k] == old_out[k]);
                    } else {
                        assert(out@.len() == old_out.len() + 1);
                        assert(out@[old_out.len() as int].0 == t);
                    }
                }
            }
        }
        i = i + 1;
    }
    let ghost before = out@;
    if started {
        out.push((start, i));
        proof {
            assert(forall|k: int| 0 <= k < before.len() ==> out@[k] == before[k]);
            assert(out@[before.len() as int].0 == start);
        }
    }
    out
}

} // verus!
