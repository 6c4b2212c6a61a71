//! Splitting the characters of a text element into text chunks and spans.
//!
//! A text chunk is a run of characters laid out together: a new one starts
//! at the first character of the text and at every character with an
//! absolute position of its own (an `x` or `y` value). Inside a chunk, every
//! text node starts a new span, which carries the style of the node's
//! parent element. Text nodes whose style cannot be used (no font, or a font
//! size that is not positive) are skipped, but their characters still count
//! for the positions.

use vstd::prelude::*;
use crate::text_layout::{byte_offset, utf8_len};

verus! {

/// A span of a chunk: the bytes `start..end` of the chunk's text, taken
/// from the text node `node`.
#[derive(Clone, Copy, PartialEq, Eq, Debug, Structural)]
pub struct SpanPiece {
    pub start: usize,
    pub end: usize,
    pub node: usize,
}

/// A text chunk: the index, among all characters of the text, of its first
/// character (whose position places the chunk), its text and its spans.
#[derive(Clone, Debug)]
pub struct ChunkPlan {
    pub first_char: usize,
    pub text: String,
    pub spans: Vec<SpanPiece>,
}

/// The mathematical value of a [`ChunkPlan`].
pub struct SpecChunk {
    pub first_char: nat,
    pub text: Seq<char>,
    pub spans: Seq<SpanPiece>,
}

impl View for ChunkPlan {
    type V = SpecChunk;

    open spec fn view(&self) -> SpecChunk {
        SpecChunk { first_char: self.first_char as nat, text: self.text@, spans: self.spans@ }
    }
}

/// The views of a list of chunks.
pub open spec fn chunks_view(s: Seq<ChunkPlan>) -> Seq<SpecChunk> {
    s.map_values(|c: ChunkPlan| c@)
}

/// A character of a usable text node: the character, its index among all
/// characters of the text, its node, and whether it is the node's first.
#[derive(Clone, Copy, PartialEq, Eq, Debug, Structural)]
pub struct Letter {
    pub c: char,
    pub index: usize,
    pub node: usize,
    pub node_start: bool,
}

/// The letter with these fields.
pub open spec fn mk_letter(c: char, index: usize, node: usize, node_start: bool) -> Letter {
    Letter { c, index, node, node_start }
}

/// The number of characters of the text nodes `nodes`.
pub open spec fn total_chars(nodes: Seq<(&str, bool)>) -> nat
    decreases nodes.len(),
{
    if nodes.len() == 0 {
        0
    } else {
        total_chars(nodes.drop_last()) + nodes.last().0@.len()
    }
}

/// The letters of the text `text` of node `node`, whose first character has
/// the index `base`.
pub open spec fn node_letters(text: Seq<char>, node: nat, base: nat) -> Seq<Letter> {
    Seq::new(text.len(), |k: int| mk_letter(text[k], (base + k) as usize, node as usize, k == 0))
}

/// The letters of the usable text nodes among `nodes` (each with its text
/// and whether its style is usable), in order.
pub open spec fn letters(nodes: Seq<(&str, bool)>) -> Seq<Letter>
    decreases nodes.len(),
{
    if nodes.len() == 0 {
        Seq::empty()
    } else {
        let prev = nodes.drop_last();
        letters(prev) + if nodes.last().1 {
            node_letters(nodes.last().0@, (nodes.len() - 1) as nat, total_chars(prev))
        } else {
            Seq::empty()
        }
    }
}

/// The length in UTF-8 of the text `s`.
pub open spec fn byte_len(s: Seq<char>) -> nat {
    byte_offset(s, s.len() as int)
}

/// The chunks after one more letter `l`: a new chunk when the letter has an
/// absolute position or no chunk exists yet; else the letter joins the last
/// chunk, in a new span when it starts its node, in the last span otherwise.
pub open spec fn chunk_step(prev: Seq<SpecChunk>, l: Letter, absolute: Seq<bool>) -> Seq<SpecChunk> {
    let w = utf8_len(l.c);
    if absolute[l.index as int] || prev.len() == 0 {
        prev.push(
            SpecChunk {
                first_char: l.index as nat,
                text: seq![l.c],
                spans: seq![SpanPiece { start: 0, end: w as usize, node: l.node }],
            },
        )
    } else {
        let ch = prev.last();
        let b = byte_len(ch.text);
        let spans = if l.node_start {
            ch.spans.push(SpanPiece { start: b as usize, end: (b + w) as usize, node: l.node })
        } else {
            let sp = ch.spans.last();
            ch.spans.update(ch.spans.len() - 1, SpanPiece { end: (sp.end + w) as usize, ..sp })
        };
        prev.update(prev.len() - 1, SpecChunk { first_char: ch.first_char, text: ch.text.push(l.c), spans })
    }
}

/// The chunks that the letters `ls` make, given which characters have an
/// absolute position.
pub open spec fn chunked(ls: Seq<Letter>, absolute: Seq<bool>) -> Seq<SpecChunk>
    decreases ls.len(),
{
    if ls.len() == 0 {
        Seq::empty()
    } else {
        chunk_step(chunked(ls.drop_last(), absolute), ls.last(), absolute)
    }
}

proof fn lemma_byte_offset_push(s: Seq<char>, c: char)
    ensures
        byte_len(s.push(c)) == byte_len(s) + utf8_len(c),
{
    lemma_byte_offset_prefix(s.push(c), s, s.len() as int);
}

proof fn lemma_byte_offset_prefix(t: Seq<char>, s: Seq<char>, k: int)
    requires
        s.len() < t.len(),
        0 <= k <= s.len(),
        forall|j: int| 0 <= j < s.len() ==> t[j] == s[j],
    ensures
        byte_offset(t, k) == byte_offset(s, k),
    decreases k,
{
    if k > 0 {
        lemma_byte_offset_prefix(t, s, k - 1);
    }
}

proof fn lemma_letters_step(nodes: Seq<(&str, bool)>, n: int)
    requires
        0 <= n < nodes.len(),
    ensures
        nodes.take(n + 1).drop_last() == nodes.take(n),
        nodes.take(n + 1).last() == nodes[n],
        total_chars(nodes.take(n + 1)) == total_chars(nodes.take(n)) + nodes[n].0@.len(),
        letters(nodes.take(n + 1)) == letters(nodes.take(n)) + if nodes[n].1 {
            node_letters(nodes[n].0@, n as nat, total_chars(nodes.take(n)))
        } else {
            Seq::empty()
        },
{
    assert(nodes.take(n + 1).drop_last() =~= nodes.take(n));
}

proof fn lemma_total_chars_prefix(nodes: Seq<(&str, bool)>, n: int)
    requires
        0 <= n <= nodes.len(),
    ensures
        total_chars(nodes.take(n)) <= total_chars(nodes),
    decreases nodes.len() - n,
{
    if n < nodes.len() {
        lemma_letters_step(nodes, n);
        lemma_total_chars_prefix(nodes, n + 1);
    } else {
        assert(nodes.take(n) =~= nodes);
    }
}

proof fn lemma_chunked_push(ls: Seq<Letter>, l: Letter, absolute: Seq<bool>)
    ensures
        chunked(ls.push(l), absolute) == chunk_step(chunked(ls, absolute), l, absolute),
{
    assert(ls.push(l).drop_last() =~= ls);
}

/// Splits the characters of a text element into chunks and spans.
///
/// `nodes` are the text nodes of the element in document order, each with
/// its text and whether the style of its parent can be used; `absolute`
/// tells, for every character of the text (skipped nodes included), whether
/// it has an absolute position.
pub fn collect_text_chunks(nodes: &[(&str, bool)], absolute: &[bool]) -> (r: Vec<ChunkPlan>)
    requires
        total_chars(nodes@) <= absolute@.len(),
        4 * absolute@.len() <= usize::MAX,
    ensures
        chunks_view(r@) == chunked(letters(nodes@), absolute@),
{
    let mut chunks: Vec<ChunkPlan> = Vec::new();
    let mut chars_count: usize = 0;
    let mut chunk_bytes: usize = 0;
    let mut n: usize = 0;
    while n < nodes.len()
        invariant
            n <= nodes@.len(),
            total_chars(nodes@) <= absolute@.len(),
            4 * absolute@.len() <= usize::MAX,
            chars_count == total_chars(nodes@.take(n as int)),
            chunks_view(chunks@) == chunked(letters(nodes@.take(n as int)), absolute@),
            chunks@.len() > 0 ==> chunk_bytes == byte_len(chunks@.last().text@) && chunk_bytes <= 4 * chars_count
                && chunks@.last().spans@.len() > 0 && chunks@.last().spans@.last().end == chunk_bytes,
        decreases nodes.len() - n,
    {
        proof {
            lemma_letters_step(nodes@, n as int);
            lemma_total_chars_prefix(nodes@, n + 1);
        }
        let (text, usable) = nodes[n];
        let len = text.unicode_len();
        if !usable {
            chars_count = chars_count + len;
        } else {
            let ghost base = chars_count as nat;
            let ghost before = letters(nodes@.take(n as int));
            let ghost own = node_letters(text@, n as nat, base);
            let mut k: usize = 0;
            while k < len
                invariant
                    k <= len,
                    len == text@.len(),
                    base + len <= absolute@.len(),
                    4 * absolute@.len() <= usize::MAX,
                    chars_count == base + k,
                    own == node_letters(text@, n as nat, base),
                    chunks_view(chunks@) == chunked(before + own.take(k as int), absolute@),
                    chunks@.len() > 0 ==> chunk_bytes == byte_len(chunks@.last().text@) && chunk_bytes <= 4
                        * chars_count && chunks@.last().spans@.len() > 0 && chunks@.last().spans@.last().end
                        == chunk_bytes,
                decreases len - k,
            {
                let c = text.get_char(k);
                let piece = text.substring_char(k, k + 1);
                let w = char_len(c);
                let ghost l = own[k as int];
                let ghost prev = chunks_view(chunks@);
                proof {
                    assert(own.take(k + 1) =~= own.take(k as int).push(l));
                    assert(before + own.take(k + 1) =~= (before + own.take(k as int)).push(l));
                    lemma_chunked_push(before + own.take(k as int), l, absolute@);
                    assert(piece@ =~= seq![c]);
                }
                if absolute[chars_count] || chunks.len() == 0 {
                    let mut t = String::new();
                    t.append(piece);
                    let mut spans: Vec<SpanPiece> = Vec::new();
                    spans.push(SpanPiece { start: 0, end: w, node: n });
                    chunks.push(ChunkPlan { first_char: chars_count, text: t, spans });
                    chunk_bytes = w;
                    proof {
                        assert(t@ =~= seq![c]);
                        assert(byte_len(seq![c]) == utf8_len(c)) by {
                            lemma_byte_offset_push(Seq::<char>::empty(), c);
                            assert(Seq::<char>::empty().push(c) =~= seq![c]);
                        }
                        assert(chunks_view(chunks@) =~= chunk_step(prev, l, absolute@));
                    }
                } else {
                    let mut last = chunks.pop().unwrap();
                    let ghost old_last = last@;
                    proof {
                        assert(chunks_view(chunks@) =~= prev.drop_last());
                        assert(old_last == prev.last());
                        lemma_byte_offset_push(old_last.text, c);
                    }
                    last.text.append(piece);
                    if k == 0 {
                        last.spans.push(SpanPiece { start: chunk_bytes, end: chunk_bytes + w, node: n });
                    } else {
                        let mut sp = last.spans.pop().unwrap();
                        sp.end = sp.end + w;
                        last.spans.push(sp);
                    }
                    chunk_bytes = chunk_bytes + w;
                    chunks.push(last);
                    proof {
                        assert(!absolute@[l.index as int]);
                        assert(prev.len() > 0);
                        let st = chunk_step(prev, l, absolute@);
                        assert(st.len() == prev.len());
                        assert(last.spans@ =~= st.last().spans);
                        assert(last.text@ =~= st.last().text);
                        assert(last@.first_char == st.last().first_char);
                        assert(last@ == st.last());
                        assert(chunks_view(chunks@).len() == st.len());
                        assert(forall|t: int| 0 <= t < st.len() - 1 ==> chunks_view(chunks@)[t] == st[t]);
                        assert(chunks_view(chunks@) =~= chunk_step(prev, l, absolute@));
                    }
                }
                chars_count = chars_count + 1;
                k = k + 1;
            }
            proof {
                assert(own.take(len as int) =~= own);
            }
        }
        n = n + 1;
    }
    proof {
        assert(nodes@.take(nodes@.len() as int) =~= nodes@);
    }
    chunks
}

fn char_len(c: char) -> (r: usize)
    ensures
        r == utf8_len(c),
        1 <= r <= 4,
{
    let v = c as u32;
    if v < 0x80 {
        1
    } else if v < 0x800 {
        2
    } else if v < 0x10000 {
        3
    } else {
        4
    }
}

/// The spans of the chunk `ch` tile its text: they are not empty, follow
/// one another without gap or overlap, and cover its bytes from the first to
/// the last.
pub open spec fn spans_tile(ch: SpecChunk) -> bool {
    &&& ch.spans.len() > 0
    &&& ch.spans[0].start == 0
    &&& ch.spans.last().end == byte_len(ch.text)
    &&& forall|i: int| 0 <= i < ch.spans.len() ==> (#[trigger] ch.spans[i]).start < ch.spans[i].end
    &&& forall|i: int| 0 <= i < ch.spans.len() - 1 ==> (#[trigger] ch.spans[i]).end == ch.spans[i + 1].start
}

/// The texts of the chunks `cs`, one after the other.
pub open spec fn chunk_texts(cs: Seq<SpecChunk>) -> Seq<char>
    decreases cs.len(),
{
    if cs.len() == 0 {
        Seq::empty()
    } else {
        chunk_texts(cs.drop_last()) + cs.last().text
    }
}

/// The characters of the letters `ls`.
pub open spec fn letter_chars(ls: Seq<Letter>) -> Seq<char> {
    ls.map_values(|l: Letter| l.c)
}

proof fn lemma_byte_len_bound(s: Seq<char>, k: int)
    requires
        0 <= k <= s.len(),
    ensures
        k <= byte_offset(s, k) <= 4 * k,
    decreases k,
{
    if k > 0 {
        lemma_byte_len_bound(s, k - 1);
    }
}

/// Chunking keeps every character, in order, and the spans of every chunk
/// do not overlap: they tile the chunk's text.
pub proof fn lemma_chunks_keep_text_and_tile(ls: Seq<Letter>, absolute: Seq<bool>)
    requires
        4 * ls.len() <= usize::MAX,
    ensures
        chunk_texts(chunked(ls, absolute)) == letter_chars(ls),
        forall|k: int| 0 <= k < chunked(ls, absolute).len() ==> spans_tile(#[trigger] chunked(ls, absolute)[k]),
    decreases ls.len(),
{
    if ls.len() > 0 {
        let prev_ls = ls.drop_last();
        let l = ls.last();
        lemma_chunks_keep_text_and_tile(prev_ls, absolute);
        lemma_chunk_text_len(prev_ls, absolute);
        let prev = chunked(prev_ls, absolute);
        let w = utf8_len(l.c);
        assert(letter_chars(ls) =~= letter_chars(prev_ls).push(l.c));
        if absolute[l.index as int] || prev.len() == 0 {
            let ch = SpecChunk {
                first_char: l.index as nat,
                text: seq![l.c],
                spans: seq![SpanPiece { start: 0, end: w as usize, node: l.node }],
            };
            assert(chunked(ls, absolute) == prev.push(ch));
            assert(prev.push(ch).drop_last() =~= prev);
            assert(byte_len(seq![l.c]) == w) by {
                lemma_byte_offset_push(Seq::<char>::empty(), l.c);
                assert(Seq::<char>::empty().push(l.c) =~= seq![l.c]);
            }
            assert(chunk_texts(prev.push(ch)) =~= chunk_texts(prev) + seq![l.c]);
        } else {
            let ch = prev.last();
            let b = byte_len(ch.text);
            lemma_byte_len_bound(ch.text, ch.text.len() as int);
            lemma_byte_offset_push(ch.text, l.c);
            let r = chunked(ls, absolute);
            assert(r.drop_last() =~= prev.drop_last());
            assert(r.last().text == ch.text.push(l.c));
            assert(chunk_texts(r) =~= chunk_texts(prev.drop_last()) + ch.text.push(l.c));
            assert(chunk_texts(prev) == chunk_texts(prev.drop_last()) + ch.text);
            assert(chunk_texts(r) =~= letter_chars(ls));
            assert forall|k: int| 0 <= k < r.len() implies spans_tile(#[trigger] r[k]) by {
                if k < r.len() - 1 {
                    assert(r[k] == prev[k]);
                } else {
                    assert(spans_tile(prev[k]));
                    let sp = r[k].spans;
                    if l.node_start {
                        assert(sp == ch.spans.push(SpanPiece { start: b as usize, end: (b + w) as usize, node: l.node }));
                        assert(forall|i: int| 0 <= i < ch.spans.len() ==> sp[i] == ch.spans[i]);
                    } else {
                        assert(forall|i: int| 0 <= i < ch.spans.len() - 1 ==> sp[i] == ch.spans[i]);
                    }
                }
            }
        }
    }
}

/// Every chunk is no longer than the letters it was made of.
proof fn lemma_chunk_text_len(ls: Seq<Letter>, absolute: Seq<bool>)
    ensures
        forall|k: int| 0 <= k < chunked(ls, absolute).len() ==> (#[trigger] chunked(ls, absolute)[k]).text.len() <= ls.len(),
    decreases ls.len(),
{
    if ls.len() > 0 {
        lemma_chunk_text_len(ls.drop_last(), absolute);
        let prev = chunked(ls.drop_last(), absolute);
        let r = chunked(ls, absolute);
        assert forall|k: int| 0 <= k < r.len() implies (#[trigger] r[k]).text.len() <= ls.len() by {
            if k < prev.len() && !(k == prev.len() - 1 && r.len() == prev.len()) {
                assert(r[k] == prev[k]);
            }
        }
    }
}

} // verus!
