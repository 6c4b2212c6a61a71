//! Per-character positions and rotations of a text element.
//!
//! The lists given on a text element and its `tspan` descendants (`x`, `y`,
//! `dx`, `dy`, `rotate`) are spread over the characters of the whole text.
//! The text is seen as its descendants in document order, the text element
//! itself first: elements with the number of characters inside them and
//! the list of one attribute, if they have it, and the text nodes with
//! their numbers of characters. `T` is the type of a list value.

use vstd::prelude::*;

verus! {

/// A descendant of a text element.
#[derive(Clone, Debug)]
pub enum TextEvent<T> {
    /// An element with the number of characters inside it, and the values
    /// of the attribute being resolved, if it has it.
    Element { chars: usize, values: Option<Vec<T>> },
    /// A text node with its number of characters.
    Text { chars: usize },
}

/// The characters of the text nodes among `ev`.
pub open spec fn text_chars<T>(ev: Seq<TextEvent<T>>) -> nat
    decreases ev.len(),
{
    if ev.len() == 0 {
        0
    } else {
        text_chars(ev.drop_last()) + match ev.last() {
            TextEvent::Text { chars } => chars as nat,
            _ => 0,
        }
    }
}

/// The smaller of two numbers.
pub open spec fn min_nat(a: nat, b: nat) -> nat {
    if a <= b {
        a
    } else {
        b
    }
}

/// Every list of the elements among `ev` fits in the text: the values that
/// an element gives its characters (one per character, as far as the list
/// goes) land inside the text.
pub open spec fn positions_fit<T>(ev: Seq<TextEvent<T>>) -> bool {
    forall|k: int|
        0 <= k < ev.len() ==> match #[trigger] ev[k] {
            TextEvent::Element { chars, values: Some(v) } => text_chars(ev.take(k)) + min_nat(v@.len(), chars as nat)
                <= text_chars(ev),
            _ => true,
        }
}

/// The position of each of the `total` characters after the descendants
/// `ev` were read: the value that the last element covering the character
/// gave it, or nothing.
pub open spec fn positions<T>(ev: Seq<TextEvent<T>>, total: nat) -> Seq<Option<T>>
    decreases ev.len(),
{
    if ev.len() == 0 {
        Seq::new(total, |j: int| None)
    } else {
        let prev = positions(ev.drop_last(), total);
        match ev.last() {
            TextEvent::Element { chars, values: Some(v) } => {
                let o = text_chars(ev.drop_last()) as int;
                let n = min_nat(v@.len(), chars as nat) as int;
                Seq::new(total, |j: int| if o <= j < o + n { Some(v@[j - o]) } else { prev[j] })
            },
            _ => prev,
        }
    }
}

proof fn lemma_text_chars_prefix<T>(ev: Seq<TextEvent<T>>, k: int)
    requires
        0 <= k <= ev.len(),
    ensures
        text_chars(ev.take(k)) <= text_chars(ev),
    decreases ev.len() - k,
{
    if k < ev.len() {
        lemma_text_chars_prefix(ev, k + 1);
        assert(ev.take(k + 1).drop_last() =~= ev.take(k));
    } else {
        assert(ev.take(k) =~= ev);
    }
}

proof fn lemma_take_step<T>(ev: Seq<TextEvent<T>>, i: int)
    requires
        0 <= i < ev.len(),
    ensures
        ev.take(i + 1).drop_last() == ev.take(i),
        ev.take(i + 1).last() == ev[i],
{
    assert(ev.take(i + 1).drop_last() =~= ev.take(i));
}

/// Counts the characters of the text nodes among `ev`.
fn count_text_chars<T>(ev: &[TextEvent<T>]) -> (r: usize)
    requires
        text_chars(ev@) <= usize::MAX,
    ensures
        r == text_chars(ev@),
{
    let mut total: usize = 0;
    let mut i: usize = 0;
    while i < ev.len()
        invariant
            i <= ev@.len(),
            total == text_chars(ev@.take(i as int)),
            text_chars(ev@) <= usize::MAX,
        decreases ev.len() - i,
    {
        proof {
            lemma_take_step(ev@, i as int);
            lemma_text_chars_prefix(ev@, i + 1);
        }
        if let TextEvent::Text { chars } = &ev[i] {
            total = total + *chars;
        }
        i = i + 1;
    }
    proof {
        assert(ev@.take(ev@.len() as int) =~= ev@);
    }
    total
}

/// Spreads a position list (`x`, `y`, `dx` or `dy`) over the characters of
/// a text: each element gives its values to its own characters, one each,
/// as far as its list goes; a later (inner) element overrides an earlier
/// one; characters that no list reaches get nothing.
pub fn resolve_positions_list<T: Copy>(ev: &[TextEvent<T>]) -> (r: Vec<Option<T>>)
    requires
        text_chars(ev@) <= usize::MAX,
        positions_fit(ev@),
    ensures
        r@ == positions(ev@, text_chars(ev@)),
{
    let total = count_text_chars(ev);
    let ghost tot = total as nat;
    let mut list: Vec<Option<T>> = Vec::new();
    let mut j: usize = 0;
    while j < total
        invariant
            j <= total,
            list@ == Seq::new(j as nat, |k: int| None::<T>),
        decreases total - j,
    {
        list.push(None);
        j = j + 1;
        proof {
            assert(list@ =~= Seq::new(j as nat, |k: int| None::<T>));
        }
    }
    assert(list@ =~= positions(ev@.take(0), tot));
    let mut offset: usize = 0;
    let mut i: usize = 0;
    while i < ev.len()
        invariant
            i <= ev@.len(),
            tot == text_chars(ev@),
            tot <= usize::MAX,
            list@.len() == tot,
            positions_fit(ev@),
            offset == text_chars(ev@.take(i as int)),
            list@ == positions(ev@.take(i as int), tot),
        decreases ev.len() - i,
    {
        proof {
            lemma_take_step(ev@, i as int);
            lemma_text_chars_prefix(ev@, i + 1);
        }
        let ghost prev = list@;
        match &ev[i] {
            TextEvent::Element { chars, values } => {
                if let Some(v) = values {
                    let n = if v.len() < *chars {
                        v.len()
                    } else {
                        *chars
                    };
                    assert(ev@[i as int] matches TextEvent::Element { chars: c, values: Some(w) } && c == *chars && w == *v);
                    assert(offset + n <= tot);
                    let mut k: usize = 0;
                    while k < n
                        invariant
                            k <= n,
                            n <= v@.len(),
                            offset + n <= tot,
                            tot <= usize::MAX,
                            list@.len() == tot,
                            forall|t: int| 0 <= t < tot ==> #[trigger] list@[t] == if offset <= t < offset + k {
                                Some(v@[t - offset])
                            } else {
                                prev[t]
                            },
                        decreases n - k,
                    {
                        list.set(offset + k, Some(v[k]));
                        k = k + 1;
                    }
                    proof {
                        assert(list@ =~= positions(ev@.take(i + 1), tot));
                    }
                }
            },
            TextEvent::Text { chars } => {
                offset = offset + *chars;
            },
        }
        i = i + 1;
    }
    proof {
        assert(ev@.take(ev@.len() as int) =~= ev@);
    }
    list
}

/// The rotations of the `total` characters after the descendants `ev` were
/// read, with the last rotation given: each element with a `rotate` list
/// gives its values to its own characters, one each, and the characters
/// past the end of the list get the last value of the list (or, for an
/// empty list, the last rotation given before).
pub open spec fn rotations<T>(ev: Seq<TextEvent<T>>, total: nat, zero: T) -> (Seq<T>, T)
    decreases ev.len(),
{
    if ev.len() == 0 {
        (Seq::new(total, |j: int| zero), zero)
    } else {
        let (prev, last) = rotations(ev.drop_last(), total, zero);
        match ev.last() {
            TextEvent::Element { chars, values: Some(v) } => {
                let o = text_chars(ev.drop_last()) as int;
                let fill = if v@.len() > 0 { v@.last() } else { last };
                let list = Seq::new(
                    total,
                    |j: int|
                        if o <= j < o + chars {
                            if j - o < v@.len() { v@[j - o] } else { fill }
                        } else {
                            prev[j]
                        },
                );
                let new_last = if chars == 0 || v@.len() == 0 {
                    last
                } else {
                    v@[min_nat(chars as nat, v@.len()) - 1]
                };
                (list, new_last)
            },
            _ => (prev, last),
        }
    }
}

/// Every element with a `rotate` list among `ev` lies inside the text.
pub open spec fn rotations_fit<T>(ev: Seq<TextEvent<T>>) -> bool {
    forall|k: int|
        0 <= k < ev.len() ==> match #[trigger] ev[k] {
            TextEvent::Element { chars, values: Some(v) } => text_chars(ev.take(k)) + chars <= text_chars(ev),
            _ => true,
        }
}

/// Spreads the `rotate` lists over the characters of a text. Characters
/// that no list reaches get `zero`.
pub fn resolve_rotate_list<T: Copy>(ev: &[TextEvent<T>], zero: T) -> (r: Vec<T>)
    requires
        text_chars(ev@) <= usize::MAX,
        rotations_fit(ev@),
    ensures
        r@ == rotations(ev@, text_chars(ev@), zero).0,
{
    let total = count_text_chars(ev);
    let ghost tot = total as nat;
    let mut list: Vec<T> = Vec::new();
    let mut j: usize = 0;
    while j < total
        invariant
            j <= total,
            list@ == Seq::new(j as nat, |k: int| zero),
        decreases total - j,
    {
        list.push(zero);
        j = j + 1;
        proof {
            assert(list@ =~= Seq::new(j as nat, |k: int| zero));
        }
    }
    assert(list@ =~= rotations(ev@.take(0), tot, zero).0);
    let mut last = zero;
    let mut offset: usize = 0;
    let mut i: usize = 0;
    while i < ev.len()
        invariant
            i <= ev@.len(),
            tot == text_chars(ev@),
            tot <= usize::MAX,
            list@.len() == tot,
            rotations_fit(ev@),
            offset == text_chars(ev@.take(i as int)),
            list@ == rotations(ev@.take(i as int), tot, zero).0,
            last == rotations(ev@.take(i as int), tot, zero).1,
        decreases ev.len() - i,
    {
        proof {
            lemma_take_step(ev@, i as int);
            lemma_text_chars_prefix(ev@, i + 1);
        }
        let ghost prev = list@;
        let ghost prev_last = last;
        match &ev[i] {
            TextEvent::Element { chars, values } => {
                if let Some(v) = values {
                    assert(ev@[i as int] matches TextEvent::Element { chars: c, values: Some(w) } && c == *chars && w == *v);
                    assert(offset + *chars <= tot);
                    let ghost fill = if v@.len() > 0 { v@.last() } else { prev_last };
                    let mut k: usize = 0;
                    while k < *chars
                        invariant
                            k <= *chars,
                            offset + *chars <= tot,
                            tot <= usize::MAX,
                            list@.len() == tot,
                            fill == if v@.len() > 0 { v@.last() } else { prev_last },
                            last == if k == 0 || v@.len() == 0 {
                                prev_last
                            } else {
                                v@[min_nat(k as nat, v@.len()) - 1]
                            },
                            forall|t: int| 0 <= t < tot ==> #[trigger] list@[t] == if offset <= t < offset + k {
                                if t - offset < v@.len() { v@[t - offset] } else { fill }
                            } else {
                                prev[t]
                            },
                        decreases *chars - k,
                    {
                        if k < v.len() {
                            list.set(offset + k, v[k]);
                            last = v[k];
                        } else {
                            list.set(offset + k, last);
                        }
                        k = k + 1;
                    }
                    proof {
                        assert(list@ =~= rotations(ev@.take(i + 1), tot, zero).0);
                    }
                }
            },
            TextEvent::Text { chars } => {
                offset = offset + *chars;
            },
        }
        i = i + 1;
    }
    proof {
        assert(ev@.take(ev@.len() as int) =~= ev@);
    }
    list
}

} // verus!
