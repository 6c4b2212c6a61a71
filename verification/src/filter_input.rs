//! Inputs of filter primitives: the `in` and `in2` attributes.

use vstd::prelude::*;
use crate::text::{contains_name, str_eq};

verus! {

/// A filter primitive input.
#[derive(Clone, Debug)]
pub enum FilterInput {
    SourceGraphic,
    SourceAlpha,
    BackgroundImage,
    BackgroundAlpha,
    FillPaint,
    StrokePaint,
    Reference(String),
}

/// The mathematical value of a [`FilterInput`].
pub enum SpecFilterInput {
    SourceGraphic,
    SourceAlpha,
    BackgroundImage,
    BackgroundAlpha,
    FillPaint,
    StrokePaint,
    Reference(Seq<char>),
}

impl View for FilterInput {
    type V = SpecFilterInput;

    open spec fn view(&self) -> SpecFilterInput {
        match self {
            FilterInput::SourceGraphic => SpecFilterInput::SourceGraphic,
            FilterInput::SourceAlpha => SpecFilterInput::SourceAlpha,
            FilterInput::BackgroundImage => SpecFilterInput::BackgroundImage,
            FilterInput::BackgroundAlpha => SpecFilterInput::BackgroundAlpha,
            FilterInput::FillPaint => SpecFilterInput::FillPaint,
            FilterInput::StrokePaint => SpecFilterInput::StrokePaint,
            FilterInput::Reference(s) => SpecFilterInput::Reference(s@),
        }
    }
}

/// The input that the attribute value `s` denotes.
pub open spec fn spec_parse_in(s: Seq<char>) -> SpecFilterInput {
    if s == "SourceGraphic"@ {
        SpecFilterInput::SourceGraphic
    } else if s == "SourceAlpha"@ {
        SpecFilterInput::SourceAlpha
    } else if s == "BackgroundImage"@ {
        SpecFilterInput::BackgroundImage
    } else if s == "BackgroundAlpha"@ {
        SpecFilterInput::BackgroundAlpha
    } else if s == "FillPaint"@ {
        SpecFilterInput::FillPaint
    } else if s == "StrokePaint"@ {
        SpecFilterInput::StrokePaint
    } else {
        SpecFilterInput::Reference(s)
    }
}

/// The attribute value written for an input.
pub open spec fn spec_input_name(i: SpecFilterInput) -> Seq<char> {
    match i {
        SpecFilterInput::SourceGraphic => "SourceGraphic"@,
        SpecFilterInput::SourceAlpha => "SourceAlpha"@,
        SpecFilterInput::BackgroundImage => "BackgroundImage"@,
        SpecFilterInput::BackgroundAlpha => "BackgroundAlpha"@,
        SpecFilterInput::FillPaint => "FillPaint"@,
        SpecFilterInput::StrokePaint => "StrokePaint"@,
        SpecFilterInput::Reference(s) => s,
    }
}

/// Whether `s` is one of the predefined input keywords.
pub open spec fn is_input_keyword(s: Seq<char>) -> bool {
    !(spec_parse_in(s) is Reference)
}

/// Parses the value of an `in` attribute.
pub fn parse_in(s: &str) -> (r: FilterInput)
    ensures
        r@ == spec_parse_in(s@),
{
    if str_eq(s, "SourceGraphic") {
        FilterInput::SourceGraphic
    } else if str_eq(s, "SourceAlpha") {
        FilterInput::SourceAlpha
    } else if str_eq(s, "BackgroundImage") {
        FilterInput::BackgroundImage
    } else if str_eq(s, "BackgroundAlpha") {
        FilterInput::BackgroundAlpha
    } else if str_eq(s, "FillPaint") {
        FilterInput::FillPaint
    } else if str_eq(s, "StrokePaint") {
        FilterInput::StrokePaint
    } else {
        FilterInput::Reference(s.to_owned())
    }
}

/// The value of the `in` attribute written for `input`.
pub fn input_name(input: &FilterInput) -> (r: &str)
    ensures
        r@ == spec_input_name(input@),
{
    match input {
        FilterInput::SourceGraphic => "SourceGraphic",
        FilterInput::SourceAlpha => "SourceAlpha",
        FilterInput::BackgroundImage => "BackgroundImage",
        FilterInput::BackgroundAlpha => "BackgroundAlpha",
        FilterInput::FillPaint => "FillPaint",
        FilterInput::StrokePaint => "StrokePaint",
        FilterInput::Reference(s) => s.as_str(),
    }
}

/// Reading back a written input gives the same input, unless the input
/// references a result named like a predefined input.
pub proof fn lemma_input_name_round_trip(i: SpecFilterInput)
    requires
        i matches SpecFilterInput::Reference(name) ==> !is_input_keyword(name),
    ensures
        spec_parse_in(spec_input_name(i)) == i,
{
    reveal_strlit("SourceGraphic");
    reveal_strlit("SourceAlpha");
    reveal_strlit("BackgroundImage");
    reveal_strlit("BackgroundAlpha");
    reveal_strlit("FillPaint");
    reveal_strlit("StrokePaint");
    assert("SourceGraphic"@.len() == 13);
    assert("SourceAlpha"@.len() == 11);
    assert("BackgroundImage"@.len() == 15);
    assert("BackgroundAlpha"@.len() == 15);
    assert("FillPaint"@.len() == 9);
    assert("StrokePaint"@.len() == 11);
    assert("SourceAlpha"@[1] != "StrokePaint"@[1]);
    assert("BackgroundImage"@[10] != "BackgroundAlpha"@[10]);
}

/// The views of a list of strings.
pub open spec fn views(names: Seq<String>) -> Seq<Seq<char>> {
    names.map_values(|s: String| s@)
}

/// The input of a primitive whose attribute holds `attr` (if present),
/// given the result names of the preceding primitives.
pub open spec fn spec_resolve_input(attr: Option<Seq<char>>, results: Seq<Seq<char>>) -> SpecFilterInput {
    let fallback = if results.len() > 0 {
        SpecFilterInput::Reference(results.last())
    } else {
        SpecFilterInput::SourceGraphic
    };
    match attr {
        Some(s) => match spec_parse_in(s) {
            SpecFilterInput::Reference(name) => if results.contains(name) {
                SpecFilterInput::Reference(name)
            } else {
                fallback
            },
            input => input,
        },
        None => fallback,
    }
}

/// The view of an optional string slice.
pub open spec fn opt_str_view(attr: Option<&str>) -> Option<Seq<char>> {
    match attr {
        Some(s) => Some(s@),
        None => None,
    }
}

/// Resolves the input of a filter primitive.
///
/// `attr` is the value of the `in` (or `in2`) attribute, if present, and
/// `results` are the `result` names of the preceding primitives, in order.
/// A missing attribute, or a reference to an unknown result, falls back to
/// the result of the previous primitive or, for the first primitive, to
/// `SourceGraphic`.
pub fn resolve_input(attr: Option<&str>, results: &Vec<String>) -> (r: FilterInput)
    ensures
        r@ == spec_resolve_input(opt_str_view(attr), views(results@)),
{
    let fallback = if results.len() > 0 {
        FilterInput::Reference(results[results.len() - 1].clone())
    } else {
        FilterInput::SourceGraphic
    };
    match attr {
        Some(s) => {
            let input = parse_in(s);
            if let FilterInput::Reference(ref name) = input {
                if !contains_name(results, name.as_str()) {
                    proof {
                        assert forall|i: int| 0 <= i < views(results@).len()
                            implies views(results@)[i] != name@ by {
                            assert(views(results@)[i] == results@[i]@);
                        }
                    }
                    return fallback;
                }
                proof {
                    let i = choose|i: int| 0 <= i < results.len() && #[trigger] results@[i]@ == name@;
                    assert(views(results@)[i] == name@);
                }
            }
            input
        },
        None => fallback,
    }
}

/// A resolved input never references an unknown result.
pub proof fn lemma_resolved_reference_is_known(attr: Option<Seq<char>>, results: Seq<Seq<char>>)
    ensures
        spec_resolve_input(attr, results) matches SpecFilterInput::Reference(name) ==> results.contains(
            name,
        ),
{
    if results.len() > 0 {
        assert(results[results.len() - 1] == results.last());
    }
}

/// Compares two inputs: the same predefined input, or references to the
/// same result.
pub fn input_eq(a: &FilterInput, b: &FilterInput) -> (r: bool)
    ensures
        r == (a@ == b@),
{
    match (a, b) {
        (FilterInput::SourceGraphic, FilterInput::SourceGraphic) => true,
        (FilterInput::SourceAlpha, FilterInput::SourceAlpha) => true,
        (FilterInput::BackgroundImage, FilterInput::BackgroundImage) => true,
        (FilterInput::BackgroundAlpha, FilterInput::BackgroundAlpha) => true,
        (FilterInput::FillPaint, FilterInput::FillPaint) => true,
        (FilterInput::StrokePaint, FilterInput::StrokePaint) => true,
        (FilterInput::Reference(x), FilterInput::Reference(y)) => str_eq(x.as_str(), y.as_str()),
        _ => false,
    }
}

/// A primitive with the inputs `inputs` takes `input`.
pub open spec fn takes_input(inputs: Seq<FilterInput>, input: SpecFilterInput) -> bool {
    exists|j: int| 0 <= j < inputs.len() && (#[trigger] inputs[j])@ == input
}

/// Whether a primitive, given by its inputs (`in`, and `in2` where it has
/// one, or the inputs of its merge nodes), takes `input`.
pub fn has_input(inputs: &[FilterInput], input: &FilterInput) -> (r: bool)
    ensures
        r == takes_input(inputs@, input@),
{
    let mut j: usize = 0;
    while j < inputs.len()
        invariant
            j <= inputs@.len(),
            forall|k: int| 0 <= k < j ==> (#[trigger] inputs@[k])@ != input@,
        decreases inputs.len() - j,
    {
        if input_eq(&inputs[j], input) {
            return true;
        }
        j = j + 1;
    }
    false
}

/// Some primitive of the filter `primitives` takes `input`.
pub open spec fn filter_takes_input(primitives: Seq<Vec<FilterInput>>, input: SpecFilterInput) -> bool {
    exists|p: int| 0 <= p < primitives.len() && takes_input((#[trigger] primitives[p])@, input)
}

/// Whether some primitive of the filter takes `input`.
pub fn filter_has_input(primitives: &[Vec<FilterInput>], input: &FilterInput) -> (r: bool)
    ensures
        r == filter_takes_input(primitives@, input@),
{
    let mut p: usize = 0;
    while p < primitives.len()
        invariant
            p <= primitives@.len(),
            forall|k: int| 0 <= k < p ==> !takes_input((#[trigger] primitives@[k])@, input@),
        decreases primitives.len() - p,
    {
        if has_input(primitives[p].as_slice(), input) {
            return true;
        }
        p = p + 1;
    }
    false
}

/// Whether some primitive of one of the filters of an element takes
/// `input`. An element's fill (for `FillPaint`) or stroke (for
/// `StrokePaint`) is kept for its filters only when this holds.
pub fn filters_use_input(filters: &[Vec<Vec<FilterInput>>], input: &FilterInput) -> (r: bool)
    ensures
        r == exists|f: int| 0 <= f < filters@.len() && filter_takes_input((#[trigger] filters@[f])@, input@),
{
    let mut f: usize = 0;
    while f < filters.len()
        invariant
            f <= filters@.len(),
            forall|k: int| 0 <= k < f ==> !filter_takes_input((#[trigger] filters@[k])@, input@),
        decreases filters.len() - f,
    {
        if filter_has_input(filters[f].as_slice(), input) {
            return true;
        }
        f = f + 1;
    }
    false
}

/// A filter with the primitives `primitives` reads the background.
pub open spec fn uses_background(primitives: Seq<Vec<FilterInput>>) -> bool {
    filter_takes_input(primitives, SpecFilterInput::BackgroundImage) || filter_takes_input(
        primitives,
        SpecFilterInput::BackgroundAlpha,
    )
}

/// Finds the node whose content a filter that reads the background starts
/// from: the nearest proper ancestor of the filtered node that has
/// `enable-background`. `enable_background[k]` tells whether the `k`-th
/// ancestor has it, the node itself coming first. A filter that reads no
/// background needs no such node.
pub fn filter_background_start_node(primitives: &[Vec<FilterInput>], enable_background: &[bool]) -> (r:
    Option<usize>)
    ensures
        match r {
            Some(i) => uses_background(primitives@) && 1 <= i < enable_background@.len()
                && enable_background@[i as int] && forall|k: int|
                1 <= k < i ==> !#[trigger] enable_background@[k],
            None => !uses_background(primitives@) || forall|k: int|
                1 <= k < enable_background@.len() ==> !#[trigger] enable_background@[k],
        },
{
    if !filter_has_input(primitives, &FilterInput::BackgroundImage) && !filter_has_input(
        primitives,
        &FilterInput::BackgroundAlpha,
    ) {
        return None;
    }
    let mut i: usize = 1;
    while i < enable_background.len()
        invariant
            1 <= i,
            uses_background(primitives@),
            forall|k: int| 1 <= k < i && k < enable_background@.len() ==> !#[trigger] enable_background@[k],
        decreases enable_background.len() - i,
    {
        if enable_background[i] {
            return Some(i);
        }
        i = i + 1;
    }
    None
}

} // verus!
