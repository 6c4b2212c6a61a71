//! Parsing and checking of command-line option values.

use vstd::prelude::*;
use crate::text::{
    lemma_split_on_len, parse_u32, spec_parse_u32, split_on, split_str, str_eq, trim, trim_str,
};

verus! {

/// Parses a `--dpi` value: a number in `10..=4000`.
pub fn parse_dpi(s: &str) -> (r: Result<u32, &'static str>)
    ensures
        match spec_parse_u32(s@) {
            None => r is Err && r->Err_0@ == "invalid number"@,
            Some(n) => if 10 <= n <= 4000 {
                r == Ok::<u32, &'static str>(n)
            } else {
                r is Err && r->Err_0@ == "DPI out of bounds"@
            },
        },
{
    let n = match parse_u32(s) {
        Some(n) => n,
        None => return Err("invalid number"),
    };
    if n >= 10 && n <= 4000 {
        Ok(n)
    } else {
        Err("DPI out of bounds")
    }
}

/// Parses a `--width` or `--height` value: a positive number.
pub fn parse_length(s: &str) -> (r: Result<u32, &'static str>)
    ensures
        match spec_parse_u32(s@) {
            None => r is Err && r->Err_0@ == "invalid length"@,
            Some(n) => if n > 0 {
                r == Ok::<u32, &'static str>(n)
            } else {
                r is Err && r->Err_0@ == "LENGTH cannot be zero"@
            },
        },
{
    let n = match parse_u32(s) {
        Some(n) => n,
        None => return Err("invalid length"),
    };
    if n > 0 {
        Ok(n)
    } else {
        Err("LENGTH cannot be zero")
    }
}

/// Parses a `--font-size` value: a number in `1..=192`.
pub fn parse_font_size(s: &str) -> (r: Result<u32, &'static str>)
    ensures
        match spec_parse_u32(s@) {
            None => r is Err && r->Err_0@ == "invalid number"@,
            Some(n) => if 0 < n <= 192 {
                r == Ok::<u32, &'static str>(n)
            } else {
                r is Err && r->Err_0@ == "font size out of bounds"@
            },
        },
{
    let n = match parse_u32(s) {
        Some(n) => n,
        None => return Err("invalid number"),
    };
    if n > 0 && n <= 192 {
        Ok(n)
    } else {
        Err("font size out of bounds")
    }
}

/// The languages that a `--languages` value lists: its comma-separated
/// pieces, trimmed.
pub open spec fn spec_languages(s: Seq<char>) -> Seq<Seq<char>> {
    split_on(s, ',').map_values(|p: Seq<char>| trim(p))
}

/// Parses a comma-separated `--languages` value.
///
/// Every piece between commas becomes a language, without its surrounding
/// white space, so the list is never empty.
pub fn parse_languages(s: &str) -> (r: Result<Vec<String>, &'static str>)
    ensures
        r matches Ok(langs) && langs@.map_values(|l: String| l@) == spec_languages(s@),
{
    let pieces = split_str(s, ',');
    let ghost pv = pieces@.map_values(|p: &str| p@);
    let mut langs: Vec<String> = Vec::new();
    let mut i: usize = 0;
    while i < pieces.len()
        invariant
            i <= pieces.len(),
            pv == pieces@.map_values(|p: &str| p@),
            pv == split_on(s@, ','),
            langs@.len() == i,
            forall|j: int| 0 <= j < i ==> #[trigger] langs@[j]@ == trim(pv[j]),
        decreases pieces.len() - i,
    {
        let lang = trim_str(pieces[i]);
        langs.push(lang.to_owned());
        assert(pv[i as int] == pieces@[i as int]@);
        i = i + 1;
    }
    proof {
        lemma_split_on_len(s@, ',');
    }
    assert(langs@.map_values(|l: String| l@) =~= spec_languages(s@));
    if langs.len() == 0 {
        return Err("languages list cannot be empty");
    }
    Ok(langs)
}

/// An XML indentation style.
#[derive(Clone, Copy, PartialEq, Eq, Debug, Structural)]
pub enum XmlIndent {
    /// No indentation and no new lines.
    Disabled,
    Spaces(u8),
    Tabs,
}

/// The indentation that an `--indent` value names.
pub open spec fn spec_indent(s: Seq<char>) -> Option<XmlIndent> {
    if s == "none"@ {
        Some(XmlIndent::Disabled)
    } else if s == "0"@ {
        Some(XmlIndent::Spaces(0))
    } else if s == "1"@ {
        Some(XmlIndent::Spaces(1))
    } else if s == "2"@ {
        Some(XmlIndent::Spaces(2))
    } else if s == "3"@ {
        Some(XmlIndent::Spaces(3))
    } else if s == "4"@ {
        Some(XmlIndent::Spaces(4))
    } else if s == "tabs"@ {
        Some(XmlIndent::Tabs)
    } else {
        None
    }
}

/// Parses an `--indent` or `--attrs-indent` value.
pub fn parse_indent(s: &str) -> (r: Result<XmlIndent, &'static str>)
    ensures
        match spec_indent(s@) {
            Some(i) => r == Ok::<XmlIndent, &'static str>(i),
            None => r is Err && r->Err_0@ == "invalid INDENT value"@,
        },
{
    if str_eq(s, "none") {
        Ok(XmlIndent::Disabled)
    } else if str_eq(s, "0") {
        Ok(XmlIndent::Spaces(0))
    } else if str_eq(s, "1") {
        Ok(XmlIndent::Spaces(1))
    } else if str_eq(s, "2") {
        Ok(XmlIndent::Spaces(2))
    } else if str_eq(s, "3") {
        Ok(XmlIndent::Spaces(3))
    } else if str_eq(s, "4") {
        Ok(XmlIndent::Spaces(4))
    } else if str_eq(s, "tabs") {
        Ok(XmlIndent::Tabs)
    } else {
        Err("invalid INDENT value")
    }
}

/// The default output format.
pub fn default_format() -> (r: &'static str)
    ensures
        r@ == "svg"@,
{
    "svg"
}

/// The supported output formats.
pub fn formats() -> (r: Vec<&'static str>)
    ensures
        r@.len() == 2,
        r@[0]@ == "svg"@,
        r@[1]@ == "pdf"@,
{
    let mut list: Vec<&'static str> = Vec::new();
    list.push("svg");
    list.push("pdf");
    list
}

/// Where the SVG is read from.
#[derive(Clone, Copy, PartialEq, Eq, Debug)]
pub enum InputFrom<'a> {
    Stdin,
    File(&'a str),
}

/// Where the result is written to.
#[derive(Clone, Copy, PartialEq, Eq, Debug)]
pub enum OutputTo<'a> {
    Stdout,
    File(&'a str),
}

/// Picks the input and the output of the `usvg` tool from its positional
/// arguments `free` and the `-c` flag `stdout`.
///
/// `-` as the input together with `-c`, or as the output, reads the
/// standard input; `-` as the output writes back to the file named as the
/// input.
pub fn resolve_in_out<'a>(free: &'a Vec<String>, stdout: bool) -> (r: Result<
    (InputFrom<'a>, OutputTo<'a>),
    &'static str,
>)
    requires
        !(free@.len() == 1 && !stdout),
    ensures
        free@.len() == 0 ==> r is Err && r->Err_0@ == "no positional arguments are provided"@,
        free@.len() > 0 ==> (r matches Ok((from, to)) && {
            let in_svg = free@[0]@;
            let out_dash = free@.len() > 1 && free@[1]@ == "-"@;
            &&& (if (in_svg == "-"@ && stdout) || out_dash {
                from == InputFrom::<'a>::Stdin
            } else {
                from matches InputFrom::File(f) && f@ == in_svg
            })
            &&& (if stdout {
                to == OutputTo::<'a>::Stdout
            } else if out_dash {
                to matches OutputTo::File(f) && f@ == in_svg
            } else {
                to matches OutputTo::File(f) && f@ == free@[1]@
            })
        }),
{
    if free.len() == 0 {
        return Err("no positional arguments are provided");
    }
    let in_svg = free[0].as_str();
    let out_dash = free.len() > 1 && str_eq(free[1].as_str(), "-");
    let svg_from = if str_eq(in_svg, "-") && stdout {
        InputFrom::Stdin
    } else if out_dash {
        InputFrom::Stdin
    } else {
        InputFrom::File(in_svg)
    };
    let svg_to = if stdout {
        OutputTo::Stdout
    } else if out_dash {
        OutputTo::File(in_svg)
    } else {
        OutputTo::File(free[1].as_str())
    };
    Ok((svg_from, svg_to))
}

/// How the rendered image is sized. `Z` is the type of a zoom factor.
#[derive(Clone, Copy, PartialEq, Debug)]
pub enum FitTo<Z> {
    /// The size of the SVG.
    Original,
    /// Scaled to the given width.
    Width(u32),
    /// Scaled to the given height.
    Height(u32),
    /// Scaled by the given factor.
    Zoom(Z),
}

/// Picks the sizing of the rendered image from the `--width`, `--height`
/// and `--zoom` options: the first one given, in that order.
pub fn fit_to<Z>(width: Option<u32>, height: Option<u32>, zoom: Option<Z>) -> (r: FitTo<Z>)
    ensures
        r == (match (width, height, zoom) {
            (Some(w), _, _) => FitTo::Width(w),
            (None, Some(h), _) => FitTo::Height(h),
            (None, None, Some(z)) => FitTo::Zoom(z),
            (None, None, None) => FitTo::<Z>::Original,
        }),
{
    if let Some(w) = width {
        FitTo::Width(w)
    } else if let Some(h) = height {
        FitTo::Height(h)
    } else if let Some(z) = zoom {
        FitTo::Zoom(z)
    } else {
        FitTo::Original
    }
}

/// Whether the conversion keeps groups with an ID: only when the IDs are
/// needed, to query all elements or to render one of them.
pub fn keep_named_groups(query_all: bool, export_id: Option<&str>) -> (r: bool)
    ensures
        r == (query_all || export_id is Some),
{
    query_all || export_id.is_some()
}

/// Reads the positional arguments of the renderer: the input SVG and,
/// unless all elements are queried, the output PNG.
pub fn render_positional<'a>(free: &'a Vec<String>, query_all: bool) -> (r: Result<
    (&'a str, Option<&'a str>),
    &'static str,
>)
    ensures
        free@.len() != (if query_all { 1int } else { 2int }) ==> r is Err && r->Err_0@
            == "<in-svg> and <out-png> must be set"@,
        free@.len() == (if query_all { 1int } else { 2int }) ==> (r matches Ok((in_svg, out_png))
            && in_svg@ == free@[0]@ && (if query_all {
            out_png is None
        } else {
            out_png matches Some(o) && o@ == free@[1]@
        })),
{
    let count: usize = if query_all { 1 } else { 2 };
    if free.len() != count {
        return Err("<in-svg> and <out-png> must be set");
    }
    let in_svg = free[0].as_str();
    let out_png = if !query_all { Some(free[1].as_str()) } else { None };
    Ok((in_svg, out_png))
}

/// Reads the positional argument of the converter: the input SVG.
pub fn convert_positional<'a>(free: &'a Vec<String>) -> (r: Result<&'a str, &'static str>)
    ensures
        free@.len() != 1 ==> r is Err && r->Err_0@ == "<in-svg>"@,
        free@.len() == 1 ==> (r matches Ok(in_svg) && in_svg@ == free@[0]@),
{
    if free.len() != 1 {
        return Err("<in-svg>");
    }
    Ok(free[0].as_str())
}

} // verus!
