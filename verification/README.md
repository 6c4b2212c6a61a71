# usvg_core

The verified core of an SVG simplification and filtering library, written
in Verus. Every function of the library under `src/` carries a contract that
Verus proves; the tests under `tests/` run the compiled library on concrete
values.

## Layout

- `src/` — the library:
  - `tree`, `export`, `markers`, `primitives` — presentation and filter
    attribute keywords, their defaults, and the values written back;
  - `ids` — fresh identifiers for generated clip paths, filters, paint
    servers and filter results;
  - `filter_input`, `primitives`, `convolve`, `lighting`, `filters` — filter
    primitive inputs, convolve matrix edge handling, lighting surface
    normals, color space tables and alpha premultiplication;
  - `links`, `cleanup`, `subroots`, `href`, `recursion` — references
    between the nodes of a converted tree, removal of unused definitions,
    empty groups, images of nested documents, ungrouping, walks through the
    trees that nodes draw through, `xlink:href` chains, and the breaking of
    reference loops;
  - `group` — how an element is converted: its route, whether it becomes a
    group, what its content becomes, regrouping, and the plan of a path;
  - `paint_server`, `inherit` — paint server references, gradient settings,
    and inherited colors;
  - `image` — image format sniffing and `data:` URLs (through the `data-url`
    and `base64` crates);
  - `text`, `text_layout`, `text_style`, `text_positions`, `text_chunks` —
    string helpers, byte and character positions, glyph clusters, font and
    text properties, per-character positions and rotations, text chunks and
    spans, and the pieces of text decorations;
  - `args`, `errors`, `compare` — command-line options, error messages and
    codes, and image comparison for regression tests.
- `app/` — ordinary Rust around the library: the floating-point filter
  kernels and gradient stop offsets, and the console and file edges of the
  command-line tool.
- `tests/` — tests of the library on concrete values.
