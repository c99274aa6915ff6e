# muskitty-layout

Box-tree generation for a CSS layout engine, with proved contracts.

- `src/` is the verified library:
  - `css` — computed values, keyword matching, per-element computed styles;
  - `style_map` — computed style → layout style (display, position, sizes,
    margins, paddings, borders, flexbox, gaps, grid templates);
  - `text` — font size / family / weight resolution, generic family names;
  - `dom` — the document tree the library reads (elements, text, other);
  - `tree` — the layout box tree and its placement order;
  - `convert` — box generation (`display: none` / `contents`, non-rendered
    tags, text leaves, absolutely positioned boxes);
  - `shape` — no box of a generated tree is shared between parents.
- `app/` converts `muskitty_dom` documents and `muskitty_cascade` styles to
  the library's types, hands the generated boxes to taffy, measures text with
  cosmic-text and returns each element's layout.

Numbers are carried as IEEE-754 bit patterns in `src/`; the floating-point
arithmetic of layout and text measurement happens in `app/`.
