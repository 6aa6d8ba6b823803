# rustybuzz (verified core)

The text-shaping logic of rustybuzz, written in Verus: every function in
`src/` carries a contract that Verus proves.

- `glyph`, `buffer`, `buffer_moves`: glyph records, the shaping buffer
  (input, output, clusters, glyph flags) and the record moves that
  reordering passes make.
- `syllable_machine` and the `*_tables` / `*_machine` modules: a table-driven
  scanner and the Khmer, Myanmar, Indic and Universal syllable machines.
- `complex::indic_machine`: the Indic syllable grammar, as productions over
  the glyph categories.
- `khmer`, `myanmar`, `universal`, `arabic`, `hebrew`, `normalize`,
  `syllabic`, `stch`, `aat_layout`: script-specific properties, reordering,
  masks, joining, composition, dotted circles and stretching.
- `ot_shape`: the shape plan's positioning decisions.
- `aat_map`, `aat_layout_common`, `set_digest`: the AAT feature map builder,
  range flags and glyph-set digests.
- `common`, `text_parser`, `flags`, `unicode`: tags, directions, feature
  strings and small helpers.

`app/` turns what ttf-parser reads from a font into the values the library
takes (the raw `feat` table, glyph ids). `tests/` runs the library on concrete inputs.
