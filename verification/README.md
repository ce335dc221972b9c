# roc_reporting

Error reports of the Roc compiler, verified with Verus.

A report is a tree of text fragments (`text::ReportText`): plain and
emphasized text, names of values and modules, types, operators, URLs, and
regions of the source, combined side by side (`Concat`), one per line
(`Stack`), or indented (`Indent`). Rendering a report lays it out as a
document (`doc::Doc`), lays the document out as pieces of text and
annotation boundaries, and writes those pieces with a writer: `CiWrite` for
consoles without colors, `ColorWrite` for color terminals. A writer sends its
text to any sink that implements `style::Upstream`; a sink may refuse a
write, and the writers' contracts say what each call leaves behind then.

Layout of `src/`:

- `symbol`, `syntax`: modules, identifiers, symbols and their names;
  regions, operators, and the problems that canonicalization finds.
- `text`: the report text and its mathematical value.
- `doc`: documents, their layout, and the bound on the columns it reaches.
- `style`: annotations, palettes, the two writers, what writing laid-out
  pieces produces, and how annotations nest.
- `render`: the document of each kind of text, and the rendering entry
  points.
- `report`: the report of each canonicalization problem.
- `laws`: what holds of every rendering, proved.
- `compose`: how the renderings of a `Concat` and of a `Stack` are made of
  the renderings of their texts.
- `uncolored`: a color terminal with a blank palette writes what a console
  writes, with reset sequences added.

`tests/oracle.rs` renders sample reports both with this library and with the
`pretty` crate's layout engine, and checks that they agree.
