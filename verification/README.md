# deck_diagrams

A command-line tool that downloads statistics on partner commander pairs from
EDHREC and draws them as a grid diagram (SVG rendered to PNG).

- `src/` is the verified library:
  - `color`: the five colours, their one-letter codes and their fills;
  - `json`: a JSON value, reading a document into it (with `serde_json`), and
    the member lookups that reading a page needs;
  - `text`: slugs of names, page addresses, decimal texts and element identifiers;
  - `decks`: the insertion-ordered map of deck counts per pair (an `IndexMap`);
  - `order`: each partner's total and the order of a diagram's rows and columns;
  - `web`: reading a page's data block, and applying a download to the stored data;
  - `draw`: the plan of the grid's cells and of the colour-identity fills;
  - `encode`: Base64 text of embedded images.
- `app/` holds the program: argument handling, file and network I/O, the
  JSON data file, floating-point geometry of the SVG and its rendering.
