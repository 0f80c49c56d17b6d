# trans-core

An offline English–Indonesian dictionary with an online fallback, as a
verified library (`src/`) and a thin command-line program (`app/`).

- `src/json.rs`, `src/google.rs`: the reply of the online translation
  service, decoded into plain JSON values, and how results and spelling
  suggestions are read from it.
- `src/index.rs`, `src/schema.rs`, `src/entry.rs`: the layout of the local
  index, the documents stored for dictionary entries, and exact / one-typo
  lookups in it.
- `src/cli.rs`, `src/display.rs`: command-line arguments and printed output;
  the elements of the graphical result pane and the decisions its events lead to.
- `src/language.rs`, `src/search.rs`, `src/text.rs`: languages, results, and
  character-level text helpers.
- `app/`: argument handling, HTTP, disk access, decoding of the entry list,
  and the index builder (run the program as `trans-indexer`).
