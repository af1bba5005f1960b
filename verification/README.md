# tvscreener

A TradingView screener client whose request building, filter merging, field
catalog lookups, argument resolution, result parsing, text rendering and
catalog regeneration are verified with Verus.

## Layout

- `src/` - the verified library:
  - `text`, `json`, `sort` - string helpers, a plain JSON value with its
    mathematical view, and the lexicographic order used for sorted output;
  - `field` - the field catalog (`FieldsCatalog`), assets, presets, markets,
    index symbols and the named value lists;
  - `filter`, `screener`, `typed` - filter operators and conditions, the
    `Screener` builder with its payload and row parsing, and the per-asset
    screeners;
  - `resolve`, `query`, `screens` - argument parsing and the query / search
    configurations of the tool layer;
  - `format`, `render` - the text the tools answer with;
  - `cli`, `logging` - the command-line payload path and log settings;
  - `regen` - parsing of the Python field-definition sources (through `regex`)
    and the generated constant modules.
- `tests/` - the tests, run against the compiled library.
- `app/` - the executable around the library: the CLI (`clap`), HTTP
  (`reqwest` / `tokio`), catalog loading (`serde_json`), the MCP server
  (`mcpkit`), logging setup, and the float formatting of values and ratings.

Every public function states its result in its contract, over mathematical
models of the library's values; laws that relate several calls are stated and
proved next to the functions they speak of.
