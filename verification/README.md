# pdl

The verified core of the PDL toolchain, a pipeline language for tabular data,
written in Verus. The functions in `src/` carry contracts that Verus proves,
except the thin wrappers (marked `#[verifier::external_body]`) around calls
into std, `csv`, `chrono`, `arrow-ipc`, `parquet`, `serde_json`, `geojson`,
`shapefile` and `indexmap`: their contracts are trusted, and each one's doc comment
says what it assumes of the call.

## Layout

- `src/` — the library:
  - `span`, `severity`, `codes`, `diagnostic`, `source`, `report_render`:
    source spans, diagnostic codes and values, line/column lookup, and the
    terminal rendering of diagnostics.
  - `format`, `readers`, `geo`, `topojson`, `json`: data-format names and
    sniffing, the column schemas of CSV, JSON Lines, Arrow, Parquet,
    GeoJSON, shapefile and TopoJSON inputs, the records and cells of CSV
    and JSON Lines inputs, and CSV output.
  - `temporal`: parsing, flooring and formatting of dates and datetimes.
  - `value`, `frame`, `scalar`, `row_union`, `pivot`, `mutate`,
    `complete`, `aggregate`: table cells, tables and their column
    operations, scalar functions, and the row runtime's `union`,
    `pivot_longer`, `mutate`, `filter`, `complete` and the grouping of
    `group_by` aggregation, with `lag`/`lead` offsets; expression values are handed
    in, evaluated.
  - `context`: the `--context name=value` overrides of a run.
  - `engine`, `expr`, `schema`, `exec_plan`: window frames, join and union
    column plans, the static analysis of data expressions, and the text of
    execution plans.
  - `path`, `origin`, `cache`, `facts`, `io`, `plan`, `prepare`, `report`:
    the driver: input and output paths, format decisions, driver plans and
    the preparation report.
  - `render`, `cli`, `serve`: JSON and text renderings of schemas and plans,
    command-line helpers, and the HTTP side of the preview server.
  - `bench`, `measure`, `compare`: the benchmark harness's workload table,
    report rows, sample statistics, run records and run comparisons.
  - `text`, `assoc`: string and association-list helpers.
- `tests/` — tests of the library.
- `app/` — the `pdl` command-line program around the library: argument
  parsing, file and terminal I/O, JSON output, `pdl init`, the serde
  parse of TopoJSON documents into the library's JSON values, and the
  binary64 reading of number cells when whole tables are loaded.
