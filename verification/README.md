# data_guard

A data-quality gatekeeper for Parquet files. For the first 1000 rows of a
file it reports, per column, the null rate, the duplicate rate, the number of
distinct values, a health grade for each rate, cleaning suggestions, and for
text columns the average byte length and whether values look like HTML.

Layout:

- `src/` — the verified library (Verus).
  - `app.rs` — report types; rates are exact quotients of counts (`Rate`).
  - `diagnosis/engine.rs` — the per-column diagnosis and its laws.
  - `diagnosis/text.rs` — stand-in values, decimal numerals, byte lengths.
  - `parser/row_budget.rs` — how many rows of each batch read are kept.
  - `ui/main_window.rs` — overall score, file report, the window's state machine.
  - `ui/table_view.rs` — how table cells are shown (cut at 50 bytes).
- `app/` — the command-line program: Parquet/Arrow reading, conversion of
  record batches into the library's `BatchData`, and printing (rates are
  printed as floating-point percentages here).
- `tests/` — tests of the library on concrete values.
