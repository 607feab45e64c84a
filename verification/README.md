# cie

Ingestion of CFTC Commitments of Traders (Traders in Financial Futures)
reports and OANDA daily FX prices, verified with Verus.

- `src/` is the verified library: the report files' date, validation and
  filtering (`csv_logic`, `report_files`), the yearly archive
  (`archive`), typed COT rows (`cot`, `decimal`), the OANDA candle paging
  and daily rows (`fx`), dates (`dates`), settings (`config`) and the
  table rows (`models`). CSV, ZIP, date and decimal parsing are done by
  the `csv`, `zip`, `chrono` and `rust_decimal` crates behind small
  trusted wrappers whose contracts are stated in their doc comments.
- `app/` is the program around it: files, HTTP, OANDA, Postgres and the
  weekly run.
- `tests/` run the library on concrete inputs.
