# nimbusbill

Multi-cloud cost estimation: a service catalog for AWS, Azure and GCP, price
lookups, LLM token rates, and an estimate engine that turns a workload into
daily, monthly, quarterly, half-yearly and yearly costs, exported as CSV, XLSX or PDF.

## Layout

- `src/` — the verified library (Verus). Each module states its behaviour in
  `requires` / `ensures` contracts over spec functions and views:
  - `money` — fixed-point decimals backed by `rust_decimal`;
  - `models`, `catalog`, `service_rules`, `regions` — the data model, the
    category and unit inference rules, and region filtering;
  - `json`, `offer_index`, `gcp_catalog`, `azure_retail`, `azure_scan`,
    `bedrock_book`, `llm` — readers of the providers' price documents and the
    LLM token-rate extraction;
  - `pricing`, `estimate`, `report` — line items, per-provider estimates and
    the export content;
  - `workload`, `importing` — workload parsing (text, CSV) and import lines;
  - `store`, `sync_plan`, `requests`, `order`, `text` — catalog storage rules,
    sync planning, request validation and small string utilities.
- `app/` — the program around the library: HTTP server, CLI, SQLite storage,
  network fetches, spreadsheet and PDF writers, and the few computations on
  floating-point values.
- `tests/` — tests of the library's public functions.
