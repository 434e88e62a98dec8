# executorch_bencher

A benchmark-collection service for LLM runs on Android phones and Linux
hosts, with its rules proved by Verus.

- `src/` is the verified library: validation of submitted runs and of the
  host snapshot each platform and device class must carry, the stored row
  of a run and how it reads back, the run listing's filters and keyset
  pages (with their opaque cursors), the grouping of runs into result rows
  and their order statistics, artifact and model-asset records, the
  configuration read from the environment, the benchmark-log reader of the
  importer and the input parameters it records for each run, and the API's error answers. Every public function states what
  it returns in its `ensures`; calls into `chrono`, `base64`, `uuid`,
  `sha2` and `serde_json` go through small trusted wrappers whose results
  are named.
- `app/` is the program around it: the HTTP routes (axum), the SQLite
  storage (sqlx), streaming artifact upload and download, change
  notifications, the log importer (`import-observer-log <manifest-file>`)
  the storage integrity report (`integrity-check`), and the OpenAPI
  document (served at `/openapi.json`, written to `openapi/openapi.json`
  by `gen-openapi`). It hands the
  library plain values and acts on what the library decides.
- `tests/` runs the library on concrete values.

The schema migrations are read at startup from a `migrations` directory in
the working directory.
