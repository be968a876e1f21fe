# dbx

The logic of DBX's table import, its MongoDB shell command reader, its MCP tool
decisions and its ClickHouse / Elasticsearch result handling, written in Verus with
contracts that Verus proves.

- `src/` — the verified library.
  - `table_import/` — source formats and options, encoding detection, delimited and
    JSON rows, Excel sheets (styles, cell references, rows), type inference,
    column mapping, `CREATE TABLE` and batched `INSERT` statements, and the decisions
    of a running import.
  - `mongo/` — reading `db.<collection>.<method>(..)` commands and what they do.
  - `mcp/` — connections and scopes, permission gates, Markdown answers, DBX Web
    calls and replies, data paths.
  - `clickhouse.rs`, `elasticsearch.rs` — query URLs, catalogue rows, REST queries
    and their answers.
  - `json.rs`, `text.rs`, `ordered.rs`, `dialect.rs` — shared models and helpers.
- `tests/` — tests of the library on concrete values.
- `app/` — a command-line front end: reads files, workbooks, the environment and
  DBX Web, and prints what the library answers.
